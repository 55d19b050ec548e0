//! What is to be done to show an image: the backend action and the
//! commands of the programs that are told of the image.

use crate::backend::{
    action_of, chosen, de_command, effective_name, table_matches, text_of, BackendAction,
    BackendActionView,
};
use crate::command::{expand_command, expanded, CommandLine, CommandLineView};
use crate::errors::{ConfigFileErrors, Errors, ErrorsView};
use crate::resolve::{select_window, shown_at};
use crate::text::words;
use crate::time_track::Time;
use crate::validate::{error_checking, minutes, verdict};
use vstd::prelude::*;

verus! {

/// The command of a program that is told of the image, and the template
/// that it was built from, under which a failure to run it is reported.
#[derive(Debug)]
pub struct ProgramRun {
    pub command: CommandLine,
    pub template: String,
}

/// All that is to be run to show an image: first the backend action, then
/// the programs in their order.
#[derive(Debug)]
pub struct Plan {
    pub image: String,
    pub backend: BackendAction,
    pub programs: Vec<ProgramRun>,
}

/// The mathematical value of a `ProgramRun`.
pub struct ProgramRunView {
    pub command: CommandLineView,
    pub template: Seq<char>,
}

/// The mathematical value of a `Plan`.
pub struct PlanView {
    pub image: Seq<char>,
    pub backend: BackendActionView,
    pub programs: Seq<ProgramRunView>,
}

impl View for ProgramRun {
    type V = ProgramRunView;

    open spec fn view(&self) -> ProgramRunView {
        ProgramRunView { command: self.command@, template: self.template@ }
    }
}

impl View for Plan {
    type V = PlanView;

    open spec fn view(&self) -> PlanView {
        PlanView {
            image: self.image@,
            backend: self.backend@,
            programs: self.programs@.map_values(|run: ProgramRun| run@),
        }
    }
}

/// The templates of an optional list of programs; none for no list.
pub open spec fn templates_of(progs: Option<&Vec<String>>) -> Seq<Seq<char>> {
    match progs {
        Some(list) => list.deep_view(),
        None => Seq::empty(),
    }
}

/// The first template at or after `from` that holds no word, or the number
/// of templates where each holds one.
pub open spec fn first_blank_from(templates: Seq<Seq<char>>, from: int) -> int
    decreases templates.len() - from,
{
    if from < 0 || from >= templates.len() {
        templates.len() as int
    } else if words(templates[from]).len() == 0 {
        from
    } else {
        first_blank_from(templates, from + 1)
    }
}

/// The run of the program of a template for an image.
pub open spec fn run_of(template: Seq<char>, image: Seq<char>) -> ProgramRunView
    recommends
        words(template).len() > 0,
{
    ProgramRunView { command: expanded(words(template), image), template }
}

/// All that is to be run to show `image`. A template without a word cannot
/// be run and is reported as a program that failed; a requested backend
/// without a word is reported as not found.
pub open spec fn planned(
    image: Seq<char>,
    templates: Seq<Seq<char>>,
    backend: Option<Seq<char>>,
    desktop: Option<Seq<char>>,
    arch: Seq<char>,
) -> Result<PlanView, ErrorsView> {
    let blank = first_blank_from(templates, 0);
    let name = effective_name(desktop, backend);
    let kind = chosen(table_matches(name), backend is Some);
    if blank < templates.len() {
        Err(ErrorsView::ProgramRunError(templates[blank]))
    } else {
        match action_of(kind, image, name, arch) {
            None => Err(ErrorsView::BackendNotFoundError(name)),
            Some(action) => Ok(
                PlanView {
                    image,
                    backend: action,
                    programs: Seq::new(templates.len(), |i: int| run_of(templates[i], image)),
                },
            ),
        }
    }
}

/// The image that is shown at `now` for a directory of images and its
/// boundaries, or the fault of the boundaries.
pub open spec fn current_image(images: Seq<Seq<char>>, times: Seq<Time>, now: int) -> Result<
    Seq<char>,
    Errors,
> {
    match verdict(times, images.len(), false) {
        Err(error) => Err(error),
        Ok(_) => Ok(images[shown_at(minutes(times), now)]),
    }
}

/// Builds the runs of the programs for an image, unless one of their
/// templates holds no word.
fn program_runs(filepath_set: &str, progs: Option<&Vec<String>>) -> (runs: Result<
    Vec<ProgramRun>,
    Errors,
>)
    ensures
        ({
            let templates = templates_of(progs);
            let blank = first_blank_from(templates, 0);
            match runs {
                Ok(list) => blank == templates.len() && list@.map_values(|run: ProgramRun| run@)
                    == Seq::new(templates.len(), |i: int| run_of(templates[i], filepath_set@)),
                Err(error) => blank < templates.len() && error@ == ErrorsView::ProgramRunError(
                    templates[blank],
                ),
            }
        }),
{
    let mut list: Vec<ProgramRun> = Vec::new();
    match progs {
        None => {
            assert(list@.map_values(|run: ProgramRun| run@) =~= Seq::new(
                0,
                |i: int| run_of(templates_of(progs)[i], filepath_set@),
            ));
            Ok(list)
        },
        Some(prog_vec) => {
            let ghost templates = prog_vec.deep_view();
            let mut i: usize = 0;
            while i < prog_vec.len()
                invariant
                    0 <= i <= prog_vec.len(),
                    templates == prog_vec.deep_view(),
                    templates == templates_of(progs),
                    first_blank_from(templates, i as int) == first_blank_from(templates, 0),
                    list.len() == i,
                    forall|j: int| 0 <= j < i ==> (#[trigger] list[j])@ == run_of(
                        templates[j],
                        filepath_set@,
                    ),
                decreases prog_vec.len() - i,
            {
                assert(templates[i as int] == prog_vec[i as int]@);
                match expand_command(prog_vec[i].as_str(), filepath_set) {
                    Some(command) => {
                        list.push(ProgramRun { command, template: prog_vec[i].clone() });
                    },
                    None => {
                        assert(first_blank_from(templates, i as int) == i);
                        return Err(Errors::ProgramRunError(prog_vec[i].clone()));
                    },
                }
                i += 1;
            }
            assert(list@.map_values(|run: ProgramRun| run@) =~= Seq::new(
                templates.len(),
                |i: int| run_of(templates[i], filepath_set@),
            ));
            Ok(list)
        },
    }
}

/// Says all that is to be run to show the image at `filepath_set`: the
/// action of the backend, and the command of each program of `progs`.
pub fn set_wallpaper(
    filepath_set: &str,
    progs: Option<&Vec<String>>,
    backend: Option<&str>,
    desktop: Option<&str>,
    arch: &str,
) -> (plan: Result<Plan, Errors>)
    ensures
        match plan {
            Ok(steps) => Ok::<PlanView, ErrorsView>(steps@) == planned(
                filepath_set@,
                templates_of(progs),
                text_of(backend),
                text_of(desktop),
                arch@,
            ),
            Err(error) => Err::<PlanView, ErrorsView>(error@) == planned(
                filepath_set@,
                templates_of(progs),
                text_of(backend),
                text_of(desktop),
                arch@,
            ),
        },
{
    let programs = match program_runs(filepath_set, progs) {
        Ok(list) => list,
        Err(error) => {
            return Err(error);
        },
    };
    match de_command(filepath_set, backend, desktop, arch) {
        Ok(action) => Ok(Plan { image: String::from_str(filepath_set), backend: action, programs }),
        Err(error) => Err(error),
    }
}

/// Says all that is to be run at `curr_time` for the sorted images of a
/// directory and its boundaries: the plan for the image whose window holds
/// the time. The boundaries are validated first.
pub fn wallpaper_current_time(
    images: &Vec<String>,
    progs: Option<&Vec<String>>,
    times: &[Time],
    backend: Option<&str>,
    desktop: Option<&str>,
    arch: &str,
    curr_time: Time,
) -> (plan: Result<Plan, Errors>)
    ensures
        match current_image(images.deep_view(), times@, curr_time@) {
            Err(fault) => plan == Err::<Plan, Errors>(fault),
            Ok(image) => match plan {
                Ok(steps) => Ok::<PlanView, ErrorsView>(steps@) == planned(
                    image,
                    templates_of(progs),
                    text_of(backend),
                    text_of(desktop),
                    arch@,
                ),
                Err(error) => Err::<PlanView, ErrorsView>(error@) == planned(
                    image,
                    templates_of(progs),
                    text_of(backend),
                    text_of(desktop),
                    arch@,
                ),
            },
        },
{
    match error_checking(times, images.len(), None) {
        Err(fault) => Err(fault),
        Ok(_) => {
            let index = select_window(times, curr_time);
            assert(images.deep_view()[index as int] == images[index as int]@);
            set_wallpaper(images[index].as_str(), progs, backend, desktop, arch)
        },
    }
}

/// A line of the schedule: the name of an image and the time from which
/// it is shown.
pub open spec fn schedule_line(name: Seq<char>, time: Time) -> Seq<char> {
    "Image: "@ + name + " Time: "@ + time.twelve_hour_text()
}

/// The schedule of a directory: for each boundary after the first a line
/// with the image before it. There is none for boundaries with a fault,
/// nor where the images run out.
pub open spec fn schedule_text(names: Seq<Seq<char>>, times: Seq<Time>, rotating: bool) -> Result<
    Seq<Seq<char>>,
    Errors,
> {
    match verdict(times, names.len(), rotating) {
        Err(error) => Err(error),
        Ok(_) => if times.len() - 1 > names.len() {
            Err(Errors::ConfigFileError(ConfigFileErrors::FileTimeMismatch))
        } else {
            Ok(Seq::new((times.len() - 1) as nat, |i: int| schedule_line(names[i], times[i + 1])))
        },
    }
}

/// Writes the schedule of a directory from the names of its sorted images,
/// as they are to be shown, and its boundaries.
pub fn print_schedule(names: &Vec<String>, times: &[Time], days: Option<u32>) -> (schedule:
    Result<Vec<String>, Errors>)
    ensures
        match schedule {
            Ok(lines) => Ok::<Seq<Seq<char>>, Errors>(lines.deep_view()) == schedule_text(
                names.deep_view(),
                times@,
                days is Some,
            ),
            Err(error) => Err::<Seq<Seq<char>>, Errors>(error) == schedule_text(
                names.deep_view(),
                times@,
                days is Some,
            ),
        },
{
    match error_checking(times, names.len(), days) {
        Err(error) => {
            return Err(error);
        },
        Ok(_) => {},
    }
    if times.len() - 1 > names.len() {
        return Err(Errors::ConfigFileError(ConfigFileErrors::FileTimeMismatch));
    }
    let mut lines: Vec<String> = Vec::new();
    let mut i: usize = 1;
    while i < times.len()
        invariant
            1 <= i <= times.len(),
            times.len() - 1 <= names.len(),
            lines.len() == i - 1,
            forall|j: int|
                0 <= j < i - 1 ==> (#[trigger] lines[j])@ == schedule_line(
                    names.deep_view()[j],
                    times@[j + 1],
                ),
        decreases times.len() - i,
    {
        assert(names.deep_view()[i - 1] == names[i - 1]@);
        let mut line = String::from_str("Image: ");
        line.append(names[i - 1].as_str());
        line.append(" Time: ");
        line.append(times[i].twelve_hour().as_str());
        lines.push(line);
        i += 1;
    }
    assert(lines.deep_view() =~= Seq::new(
        (times.len() - 1) as nat,
        |i: int| schedule_line(names.deep_view()[i], times@[i + 1]),
    ));
    Ok(lines)
}

} // verus!
