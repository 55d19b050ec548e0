use dyn_wall::backend::Dispatch;
use dyn_wall::errors::{ConfigFileErrors, Errors};
use dyn_wall::resolve::select_window;
use dyn_wall::time_track::Time;
use dyn_wall::wallpaper::{print_schedule, set_wallpaper, wallpaper_current_time};

fn times(texts: &[&str]) -> Vec<Time> {
    texts.iter().map(|text| Time::parse(text).unwrap()).collect()
}

fn at(text: &str) -> Time {
    Time::parse(text).unwrap()
}

fn strings(texts: &[&str]) -> Vec<String> {
    texts.iter().map(|text| text.to_string()).collect()
}

fn pick(boundaries: &[&str], now: &str) -> usize {
    select_window(&times(boundaries), at(now))
}

#[test]
fn a_time_between_two_boundaries_shows_the_image_of_the_earlier_one() {
    let day = ["08:00", "12:00", "18:00"];
    assert_eq!(pick(&day, "10:00"), 0);
    assert_eq!(pick(&day, "08:00"), 0);
    assert_eq!(pick(&day, "11:59"), 0);
    assert_eq!(pick(&day, "12:00"), 1);
    assert_eq!(pick(&day, "17:59"), 1);
}

#[test]
fn a_time_before_the_first_boundary_shows_the_last_image() {
    let day = ["08:00", "12:00", "18:00"];
    assert_eq!(pick(&day, "05:00"), 2);
    assert_eq!(pick(&day, "00:00"), 2);
    assert_eq!(pick(&day, "07:59"), 2);
}

#[test]
fn a_time_after_the_last_boundary_shows_the_last_image() {
    let day = ["08:00", "12:00", "18:00"];
    assert_eq!(pick(&day, "18:00"), 2);
    assert_eq!(pick(&day, "23:59"), 2);
}

#[test]
fn a_single_boundary_shows_its_image_all_day() {
    for now in ["00:00", "07:59", "08:00", "23:59"] {
        assert_eq!(pick(&["08:00"], now), 0);
    }
}

#[test]
fn boundaries_that_wrap_past_midnight() {
    let wrapped = ["10:00", "02:00", "06:00"];
    assert_eq!(pick(&wrapped, "00:00"), 0);
    assert_eq!(pick(&wrapped, "01:59"), 0);
    assert_eq!(pick(&wrapped, "02:00"), 1);
    assert_eq!(pick(&wrapped, "05:59"), 1);
    assert_eq!(pick(&wrapped, "06:00"), 2);
    assert_eq!(pick(&wrapped, "09:59"), 2);
}

#[test]
fn the_time_after_the_last_boundary_before_midnight_has_no_window() {
    let wrapped = ["10:00", "02:00", "06:00"];
    assert_eq!(pick(&wrapped, "10:00"), 2);
    assert_eq!(pick(&wrapped, "23:59"), 2);
}

#[test]
fn every_minute_of_an_even_day_shows_the_image_of_its_hour() {
    let hours: Vec<Time> = (0..24u32).map(|hour| Time::new(hour * 60)).collect();
    for minute in 0..1440u32 {
        assert_eq!(select_window(&hours, Time::new(minute)), (minute / 60) as usize);
    }
}

#[test]
fn the_plan_at_a_time_names_the_image_and_what_runs() {
    let images = strings(&["/w/1.png", "/w/2.png", "/w/3.png"]);
    let progs = strings(&["betterlockscreen -u", "notify !WALL now"]);
    let plan = wallpaper_current_time(
        &images,
        Some(&progs),
        &times(&["08:00", "12:00", "18:00"]),
        Some("feh"),
        Some("GNOME"),
        "x86_64",
        at("13:30"),
    )
    .unwrap();
    assert_eq!(plan.image, "/w/2.png");
    assert_eq!(plan.backend.label, "Feh");
    match &plan.backend.dispatch {
        Dispatch::Spawn(line) => {
            assert_eq!(line.program, "feh");
            assert_eq!(line.args, strings(&["--bg-scale", "/w/2.png"]));
        }
        other => panic!("feh is a program: {:?}", other),
    }
    assert_eq!(plan.programs.len(), 2);
    assert_eq!(plan.programs[0].template, "betterlockscreen -u");
    assert_eq!(plan.programs[0].command.program, "betterlockscreen");
    assert_eq!(plan.programs[0].command.args, strings(&["-u", "/w/2.png"]));
    assert_eq!(plan.programs[1].template, "notify !WALL now");
    assert_eq!(plan.programs[1].command.program, "notify");
    assert_eq!(plan.programs[1].command.args, strings(&["/w/2.png", "now"]));
}

#[test]
fn the_plan_before_the_first_boundary_is_for_the_last_image() {
    let images = strings(&["/w/1.png", "/w/2.png", "/w/3.png"]);
    let plan = wallpaper_current_time(
        &images,
        None,
        &times(&["08:00", "12:00", "18:00"]),
        None,
        None,
        "x86_64",
        at("05:00"),
    )
    .unwrap();
    assert_eq!(plan.image, "/w/3.png");
    assert!(plan.programs.is_empty());
    assert_eq!(plan.backend.label, "Feh");
}

#[test]
fn no_plan_for_times_with_a_fault() {
    let images = strings(&["a", "b", "c", "d", "e"]);
    let four = times(&["06:00", "10:00", "14:00", "18:00"]);
    let mismatch =
        wallpaper_current_time(&images, None, &four, None, None, "x86_64", at("07:00"));
    assert_eq!(
        mismatch.unwrap_err(),
        Errors::ConfigFileError(ConfigFileErrors::FileTimeMismatch)
    );
    let none = wallpaper_current_time(&images, None, &[], None, None, "x86_64", at("07:00"));
    assert_eq!(none.unwrap_err(), Errors::ConfigFileError(ConfigFileErrors::Empty));
    let three = strings(&["a", "b", "c"]);
    let disorder = times(&["10:00", "02:00", "15:00"]);
    let refused =
        wallpaper_current_time(&three, None, &disorder, None, None, "x86_64", at("07:00"));
    assert_eq!(refused.unwrap_err(), Errors::ConfigFileError(ConfigFileErrors::OutOfOrder));
}

#[test]
fn a_program_without_a_word_cannot_run() {
    let progs = strings(&["echo", "   ", ""]);
    let refused = set_wallpaper("/w/1.png", Some(&progs), None, None, "x86_64");
    assert_eq!(refused.unwrap_err(), Errors::ProgramRunError(String::from("   ")));
}

#[test]
fn a_program_without_a_word_is_reported_before_the_backend() {
    let progs = strings(&[""]);
    let refused = set_wallpaper("/w/1.png", Some(&progs), Some(" "), None, "x86_64");
    assert_eq!(refused.unwrap_err(), Errors::ProgramRunError(String::new()));
}

#[test]
fn the_schedule_pairs_each_image_with_the_next_boundary() {
    let names = strings(&["\"1.png\"", "\"2.png\"", "\"3.png\""]);
    let lines = print_schedule(&names, &times(&["08:00", "12:00", "18:30"]), None).unwrap();
    assert_eq!(
        lines,
        strings(&["Image: \"1.png\" Time: 12:00 p.m.", "Image: \"2.png\" Time: 6:30 p.m."])
    );
}

#[test]
fn the_schedule_of_a_rotation_by_days_is_empty() {
    let names = strings(&["a", "b"]);
    let lines = print_schedule(&names, &[Time::default()], Some(2)).unwrap();
    assert!(lines.is_empty());
}

#[test]
fn no_schedule_for_times_with_a_fault() {
    let names = strings(&["a", "b"]);
    let refused = print_schedule(&names, &times(&["08:00", "12:00", "18:00"]), None);
    assert_eq!(refused.unwrap_err(), Errors::ConfigFileError(ConfigFileErrors::FileTimeMismatch));
    let repeated = print_schedule(&names, &times(&["08:00", "08:00"]), None);
    assert_eq!(repeated.unwrap_err(), Errors::ConfigFileError(ConfigFileErrors::DuplicatesFound));
}

#[test]
fn no_schedule_where_the_images_run_out() {
    let names = strings(&["a"]);
    let short = print_schedule(&names, &times(&["08:00", "12:00", "18:00"]), Some(1));
    assert_eq!(short.unwrap_err(), Errors::ConfigFileError(ConfigFileErrors::FileTimeMismatch));
    let enough = print_schedule(&names, &times(&["08:00", "12:00"]), Some(1)).unwrap();
    assert_eq!(enough, strings(&["Image: a Time: 12:00 p.m."]));
}
