//! Which mechanism sets the wallpaper, and the command or script that it runs.

use crate::command::{command_of, expand_command, CommandLine, CommandLineView};
use crate::errors::{Errors, ErrorsView};
use vstd::prelude::*;
use vstd::utf8::is_ascii_chars;

verus! {

/// The mechanisms that can set a wallpaper.
#[derive(Copy, Clone, Debug, PartialEq, Eq, Structural)]
pub enum Backend {
    Gnome,
    Lxde,
    Pantheon,
    Mate,
    Kde,
    Xfce,
    Feh,
    Custom,
}

/// For each group of desktop names, whether a name is one of the group.
#[derive(Copy, Clone, Debug)]
pub struct TableMatches {
    pub gnome: bool,
    pub lxde: bool,
    pub pantheon: bool,
    pub mate: bool,
    pub kde: bool,
    pub xfce: bool,
    pub feh: bool,
}

/// What is to be run: a program with its arguments, or a shell script.
#[derive(Debug)]
pub enum Dispatch {
    Spawn(CommandLine),
    Script(String),
}

/// What is to be run to set the wallpaper, and the name under which a
/// failure to run it is reported.
#[derive(Debug)]
pub struct BackendAction {
    pub dispatch: Dispatch,
    pub label: String,
}

/// The mathematical value of a `Dispatch`.
pub enum DispatchView {
    Spawn(CommandLineView),
    Script(Seq<char>),
}

/// The mathematical value of a `BackendAction`.
pub struct BackendActionView {
    pub dispatch: DispatchView,
    pub label: Seq<char>,
}

impl View for Dispatch {
    type V = DispatchView;

    open spec fn view(&self) -> DispatchView {
        match self {
            Dispatch::Spawn(line) => DispatchView::Spawn(line@),
            Dispatch::Script(text) => DispatchView::Script(text@),
        }
    }
}

impl View for BackendAction {
    type V = BackendActionView;

    open spec fn view(&self) -> BackendActionView {
        BackendActionView { dispatch: self.dispatch@, label: self.label@ }
    }
}

/// The script that sets the wallpaper of every Plasma desktop, up to the
/// image path.
pub const KDE_SCRIPT_HEAD: &'static str =
    "\nqdbus org.kde.plasmashell /PlasmaShell org.kde.PlasmaShell.evaluateScript \"\n    var allDesktops = desktops();\n    print (allDesktops);\n    for (i=0;i<allDesktops.length;i++) {\n        d = allDesktops[i];\n        d.wallpaperPlugin = 'org.kde.image';\n        d.currentConfigGroup = Array('Wallpaper',\n                                    'org.kde.image',\n                                    'General');\n        d.writeConfig('Image', 'file://";

/// The Plasma script from the image path on.
pub const KDE_SCRIPT_TAIL: &'static str = "')\n        }\"";

/// The script that sets every `last-image` property of Xfce, up to the image
/// path.
pub const XFCE_SCRIPT_HEAD: &'static str =
    "xfconf-query -c xfce4-desktop -l | grep last-image | while read path; do xfconf-query -c xfce4-desktop -p $path -s ";

/// The Xfce script from the image path on.
pub const XFCE_SCRIPT_TAIL: &'static str = "; done";

/// The lower-case form of an ASCII capital letter; any other character itself.
pub open spec fn ascii_lower(c: char) -> char {
    if 'A' <= c <= 'Z' {
        ((c as u32) + 32) as char
    } else {
        c
    }
}

/// `s` with each ASCII capital letter replaced by its lower-case form.
pub open spec fn ascii_folded(s: Seq<char>) -> Seq<char> {
    s.map_values(|c: char| ascii_lower(c))
}

/// Whether two texts are equal once Unicode case folding is applied to both.
pub uninterp spec fn caseless_eq(left: Seq<char>, right: Seq<char>) -> bool;

/// Compares two texts as `unicase::UniCase::new(left) == UniCase::new(right)`
/// does: by their Unicode case foldings, and, where both are ASCII, by their
/// ASCII lower-case forms. The comparison itself is not verified here.
#[verifier::external_body]
fn same_ignoring_case(left: &str, right: &str) -> (same: bool)
    ensures
        same == caseless_eq(left@, right@),
        is_ascii_chars(left@) && is_ascii_chars(right@) ==> same == (ascii_folded(left@)
            == ascii_folded(right@)),
{
    unicase::UniCase::new(left) == unicase::UniCase::new(right)
}

/// The text of an optional string.
pub open spec fn text_of(value: Option<&str>) -> Option<Seq<char>> {
    match value {
        Some(text) => Some(text@),
        None => None,
    }
}

/// The name that the table is searched for: the requested backend, else the
/// desktop that the session reports, else `Other`.
pub open spec fn effective_name(desktop: Option<Seq<char>>, backend: Option<Seq<char>>) -> Seq<
    char,
> {
    match backend {
        Some(name) => name,
        None => match desktop {
            Some(name) => name,
            None => "Other"@,
        },
    }
}

/// The groups of the table that `name` belongs to, letter case ignored.
pub open spec fn table_matches(name: Seq<char>) -> TableMatches {
    TableMatches {
        gnome: caseless_eq("gnome"@, name) || caseless_eq("gnome-xorg"@, name) || caseless_eq(
            "ubuntu"@,
            name,
        ) || caseless_eq("deepin"@, name) || caseless_eq("pop"@, name) || caseless_eq(
            "ubuntu:gnome"@,
            name,
        ),
        lxde: caseless_eq("lxde"@, name),
        pantheon: caseless_eq("pantheon"@, name),
        mate: caseless_eq("mate"@, name),
        kde: caseless_eq("plasma"@, name) || caseless_eq("neon"@, name) || caseless_eq(
            "kde"@,
            name,
        ) || caseless_eq("/usr/share/xsessions/plasma"@, name),
        xfce: caseless_eq("xfce"@, name) || caseless_eq("xubuntu"@, name) || caseless_eq(
            "xfce session"@,
            name,
        ),
        feh: caseless_eq(name, "feh"@),
    }
}

/// The backend for a name with the given table matches. A name that the
/// session reported and that the table does not hold falls back to feh; a
/// requested one is a command of its own unless it is feh.
pub open spec fn chosen(found: TableMatches, requested: bool) -> Backend {
    if found.gnome {
        Backend::Gnome
    } else if found.lxde {
        Backend::Lxde
    } else if found.pantheon {
        Backend::Pantheon
    } else if found.mate {
        Backend::Mate
    } else if found.kde {
        Backend::Kde
    } else if found.xfce {
        Backend::Xfce
    } else if !requested || found.feh {
        Backend::Feh
    } else {
        Backend::Custom
    }
}

/// The argument that names the image as a quoted `file` address.
pub open spec fn uri_argument(path: Seq<char>) -> Seq<char> {
    "'file://"@ + path + "'"@
}

/// The program that is spawned with its arguments, under a label.
pub open spec fn spawn_of(program: Seq<char>, args: Seq<Seq<char>>, label: Seq<char>) -> Option<
    BackendActionView,
> {
    Some(
        BackendActionView {
            dispatch: DispatchView::Spawn(CommandLineView { program, args }),
            label,
        },
    )
}

/// The script that is run, under a label.
pub open spec fn script_of(text: Seq<char>, label: Seq<char>) -> Option<BackendActionView> {
    Some(BackendActionView { dispatch: DispatchView::Script(text), label })
}

/// What `kind` runs to show the image at `path`. `name` is the requested
/// backend, read as a command template by `Custom`; `arch` is the machine
/// architecture, which names the directory of the Pantheon helper. There is
/// nothing to run for a custom backend whose name holds no word.
pub open spec fn action_of(kind: Backend, path: Seq<char>, name: Seq<char>, arch: Seq<char>)
    -> Option<BackendActionView> {
    match kind {
        Backend::Gnome => spawn_of(
            "gsettings"@,
            seq!["set"@, "org.gnome.desktop.background"@, "picture-uri"@, uri_argument(path)],
            "Gnome Wallpaper Adjuster"@,
        ),
        Backend::Lxde => spawn_of(
            "pcmanfm"@,
            seq!["--set-wallpaper"@, path],
            "LXDE Wallpaper Adjuster"@,
        ),
        Backend::Pantheon => spawn_of(
            "/usr/lib/"@ + arch + "-linux-gnu/"@ + "io.elementary.contract.set-wallpaper"@,
            seq![path],
            "Pantheon Wallpaper Adjuster"@,
        ),
        Backend::Mate => spawn_of(
            "gsettings set org.mate.background picture-filename"@,
            seq!["set"@, "org.mate.background"@, "picture-uri"@, uri_argument(path)],
            "Mate Wallpaper Adjuster"@,
        ),
        Backend::Kde => script_of(
            KDE_SCRIPT_HEAD@ + path + KDE_SCRIPT_TAIL@,
            "KDE Wallpaper Adjuster"@,
        ),
        Backend::Xfce => script_of(
            XFCE_SCRIPT_HEAD@ + path + XFCE_SCRIPT_TAIL@,
            "XFCE Wallpaper Adjuster"@,
        ),
        Backend::Feh => spawn_of("feh"@, seq!["--bg-scale"@, path], "Feh"@),
        Backend::Custom => match command_of(name, path) {
            Some(line) => Some(
                BackendActionView { dispatch: DispatchView::Spawn(line), label: name },
            ),
            None => None,
        },
    }
}

/// The groups of the table that a name in lower case belongs to, letter
/// for letter.
pub open spec fn plain_matches(folded: Seq<char>) -> TableMatches {
    TableMatches {
        gnome: folded == "gnome"@ || folded == "gnome-xorg"@ || folded == "ubuntu"@ || folded
            == "deepin"@ || folded == "pop"@ || folded == "ubuntu:gnome"@,
        lxde: folded == "lxde"@,
        pantheon: folded == "pantheon"@,
        mate: folded == "mate"@,
        kde: folded == "plasma"@ || folded == "neon"@ || folded == "kde"@ || folded
            == "/usr/share/xsessions/plasma"@,
        xfce: folded == "xfce"@ || folded == "xubuntu"@ || folded == "xfce session"@,
        feh: folded == "feh"@,
    }
}

/// Whether a text is ASCII without capital letters.
pub open spec fn plain(text: Seq<char>) -> bool {
    is_ascii_chars(text) && ascii_folded(text) == text
}

/// Tests whether `name` is the table entry `entry`, letter case ignored.
fn is_entry(entry: &str, name: &str) -> (same: bool)
    requires
        plain(entry@),
    ensures
        same == caseless_eq(entry@, name@),
        is_ascii_chars(name@) ==> same == (ascii_folded(name@) == entry@),
{
    same_ignoring_case(entry, name)
}

/// Tests whether `name` is one of the desktops that follow Gnome.
fn in_gnome_group(name: &str) -> (found: bool)
    ensures
        found == table_matches(name@).gnome,
        is_ascii_chars(name@) ==> found == plain_matches(ascii_folded(name@)).gnome,
{
    proof {
        reveal_strlit("gnome");
        reveal_strlit("gnome-xorg");
        reveal_strlit("ubuntu");
        reveal_strlit("deepin");
        reveal_strlit("pop");
        reveal_strlit("ubuntu:gnome");
        assert(ascii_folded("gnome"@) =~= "gnome"@);
        assert(ascii_folded("gnome-xorg"@) =~= "gnome-xorg"@);
        assert(ascii_folded("ubuntu"@) =~= "ubuntu"@);
        assert(ascii_folded("deepin"@) =~= "deepin"@);
        assert(ascii_folded("pop"@) =~= "pop"@);
        assert(ascii_folded("ubuntu:gnome"@) =~= "ubuntu:gnome"@);
    }
    is_entry("gnome", name) || is_entry("gnome-xorg", name) || is_entry("ubuntu", name)
        || is_entry("deepin", name) || is_entry("pop", name) || is_entry("ubuntu:gnome", name)
}

/// Tests whether `name` is one of the names of Plasma.
fn in_kde_group(name: &str) -> (found: bool)
    ensures
        found == table_matches(name@).kde,
        is_ascii_chars(name@) ==> found == plain_matches(ascii_folded(name@)).kde,
{
    proof {
        reveal_strlit("plasma");
        reveal_strlit("neon");
        reveal_strlit("kde");
        reveal_strlit("/usr/share/xsessions/plasma");
        assert(ascii_folded("plasma"@) =~= "plasma"@);
        assert(ascii_folded("neon"@) =~= "neon"@);
        assert(ascii_folded("kde"@) =~= "kde"@);
        assert(ascii_folded("/usr/share/xsessions/plasma"@) =~= "/usr/share/xsessions/plasma"@);
    }
    is_entry("plasma", name) || is_entry("neon", name) || is_entry("kde", name) || is_entry(
        "/usr/share/xsessions/plasma",
        name,
    )
}

/// Tests whether `name` is one of the names of Xfce.
fn in_xfce_group(name: &str) -> (found: bool)
    ensures
        found == table_matches(name@).xfce,
        is_ascii_chars(name@) ==> found == plain_matches(ascii_folded(name@)).xfce,
{
    proof {
        reveal_strlit("xfce");
        reveal_strlit("xubuntu");
        reveal_strlit("xfce session");
        assert(ascii_folded("xfce"@) =~= "xfce"@);
        assert(ascii_folded("xubuntu"@) =~= "xubuntu"@);
        assert(ascii_folded("xfce session"@) =~= "xfce session"@);
    }
    is_entry("xfce", name) || is_entry("xubuntu", name) || is_entry("xfce session", name)
}

/// Finds the groups of the table that `name` belongs to. For an ASCII
/// name these are the groups that hold its lower-case form.
pub fn lookup(name: &str) -> (found: TableMatches)
    ensures
        found == table_matches(name@),
        is_ascii_chars(name@) ==> found == plain_matches(ascii_folded(name@)),
{
    proof {
        reveal_strlit("lxde");
        reveal_strlit("pantheon");
        reveal_strlit("mate");
        reveal_strlit("feh");
        assert(ascii_folded("lxde"@) =~= "lxde"@);
        assert(ascii_folded("pantheon"@) =~= "pantheon"@);
        assert(ascii_folded("mate"@) =~= "mate"@);
        assert(ascii_folded("feh"@) =~= "feh"@);
    }
    let gnome = in_gnome_group(name);
    let lxde = is_entry("lxde", name);
    let pantheon = is_entry("pantheon", name);
    let mate = is_entry("mate", name);
    let kde = in_kde_group(name);
    let xfce = in_xfce_group(name);
    let feh = same_ignoring_case(name, "feh");
    TableMatches { gnome, lxde, pantheon, mate, kde, xfce, feh }
}

/// Picks the backend for a name whose table matches are known.
pub fn backend_from_matches(found: TableMatches, requested: bool) -> (kind: Backend)
    ensures
        kind == chosen(found, requested),
{
    if found.gnome {
        Backend::Gnome
    } else if found.lxde {
        Backend::Lxde
    } else if found.pantheon {
        Backend::Pantheon
    } else if found.mate {
        Backend::Mate
    } else if found.kde {
        Backend::Kde
    } else if found.xfce {
        Backend::Xfce
    } else if !requested || found.feh {
        Backend::Feh
    } else {
        Backend::Custom
    }
}

/// Picks the backend: the requested one where there is a request, else the
/// one of the desktop that the session reports.
pub fn choose_backend(desktop: Option<&str>, backend: Option<&str>) -> (kind: Backend)
    ensures
        kind == chosen(
            table_matches(effective_name(text_of(desktop), text_of(backend))),
            backend is Some,
        ),
        is_ascii_chars(effective_name(text_of(desktop), text_of(backend))) ==> kind == chosen(
            plain_matches(ascii_folded(effective_name(text_of(desktop), text_of(backend)))),
            backend is Some,
        ),
{
    match backend {
        Some(name) => backend_from_matches(lookup(name), true),
        None => match desktop {
            Some(name) => backend_from_matches(lookup(name), false),
            None => backend_from_matches(lookup("Other"), false),
        },
    }
}

/// Writes the argument that names the image as a quoted `file` address.
fn quoted_uri(path: &str) -> (text: String)
    ensures
        text@ == uri_argument(path@),
{
    let mut text = String::from_str("'file://");
    text.append(path);
    text.append("'");
    text
}

/// The action that spawns a program.
fn spawn(program: String, args: Vec<String>, label: &str) -> (action: BackendAction)
    ensures
        Some(action@) == spawn_of(program@, args.deep_view(), label@),
{
    BackendAction {
        dispatch: Dispatch::Spawn(CommandLine { program, args }),
        label: String::from_str(label),
    }
}

/// The action that runs the script of a head, the image path and a tail.
fn script(head: &str, path: &str, tail: &str, label: &str) -> (action: BackendAction)
    ensures
        Some(action@) == script_of(head@ + path@ + tail@, label@),
{
    let mut text = String::from_str(head);
    text.append(path);
    text.append(tail);
    BackendAction { dispatch: Dispatch::Script(text), label: String::from_str(label) }
}

/// The arguments with which `gsettings` sets the picture of a schema.
fn settings_args(schema: &str, path: &str) -> (args: Vec<String>)
    ensures
        args.deep_view() == seq!["set"@, schema@, "picture-uri"@, uri_argument(path@)],
{
    let mut args: Vec<String> = Vec::new();
    args.push(String::from_str("set"));
    args.push(String::from_str(schema));
    args.push(String::from_str("picture-uri"));
    args.push(quoted_uri(path));
    assert(args.deep_view() =~= seq!["set"@, schema@, "picture-uri"@, uri_argument(path@)]);
    args
}

/// The arguments of a program that takes an option and the image path.
fn option_args(option: &str, path: &str) -> (args: Vec<String>)
    ensures
        args.deep_view() == seq![option@, path@],
{
    let mut args: Vec<String> = Vec::new();
    args.push(String::from_str(option));
    args.push(String::from_str(path));
    assert(args.deep_view() =~= seq![option@, path@]);
    args
}

/// Says what `kind` runs to show the image at `filepath_set`.
pub fn backend_action(kind: Backend, filepath_set: &str, name: &str, arch: &str) -> (planned:
    Result<BackendAction, Errors>)
    ensures
        match planned {
            Ok(action) => Some(action@) == action_of(kind, filepath_set@, name@, arch@),
            Err(error) => action_of(kind, filepath_set@, name@, arch@) is None && error@
                == ErrorsView::BackendNotFoundError(name@),
        },
{
    match kind {
        Backend::Gnome => Ok(
            spawn(
                String::from_str("gsettings"),
                settings_args("org.gnome.desktop.background", filepath_set),
                "Gnome Wallpaper Adjuster",
            ),
        ),
        Backend::Lxde => Ok(
            spawn(
                String::from_str("pcmanfm"),
                option_args("--set-wallpaper", filepath_set),
                "LXDE Wallpaper Adjuster",
            ),
        ),
        Backend::Pantheon => {
            let mut program = String::from_str("/usr/lib/");
            program.append(arch);
            program.append("-linux-gnu/");
            program.append("io.elementary.contract.set-wallpaper");
            let mut args: Vec<String> = Vec::new();
            args.push(String::from_str(filepath_set));
            assert(args.deep_view() =~= seq![filepath_set@]);
            Ok(spawn(program, args, "Pantheon Wallpaper Adjuster"))
        },
        Backend::Mate => Ok(
            spawn(
                String::from_str("gsettings set org.mate.background picture-filename"),
                settings_args("org.mate.background", filepath_set),
                "Mate Wallpaper Adjuster",
            ),
        ),
        Backend::Kde => Ok(
            script(KDE_SCRIPT_HEAD, filepath_set, KDE_SCRIPT_TAIL, "KDE Wallpaper Adjuster"),
        ),
        Backend::Xfce => Ok(
            script(XFCE_SCRIPT_HEAD, filepath_set, XFCE_SCRIPT_TAIL, "XFCE Wallpaper Adjuster"),
        ),
        Backend::Feh => Ok(
            spawn(String::from_str("feh"), option_args("--bg-scale", filepath_set), "Feh"),
        ),
        Backend::Custom => match expand_command(name, filepath_set) {
            Some(line) => Ok(
                BackendAction { dispatch: Dispatch::Spawn(line), label: String::from_str(name) },
            ),
            None => Err(Errors::BackendNotFoundError(String::from_str(name))),
        },
    }
}

/// Says what is run to show the image at `filepath_set`, for the backend that
/// `backend` requests or, without a request, for the desktop of the session.
pub fn de_command(
    filepath_set: &str,
    backend: Option<&str>,
    desktop: Option<&str>,
    arch: &str,
) -> (planned: Result<BackendAction, Errors>)
    ensures
        ({
            let name = effective_name(text_of(desktop), text_of(backend));
            let kind = chosen(table_matches(name), backend is Some);
            match planned {
                Ok(action) => Some(action@) == action_of(kind, filepath_set@, name, arch@),
                Err(error) => action_of(kind, filepath_set@, name, arch@) is None && error@
                    == ErrorsView::BackendNotFoundError(name),
            }
        }),
{
    let kind = choose_backend(desktop, backend);
    let name = match backend {
        Some(name) => name,
        None => match desktop {
            Some(name) => name,
            None => "Other",
        },
    };
    backend_action(kind, filepath_set, name, arch)
}

} // verus!
