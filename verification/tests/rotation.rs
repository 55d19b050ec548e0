use dyn_wall::errors::Errors;
use dyn_wall::rotation::{last_shown, update_wallpaper_days, visited_entries};

fn strings(texts: &[&str]) -> Vec<String> {
    texts.iter().map(|text| text.to_string()).collect()
}

fn rotate(images: &[&str], visited: &[&str]) -> (String, bool) {
    let step = update_wallpaper_days("walls", &strings(images), &strings(visited)).unwrap();
    (step.image, step.restarted)
}

#[test]
fn the_one_image_that_was_not_shown_is_next() {
    let images = ["/w/1.png", "/w/2.png", "/w/3.png", "/w/10.png"];
    assert_eq!(
        rotate(&images, &["/w/1.png", "/w/2.png", "/w/10.png"]),
        (String::from("/w/3.png"), false)
    );
    assert_eq!(
        rotate(&images, &["/w/10.png", "/w/3.png", "/w/2.png"]),
        (String::from("/w/1.png"), false)
    );
    assert_eq!(
        rotate(&images, &["/w/1.png", "/w/2.png", "/w/3.png"]),
        (String::from("/w/10.png"), false)
    );
}

#[test]
fn when_all_were_shown_the_first_image_starts_again() {
    let images = ["/w/1.png", "/w/2.png", "/w/3.png"];
    assert_eq!(
        rotate(&images, &["/w/1.png", "/w/2.png", "/w/3.png"]),
        (String::from("/w/1.png"), true)
    );
    assert_eq!(
        rotate(&images, &["/w/3.png", "/w/3.png", "/w/2.png", "/w/1.png", "/old.png"]),
        (String::from("/w/1.png"), true)
    );
}

#[test]
fn an_empty_log_shows_the_first_image() {
    assert_eq!(rotate(&["/w/1.png", "/w/2.png"], &[]), (String::from("/w/1.png"), false));
    assert_eq!(rotate(&["/w/1.png", "/w/2.png"], &[""]), (String::from("/w/1.png"), false));
}

#[test]
fn the_first_of_several_images_that_were_not_shown_is_next() {
    let images = ["a", "b", "c", "d"];
    assert_eq!(rotate(&images, &["a", "c"]), (String::from("b"), false));
    assert_eq!(rotate(&images, &["b", "d"]), (String::from("a"), false));
}

#[test]
fn rotations_go_through_the_images_in_order_and_start_again() {
    let images = strings(&["a", "b", "c"]);
    let mut log: Vec<String> = Vec::new();
    let mut shown: Vec<String> = Vec::new();
    for _ in 0..7 {
        let step = update_wallpaper_days("walls", &images, &log).unwrap();
        assert_eq!(step.restarted, !log.is_empty() && step.image == "a");
        log = step.log;
        shown.push(step.image);
    }
    assert_eq!(shown, strings(&["a", "b", "c", "a", "b", "c", "a"]));
    assert_eq!(log, strings(&["a"]));
}

#[test]
fn the_log_gains_the_image_that_is_shown() {
    let images = strings(&["a", "b", "c"]);
    let grown = update_wallpaper_days("walls", &images, &strings(&["c", "x", "a"])).unwrap();
    assert_eq!(grown.log, strings(&["c", "x", "a", "b"]));
    let first = update_wallpaper_days("walls", &images, &strings(&[""])).unwrap();
    assert_eq!(first.log, strings(&["", "a"]));
}

#[test]
fn the_log_starts_again_with_the_first_image() {
    let images = strings(&["a", "b", "c"]);
    let again = update_wallpaper_days("walls", &images, &strings(&["c", "b", "x", "a"])).unwrap();
    assert_eq!(again.log, strings(&["a"]));
    assert!(again.restarted);
}

#[test]
fn a_directory_without_images_finds_no_files() {
    let none = update_wallpaper_days("walls", &[].to_vec(), &strings(&["a"]));
    assert_eq!(none.unwrap_err(), Errors::NoFilesFoundError(String::from("walls")));
}

#[test]
fn the_log_holds_a_path_on_each_line() {
    assert_eq!(visited_entries("/w/1.png\n/w/2.png\n"), strings(&["/w/1.png", "/w/2.png"]));
    assert_eq!(visited_entries("/w/1.png"), strings(&["/w/1.png"]));
    assert_eq!(visited_entries("\n\n  /w/1.png\n\n/w/2.png \n\t"), strings(&["/w/1.png", "", "/w/2.png"]));
    assert_eq!(visited_entries("a b\r\nc"), strings(&["a b\r", "c"]));
}

#[test]
fn an_empty_log_file_holds_one_empty_entry() {
    assert_eq!(visited_entries(""), strings(&[""]));
    assert_eq!(visited_entries(" \n \u{3000}\n"), strings(&[""]));
}

#[test]
fn the_last_entry_of_the_log_was_shown_last() {
    assert_eq!(last_shown(&strings(&["a", "b", "c"])).as_deref(), Some("c"));
    assert_eq!(last_shown(&visited_entries("/w/1.png\n/w/2.png\n")).as_deref(), Some("/w/2.png"));
    assert_eq!(last_shown(&visited_entries("")).as_deref(), Some(""));
    assert_eq!(last_shown(&Vec::new()), None);
}
