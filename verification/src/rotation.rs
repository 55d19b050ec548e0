//! Rotation by days: each image of the directory is shown in turn, and a
//! log of the images that were shown says which one comes next.

use crate::errors::{Errors, ErrorsView};
use crate::text::{fields, split_fields, trim, trimmed};
use vstd::prelude::*;

verus! {

/// The outcome of a rotation: the image to show, whether the log starts
/// again with it, and the log as it is to be kept.
#[derive(Debug)]
pub struct Rotation {
    pub image: String,
    pub restarted: bool,
    pub log: Vec<String>,
}

/// The first image at or after `from` that the log does not hold, or the
/// number of images where it holds them all.
pub open spec fn first_unseen_from(images: Seq<Seq<char>>, visited: Seq<Seq<char>>, from: int)
    -> int
    decreases images.len() - from,
{
    if from < 0 || from >= images.len() {
        images.len() as int
    } else if !visited.contains(images[from]) {
        from
    } else {
        first_unseen_from(images, visited, from + 1)
    }
}

/// The first image that the log does not hold, or the number of images.
pub open spec fn first_unseen(images: Seq<Seq<char>>, visited: Seq<Seq<char>>) -> int {
    first_unseen_from(images, visited, 0)
}

/// The image that a rotation shows: the first that the log does not hold,
/// or the first of all where it holds every image.
pub open spec fn rotation_choice(images: Seq<Seq<char>>, visited: Seq<Seq<char>>) -> int {
    if first_unseen(images, visited) < images.len() {
        first_unseen(images, visited)
    } else {
        0
    }
}

/// The log after a rotation: the chosen image is added to it, or, where it
/// held every image, is all that it holds.
pub open spec fn log_after(images: Seq<Seq<char>>, visited: Seq<Seq<char>>) -> Seq<Seq<char>>
    recommends
        images.len() > 0,
{
    if first_unseen(images, visited) < images.len() {
        visited.push(images[first_unseen(images, visited)])
    } else {
        seq![images[0]]
    }
}

/// The entries of a log file: the lines of its text, white space at its
/// head and end set aside.
pub open spec fn log_entries(contents: Seq<char>) -> Seq<Seq<char>> {
    fields(trimmed(contents), '\n')
}

/// The first unseen image is not in the log, and every image before it is.
pub proof fn lemma_first_unseen(images: Seq<Seq<char>>, visited: Seq<Seq<char>>, from: int)
    requires
        0 <= from <= images.len(),
    ensures
        from <= first_unseen_from(images, visited, from) <= images.len(),
        first_unseen_from(images, visited, from) < images.len() ==> !visited.contains(
            images[first_unseen_from(images, visited, from)],
        ),
        forall|i: int|
            from <= i < first_unseen_from(images, visited, from) ==> visited.contains(
                #[trigger] images[i],
            ),
    decreases images.len() - from,
{
    if from < images.len() && visited.contains(images[from]) {
        lemma_first_unseen(images, visited, from + 1);
    }
}

/// Tests whether the log holds `path`.
fn is_visited(visited: &Vec<String>, path: &String) -> (seen: bool)
    ensures
        seen == visited.deep_view().contains(path@),
{
    let mut i: usize = 0;
    while i < visited.len()
        invariant
            0 <= i <= visited.len(),
            forall|j: int| 0 <= j < i ==> visited.deep_view()[j] != path@,
        decreases visited.len() - i,
    {
        if visited[i] == *path {
            assert(visited.deep_view()[i as int] == path@);
            return true;
        }
        i += 1;
    }
    false
}

/// Copies a list of texts.
fn copy_of(texts: &Vec<String>) -> (copy: Vec<String>)
    ensures
        copy.deep_view() == texts.deep_view(),
{
    let mut copy: Vec<String> = Vec::new();
    let mut i: usize = 0;
    while i < texts.len()
        invariant
            0 <= i <= texts.len(),
            copy.len() == i,
            forall|j: int| 0 <= j < i ==> (#[trigger] copy[j])@ == texts[j]@,
        decreases texts.len() - i,
    {
        copy.push(texts[i].clone());
        i += 1;
    }
    assert(copy.deep_view() =~= texts.deep_view());
    copy
}

/// The image that a rotation showed last: the last entry of the log.
pub fn last_shown(visited: &Vec<String>) -> (shown: Option<String>)
    ensures
        shown is Some <==> visited.len() > 0,
        shown matches Some(image) ==> image@ == visited.deep_view().last(),
{
    if visited.len() == 0 {
        None
    } else {
        Some(visited[visited.len() - 1].clone())
    }
}

/// Reads the entries of a log file.
pub fn visited_entries(contents: &str) -> (entries: Vec<String>)
    ensures
        entries.deep_view() == log_entries(contents@),
{
    split_fields(trim(contents), '\n')
}

/// Picks the next image of the directory `dir` in a rotation by days, from
/// the sorted paths of its images and the log of those that were shown.
pub fn update_wallpaper_days(dir: &str, images: &Vec<String>, visited: &Vec<String>) -> (step:
    Result<Rotation, Errors>)
    ensures
        step is Ok <==> images.len() > 0,
        match step {
            Ok(rotation) => rotation.image@ == images.deep_view()[rotation_choice(
                images.deep_view(),
                visited.deep_view(),
            )] && rotation.restarted == (first_unseen(images.deep_view(), visited.deep_view())
                == images.len()) && rotation.log.deep_view() == log_after(
                images.deep_view(),
                visited.deep_view(),
            ),
            Err(error) => error@ == ErrorsView::NoFilesFoundError(dir@),
        },
{
    if images.len() == 0 {
        return Err(Errors::NoFilesFoundError(String::from_str(dir)));
    }
    let ghost paths = images.deep_view();
    let ghost log = visited.deep_view();
    let mut i: usize = 0;
    while i < images.len()
        invariant
            0 <= i <= images.len(),
            paths == images.deep_view(),
            log == visited.deep_view(),
            first_unseen_from(paths, log, i as int) == first_unseen(paths, log),
        decreases images.len() - i,
    {
        assert(paths[i as int] == images[i as int]@);
        if !is_visited(visited, &images[i]) {
            let mut log = copy_of(visited);
            let ghost kept = log.deep_view();
            log.push(images[i].clone());
            assert(log.deep_view() =~= kept.push(paths[i as int]));
            return Ok(Rotation { image: images[i].clone(), restarted: false, log });
        }
        i += 1;
    }
    assert(paths[0] == images[0]@);
    let mut log: Vec<String> = Vec::new();
    log.push(images[0].clone());
    assert(log.deep_view() =~= seq![paths[0]]);
    Ok(Rotation { image: images[0].clone(), restarted: true, log })
}

/// Where the log holds every image but one, a rotation shows that one and
/// keeps the log.
pub proof fn lemma_shows_the_unvisited_one(
    images: Seq<Seq<char>>,
    visited: Seq<Seq<char>>,
    k: int,
)
    requires
        0 <= k < images.len(),
        !visited.contains(images[k]),
        forall|i: int| 0 <= i < images.len() && i != k ==> visited.contains(#[trigger] images[i]),
    ensures
        rotation_choice(images, visited) == k,
        first_unseen(images, visited) < images.len(),
        log_after(images, visited) == visited.push(images[k]),
{
    lemma_first_unseen(images, visited, 0);
    let found = first_unseen(images, visited);
    if found < k {
        assert(visited.contains(images[found]));
    }
}

/// Where the log holds every image, a rotation starts again: it shows the
/// first image, and the log then holds that image alone.
pub proof fn lemma_restarts_when_all_visited(images: Seq<Seq<char>>, visited: Seq<Seq<char>>)
    requires
        images.len() > 0,
        forall|i: int| 0 <= i < images.len() ==> visited.contains(#[trigger] images[i]),
    ensures
        rotation_choice(images, visited) == 0,
        first_unseen(images, visited) == images.len(),
        log_after(images, visited) == seq![images[0]],
{
    lemma_first_unseen(images, visited, 0);
    let found = first_unseen(images, visited);
    if found < images.len() {
        assert(visited.contains(images[found]));
    }
}

/// Rotations that start from an empty log show the images in order: once
/// the log holds the first `k` of the images, all of them different, the
/// next rotation shows image `k` and the log then holds the first `k + 1`.
pub proof fn lemma_rotation_follows_order(images: Seq<Seq<char>>, k: int)
    requires
        0 <= k < images.len(),
        forall|i: int, j: int|
            0 <= i < j < images.len() ==> #[trigger] images[i] != #[trigger] images[j],
    ensures
        rotation_choice(images, images.take(k)) == k,
        log_after(images, images.take(k)) == images.take(k + 1),
{
    let visited = images.take(k);
    lemma_first_unseen(images, visited, 0);
    let found = first_unseen(images, visited);
    if visited.contains(images[k]) {
        let j = choose|j: int| 0 <= j < visited.len() && visited[j] == images[k];
        assert(images[j] != images[k]);
    }
    if found < k {
        assert(visited[found] == images[found]);
        assert(visited.contains(images[found]));
    }
    assert(found == k);
    assert(visited.push(images[k]) =~= images.take(k + 1));
}

} // verus!
