//! Command templates: a program with arguments, in which the token `!WALL`
//! stands for the path of the chosen image.

use crate::text::{split_words, words};
use vstd::prelude::*;

verus! {

/// A program and the arguments that it is started with.
#[derive(Debug)]
pub struct CommandLine {
    pub program: String,
    pub args: Vec<String>,
}

/// The mathematical value of a `CommandLine`.
pub struct CommandLineView {
    pub program: Seq<char>,
    pub args: Seq<Seq<char>>,
}

impl View for CommandLine {
    type V = CommandLineView;

    open spec fn view(&self) -> CommandLineView {
        CommandLineView { program: self.program@, args: self.args.deep_view() }
    }
}

/// The word of a template that the image path replaces.
pub open spec fn wall_token() -> Seq<char> {
    "!WALL"@
}

/// `args` with every occurrence of the token replaced by `path`.
pub open spec fn placed_args(args: Seq<Seq<char>>, path: Seq<char>) -> Seq<Seq<char>> {
    args.map_values(
        |word: Seq<char>|
            if word == wall_token() {
                path
            } else {
                word
            },
    )
}

/// The command that the words of a template give for `path`: the first word
/// is the program; among the others the token is replaced by `path`; where
/// none of them is the token, `path` is the last argument.
pub open spec fn expanded(template_words: Seq<Seq<char>>, path: Seq<char>) -> CommandLineView
    recommends
        template_words.len() > 0,
{
    let rest = template_words.skip(1);
    CommandLineView {
        program: template_words[0],
        args: if rest.contains(wall_token()) {
            placed_args(rest, path)
        } else {
            placed_args(rest, path).push(path)
        },
    }
}

/// The command that a template gives for `path`; none where the template
/// holds no word.
pub open spec fn command_of(template: Seq<char>, path: Seq<char>) -> Option<CommandLineView> {
    if words(template).len() == 0 {
        None
    } else {
        Some(expanded(words(template), path))
    }
}

/// Builds the command of a template that is already split into words.
pub fn expand_words(template_words: &Vec<String>, path: &str) -> (command: CommandLine)
    requires
        template_words.len() > 0,
    ensures
        command@ == expanded(template_words.deep_view(), path@),
{
    let token = String::from_str("!WALL");
    let program = template_words[0].clone();
    let mut args: Vec<String> = Vec::new();
    let mut wall_sent = false;
    let ghost rest = template_words.deep_view().skip(1);
    let mut i: usize = 1;
    while i < template_words.len()
        invariant
            1 <= i <= template_words.len(),
            token@ == wall_token(),
            rest == template_words.deep_view().skip(1),
            args.deep_view() == placed_args(rest.take(i - 1), path@),
            wall_sent == rest.take(i - 1).contains(wall_token()),
        decreases template_words.len() - i,
    {
        let ghost before = args.deep_view();
        let ghost word = template_words[i as int]@;
        assert(rest[i - 1] == word);
        assert(rest.take(i as int) =~= rest.take(i - 1).push(word));
        if template_words[i] == token {
            args.push(String::from_str(path));
            wall_sent = true;
            assert(rest.take(i as int)[i - 1] == wall_token());
        } else {
            args.push(template_words[i].clone());
            assert forall|j: int| 0 <= j < i implies rest.take(i as int)[j] != wall_token()
                || rest.take(i - 1).contains(wall_token()) by {
                if j < i - 1 {
                    assert(rest.take(i - 1)[j] == rest.take(i as int)[j]);
                }
            }
        }
        assert(args.deep_view() =~= before.push(args[i - 1]@));
        assert(args.deep_view() =~= placed_args(rest.take(i as int), path@));
        i += 1;
    }
    assert(rest.take(i - 1) =~= rest);
    if !wall_sent {
        let ghost before = args.deep_view();
        args.push(String::from_str(path));
        assert(args.deep_view() =~= before.push(path@));
    }
    CommandLine { program, args }
}

/// Builds the command that `template` gives for the image at `path`.
pub fn expand_command(template: &str, path: &str) -> (command: Option<CommandLine>)
    ensures
        command is Some == (words(template@).len() > 0),
        match command {
            Some(line) => Some(line@) == command_of(template@, path@),
            None => command_of(template@, path@) is None,
        },
{
    let template_words = split_words(template);
    assert(template_words.deep_view().len() == template_words.len());
    if template_words.len() == 0 {
        None
    } else {
        Some(expand_words(&template_words, path))
    }
}

/// Whatever the template, the path is among the arguments of its command.
pub proof fn lemma_path_is_passed(template_words: Seq<Seq<char>>, path: Seq<char>)
    requires
        template_words.len() > 0,
    ensures
        expanded(template_words, path).args.contains(path),
        !template_words.skip(1).contains(wall_token()) ==> expanded(template_words, path).args.last()
            == path,
        !template_words.skip(1).contains(wall_token()) ==> expanded(
            template_words,
            path,
        ).args.drop_last() == template_words.skip(1),
{
    let rest = template_words.skip(1);
    let args = expanded(template_words, path).args;
    if rest.contains(wall_token()) {
        let i = choose|i: int| 0 <= i < rest.len() && rest[i] == wall_token();
        assert(args[i] == path);
    } else {
        assert(args[rest.len() as int] == path);
        assert(args.drop_last() =~= rest);
    }
}

} // verus!
