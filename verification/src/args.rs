//! The arguments of a dependency, as a list of words.
//!
//! Arguments that are given as one command line are split into words by
//! `shell_words`, as a Unix shell would split them.

use crate::collections::strs;
use crate::error::{ErrorView, TasksExpanderError};
use crate::task::{ArgsView, TaskArgs};
use crate::text::clone_strings;
use vstd::prelude::*;

verus! {

/// The error of the command-line splitter; it carries nothing.
#[verifier::external_type_specification]
#[verifier::external_body]
pub struct ExSplitError(shell_words::ParseError);

/// The words that a command line splits into by the rules of a Unix shell
/// (quotes and backslashes removed, no expansion), or nothing where the line
/// cannot be split.
pub uninterp spec fn shell_split(line: Seq<char>) -> Option<Seq<Seq<char>>>;

/// `shell_words::split`: the words of the line, or an error where a quote is
/// left open. The result depends on the line alone.
#[verifier::external_body]
fn split_words(line: &str) -> (r: Result<Vec<String>, shell_words::ParseError>)
    ensures
        match r {
            Ok(words) => shell_split(line@) == Some(strs(words@)),
            Err(_) => shell_split(line@) is None,
        },
{
    shell_words::split(line)
}

/// The words that arguments stand for.
pub open spec fn args_words(args: ArgsView) -> Result<Seq<Seq<char>>, ErrorView> {
    match args {
        ArgsView::NoArgs => Ok(Seq::empty()),
        ArgsView::String(line) => match shell_split(line) {
            Some(words) => Ok(words),
            None => Err(ErrorView::InvalidArgs { args: line }),
        },
        ArgsView::List(words) => Ok(words),
    }
}

/// The arguments as a list of words: a command line is split as a shell would
/// split it, a list is taken as it is.
pub fn parse_task_args(args: &TaskArgs) -> (r: Result<Vec<String>, TasksExpanderError>)
    ensures
        match r {
            Ok(words) => args_words(args@) == Ok::<Seq<Seq<char>>, ErrorView>(strs(words@)),
            Err(e) => args_words(args@) == Err::<Seq<Seq<char>>, ErrorView>(e@),
        },
{
    match args {
        TaskArgs::NoArgs => {
            let words: Vec<String> = Vec::new();
            assert(strs(words@) =~= Seq::empty());
            Ok(words)
        },
        TaskArgs::String(line) => match split_words(line.as_str()) {
            Ok(words) => Ok(words),
            Err(_) => Err(TasksExpanderError::InvalidArgs { args: line.clone() }),
        },
        TaskArgs::List(words) => Ok(clone_strings(words)),
    }
}

} // verus!
