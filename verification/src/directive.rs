//! From the two directives of a command to what is read, what is done and
//! where the result goes.

use crate::error::UsageError;
use vstd::prelude::*;

verus! {

/// The name of the file that file-backed runs write, in the working directory.
pub const OUTPUT_FILE: &'static str = "output.txt";

/// Which of a cipher's two operations runs.
#[derive(Clone, Copy, Debug, PartialEq, Eq, Structural)]
pub enum Direction {
    Encrypt,
    Decrypt,
}

/// Where the result of a run goes.
#[derive(Clone, Copy, Debug, PartialEq, Eq, Structural)]
pub enum Sink {
    /// The file named [`OUTPUT_FILE`], overwritten with the result.
    OutputFile,
    /// Standard output, the result followed by a line feed.
    Stdout,
}

/// Where the text of a run comes from.
#[derive(Clone, Debug, PartialEq, Eq)]
pub enum Source {
    /// The whole content of the file at this path.
    File(String),
    /// Standard input, read to its end.
    Stdin,
}

/// A [`Source`] with its path as a sequence of characters.
pub enum SourceView {
    File(Seq<char>),
    Stdin,
}

impl View for Source {
    type V = SourceView;

    open spec fn view(&self) -> SourceView {
        match self {
            Source::File(path) => SourceView::File(path@),
            Source::Stdin => SourceView::Stdin,
        }
    }
}

/// What a command asks for once its directives are resolved.
#[derive(Clone, Debug, PartialEq, Eq)]
pub struct Plan {
    pub direction: Direction,
    pub source: Source,
    pub sink: Sink,
}

/// A [`Plan`] with its source viewed.
pub struct PlanView {
    pub direction: Direction,
    pub source: SourceView,
    pub sink: Sink,
}

impl View for Plan {
    type V = PlanView;

    open spec fn view(&self) -> PlanView {
        PlanView { direction: self.direction, source: self.source@, sink: self.sink }
    }
}

/// A directive as the sequence of characters of its path, if it was given.
pub open spec fn directive_view(flag: Option<String>) -> Option<Seq<char>> {
    match flag {
        Some(path) => Some(path@),
        None => None,
    }
}

/// The plan that two directives stand for.
///
/// Both given is a conflict. One given reads that file, runs that operation
/// and writes the output file. None given encrypts standard input to standard
/// output.
pub open spec fn planned(encrypt: Option<Seq<char>>, decrypt: Option<Seq<char>>) -> Result<
    PlanView,
    UsageError,
> {
    match (encrypt, decrypt) {
        (Some(_), Some(_)) => Err(UsageError::ConflictingDirectives),
        (Some(path), None) => Ok(
            PlanView {
                direction: Direction::Encrypt,
                source: SourceView::File(path),
                sink: Sink::OutputFile,
            },
        ),
        (None, Some(path)) => Ok(
            PlanView {
                direction: Direction::Decrypt,
                source: SourceView::File(path),
                sink: Sink::OutputFile,
            },
        ),
        (None, None) => Ok(
            PlanView {
                direction: Direction::Encrypt,
                source: SourceView::Stdin,
                sink: Sink::Stdout,
            },
        ),
    }
}

/// A resolved plan, or the usage error, with the plan viewed.
pub open spec fn plan_view(r: Result<Plan, UsageError>) -> Result<PlanView, UsageError> {
    match r {
        Ok(plan) => Ok(plan@),
        Err(e) => Err(e),
    }
}

/// Resolves the two directives of a command into a plan.
pub fn resolve(encrypt_flag: &Option<String>, decrypt_flag: &Option<String>) -> (r: Result<
    Plan,
    UsageError,
>)
    ensures
        plan_view(r) == planned(directive_view(*encrypt_flag), directive_view(*decrypt_flag)),
{
    match (encrypt_flag, decrypt_flag) {
        (Some(_), Some(_)) => Err(UsageError::ConflictingDirectives),
        (Some(path), None) => Ok(
            Plan {
                direction: Direction::Encrypt,
                source: Source::File(path.clone()),
                sink: Sink::OutputFile,
            },
        ),
        (None, Some(path)) => Ok(
            Plan {
                direction: Direction::Decrypt,
                source: Source::File(path.clone()),
                sink: Sink::OutputFile,
            },
        ),
        (None, None) => Ok(
            Plan { direction: Direction::Encrypt, source: Source::Stdin, sink: Sink::Stdout },
        ),
    }
}

} // verus!
