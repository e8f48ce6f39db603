//! What a command does with its answer.
use vstd::prelude::*;

verus! {

/// The outcome of a command: what it posts and whether it fails.
pub enum Reply {
    /// Post the text; the command succeeds.
    Say(String),
    /// Post the text, then fail with the same text as error.
    SayAndFail(String),
    /// Post nothing and fail with the text as error.
    Fail(String),
}

/// `r` posts `text` and succeeds.
pub open spec fn says(r: Reply, text: Seq<char>) -> bool {
    r matches Reply::Say(t) && t@ == text
}

/// `r` posts `text` and fails with it.
pub open spec fn says_and_fails(r: Reply, text: Seq<char>) -> bool {
    r matches Reply::SayAndFail(t) && t@ == text
}

/// `r` posts nothing and fails with `text`.
pub open spec fn fails(r: Reply, text: Seq<char>) -> bool {
    r matches Reply::Fail(t) && t@ == text
}

} // verus!
