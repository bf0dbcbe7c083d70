//! Every failure a command can report, and the exact text the user sees.
//! All failures here are operational errors: the caller reports the message
//! and exits with a non-zero status, having mutated nothing beyond what the
//! message describes.

use vstd::prelude::*;
use vstd::string::StringExecFns;

use crate::text::dec_rep;
use crate::text::to_dec;

verus! {

/// A command failure.
#[derive(Debug)]
pub enum CmdError {
    /// A command other than `start` ran without an active session.
    NotStarted,
    /// `start` ran while tracked files carry uncommitted changes.
    DirtyWorkingDirectory,
    /// The ref given to `start` did not resolve to a commit; carries the
    /// offending input.
    BadRef(String),
    /// `start` ran without a ref and the current head resolves to no commit.
    NoHeadCommit,
    /// `go` was asked for a slide outside the deck; carries the requested
    /// number and the deck length.
    BadSlideIndex(usize, usize),
    /// The current commit is not a slide of the deck.
    NotInPresentation,
    /// A checkout did not complete; carries the hash that was requested.
    CheckoutFailed(String),
    /// The session record exists but cannot be read back.
    StoreReadFailed,
    /// The session record could not be written.
    StoreWriteFailed,
    /// The session record could not be removed.
    StoreRemoveFailed,
}

/// The message reported for each failure.
pub open spec fn message_s(e: CmdError) -> Seq<char> {
    match e {
        CmdError::NotStarted => "You need to start by 'git slides start'."@,
        CmdError::DirtyWorkingDirectory => "error: Working directory contains uncommitted changes."@,
        CmdError::BadRef(r) => "error: Bad ref input: '"@ + r@ + "'."@,
        CmdError::NoHeadCommit => "error: No HEAD commit. Please provide a valid ref."@,
        CmdError::BadSlideIndex(n, len) => "error: Bad slide index. Slide "@ + dec_rep(n as nat)
            + " does not exist.\nPossible values range from 1 to "@ + dec_rep(len as nat) + "."@,
        CmdError::NotInPresentation => "error: Current HEAD not part of presentation."@,
        CmdError::CheckoutFailed(h) => "error: Could not checkout "@ + h@ + "."@,
        CmdError::StoreReadFailed => "error: Cannot read '.git/git-slides'. Aborting."@,
        CmdError::StoreWriteFailed => "error: Cannot write '.git/git-slides'. Aborting."@,
        CmdError::StoreRemoveFailed => "error: Cannot remove '.git/git-slides'. Aborting."@,
    }
}

impl CmdError {
    /// Render the message the user is shown for this failure.
    pub fn message(&self) -> (r: String)
        ensures
            r@ == message_s(*self),
    {
        match self {
            CmdError::NotStarted => "You need to start by 'git slides start'.".to_owned(),
            CmdError::DirtyWorkingDirectory => {
                "error: Working directory contains uncommitted changes.".to_owned()
            },
            CmdError::BadRef(r) => {
                let mut m = "error: Bad ref input: '".to_owned();
                m.append(r.as_str());
                m.append("'.");
                m
            },
            CmdError::NoHeadCommit => {
                "error: No HEAD commit. Please provide a valid ref.".to_owned()
            },
            CmdError::BadSlideIndex(n, len) => {
                let mut m = "error: Bad slide index. Slide ".to_owned();
                m.append(to_dec(*n).as_str());
                m.append(" does not exist.\nPossible values range from 1 to ");
                m.append(to_dec(*len).as_str());
                m.append(".");
                m
            },
            CmdError::NotInPresentation => {
                "error: Current HEAD not part of presentation.".to_owned()
            },
            CmdError::CheckoutFailed(h) => {
                let mut m = "error: Could not checkout ".to_owned();
                m.append(h.as_str());
                m.append(".");
                m
            },
            CmdError::StoreReadFailed => "error: Cannot read '.git/git-slides'. Aborting.".to_owned(),
            CmdError::StoreWriteFailed => "error: Cannot write '.git/git-slides'. Aborting.".to_owned(),
            CmdError::StoreRemoveFailed => {
                "error: Cannot remove '.git/git-slides'. Aborting.".to_owned()
            },
        }
    }
}

/// What `start` prints once the session record is written.
pub open spec fn presentation_started_s(hash: Seq<char>) -> Seq<char> {
    "Presentation started at "@ + hash + "."@
}

/// Render the `start` confirmation.
pub fn presentation_started_message(hash: &str) -> (r: String)
    ensures
        r@ == presentation_started_s(hash@),
{
    let mut m = "Presentation started at ".to_owned();
    m.append(hash);
    m.append(".");
    m
}

/// Render the `stop` confirmation.
pub fn presentation_stopped_message() -> (r: String)
    ensures
        r@ == "Presentation stopped."@,
{
    "Presentation stopped.".to_owned()
}

/// What `stop` prints when it returns to the origin branch.
pub open spec fn going_back_to_branch_s(branch: Seq<char>) -> Seq<char> {
    "Going back to branch '"@ + branch + "'."@
}

/// Render the branch-restore notice of `stop`.
pub fn going_back_to_branch_message(branch: &str) -> (r: String)
    ensures
        r@ == going_back_to_branch_s(branch@),
{
    let mut m = "Going back to branch '".to_owned();
    m.append(branch);
    m.append("'.");
    m
}

/// What `stop` prints when the session started from a detached position.
pub open spec fn going_back_to_commit_s(commit: Seq<char>) -> Seq<char> {
    "Going back to commit "@ + commit + "."@
}

/// Render the commit-restore notice of `stop`.
pub fn going_back_to_commit_message(commit: &str) -> (r: String)
    ensures
        r@ == going_back_to_commit_s(commit@),
{
    let mut m = "Going back to commit ".to_owned();
    m.append(commit);
    m.append(".");
    m
}

/// Render the notice `next` prints when the unclamped target would pass the
/// last slide.
pub fn end_of_presentation_message() -> (r: String)
    ensures
        r@ == "You've reached the end of the presentation."@,
{
    "You've reached the end of the presentation.".to_owned()
}

/// Render the notice `previous` prints when the target lands on or before
/// the first slide.
pub fn start_of_presentation_message() -> (r: String)
    ensures
        r@ == "You're at the start of the presentation."@,
{
    "You're at the start of the presentation.".to_owned()
}

/// Render the notice printed when uncommitted changes were stashed away.
pub fn stashed_changes_message() -> (r: String)
    ensures
        r@ == "Stashed uncommitted changes."@,
{
    "Stashed uncommitted changes.".to_owned()
}

/// Render the warning printed when stashing failed; the surrounding command
/// still proceeds.
pub fn stash_failed_message() -> (r: String)
    ensures
        r@ == "error: Could not stash uncommitted changes."@,
{
    "error: Could not stash uncommitted changes.".to_owned()
}

} // verus!
