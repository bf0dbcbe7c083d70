//! The navigator: command semantics against the session record and the
//! slide deck.
//!
//! Every command runs as a fresh process: it reads the session record and
//! the repository state, decides, and exits. A [`Cmd`] is that one run's
//! view of the world — the stored record line, if the record file exists,
//! and the deck once it has been built. The decisions are pure; the caller
//! performs the checkouts, stashes and file writes the plans ask for, and
//! hands their results back in.

use vstd::prelude::*;
use vstd::pervasive::unreached;
use vstd::string::StringExecFns;

use crate::deck::Commit;
use crate::deck::deck_matches;
use crate::deck::find_index_s;
use crate::deck::find_index;
use crate::deck::parse_history;
use crate::deck::parse_history_s;
use crate::messages::CmdError;
use crate::present::deck_renderable;
use crate::present::lines_match;
use crate::present::list_lines;
use crate::present::list_lines_s;
use crate::present::status_lines;
use crate::present::status_lines_s;
use crate::session::format_record;
use crate::session::parse_record;
use crate::session::parse_record_s;
use crate::session::record_line_s;

verus! {

/// What `start` decides: the record line to store and the commit the
/// presentation will end at.
#[derive(Debug)]
pub struct StartPlan {
    /// The line to write as the new session record, replacing any prior one.
    pub record_line: String,
    /// The resolved target commit: the deck is the first-parent chain ending
    /// here, and the command then jumps to its first slide.
    pub target_commit: String,
}

/// What `stop` decides: where to send the checkout that restores the
/// starting point.
#[derive(Debug)]
pub struct StopPlan {
    /// The branch name recorded at `start`, or, when none was recorded, the
    /// exact commit the session started from.
    pub checkout_target: String,
    /// True when `checkout_target` is a branch name.
    pub back_to_branch: bool,
}

/// Where `stop` sends the checkout, given the parsed record: the origin
/// branch when one was recorded, else the target commit itself (the session
/// started from a detached position).
pub open spec fn stop_target_s(p: (Seq<char>, Seq<char>)) -> Seq<char> {
    if p.0.len() > 0 {
        p.0
    } else {
        p.1
    }
}

/// What `go(n)` selects in a deck of length `len`: the 0-based index of the
/// requested slide when `1 <= n <= len`, nothing otherwise.
pub open spec fn go_result_s(len: int, n: int) -> Option<int> {
    if 1 <= n <= len {
        Some(n - 1)
    } else {
        None
    }
}

/// The 1-based slide `next` aims at from 0-based position `k`:
/// `min(k + 1 + offset, len)`.
pub open spec fn next_target_s(k: int, offset: int, len: int) -> int {
    if k + 1 + offset <= len {
        k + 1 + offset
    } else {
        len
    }
}

/// Whether `next` owes the end notice: the unclamped target would pass the
/// last slide.
pub open spec fn next_notice_s(k: int, offset: int, len: int) -> bool {
    k + 1 + offset > len
}

/// The 1-based slide `previous` aims at from 0-based position `k`:
/// `max(k + 1 - offset, 1)`.
pub open spec fn previous_target_s(k: int, offset: int) -> int {
    if k + 1 - offset >= 1 {
        k + 1 - offset
    } else {
        1
    }
}

/// Whether `previous` owes the start notice: the target lands on or before
/// the first slide.
pub open spec fn previous_notice_s(k: int, offset: int) -> bool {
    k + 1 - offset <= 1
}

/// One command run's view of the world.
pub struct Cmd {
    /// The stored session line, when the record file exists; `None` is the
    /// "no session" state.
    pub record: Option<String>,
    /// The deck, once built for this run. Built at most once per process:
    /// listing the history is expensive.
    pub history: Option<Vec<Commit>>,
}

impl Cmd {
    /// The deck of this run.
    pub open spec fn deck_s(self) -> Seq<Commit>
        recommends
            self.history is Some,
    {
        self.history->Some_0@
    }

    /// A fresh view: the record line as found on disk, no deck built yet.
    pub fn new(record: Option<String>) -> (c: Cmd)
        ensures
            c.record == record,
            c.history is None,
    {
        Cmd { record, history: None }
    }

    /// True iff a session is active: the record exists.
    pub fn is_presentation_started(&self) -> (r: bool)
        ensures
            r == (self.record is Some),
    {
        self.record.is_some()
    }

    /// The check every command but `start` begins with.
    pub fn ensure_presentation_is_started(&self) -> (r: Result<(), CmdError>)
        ensures
            r is Ok <==> self.record is Some,
            r matches Err(e) ==> e == CmdError::NotStarted,
    {
        if self.record.is_some() {
            Ok(())
        } else {
            Err(CmdError::NotStarted)
        }
    }

    /// Build the deck from the raw history listing — at most once per run:
    /// a deck already built is kept, whatever text is handed in now.
    pub fn get_history(&mut self, raw: &str)
        ensures
            final(self).record == old(self).record,
            final(self).history is Some,
            old(self).history is Some ==> final(self).history == old(self).history,
            old(self).history is None ==> deck_matches(final(self).deck_s(), parse_history_s(
                raw@,
            )),
    {
        if self.history.is_none() {
            self.history = Some(parse_history(raw));
        }
    }

    /// The deck built by [`Cmd::get_history`].
    pub fn deck(&self) -> (d: &Vec<Commit>)
        requires
            self.history is Some,
        ensures
            d@ == self.deck_s(),
    {
        match &self.history {
            Some(d) => d,
            None => unreached(),
        }
    }

    /// The slide hashes, in deck order.
    pub fn get_commits_hashes(&self) -> (hs: Vec<String>)
        requires
            self.history is Some,
        ensures
            hs@.len() == self.deck_s().len(),
            forall|i: int| 0 <= i < hs@.len() ==> #[trigger] hs@[i] == self.deck_s()[i].hash,
    {
        let deck = self.deck();
        let mut hs: Vec<String> = Vec::new();
        let mut i: usize = 0;
        while i < deck.len()
            invariant
                i <= deck@.len(),
                deck@ == self.deck_s(),
                hs@.len() == i,
                forall|j: int| 0 <= j < i ==> #[trigger] hs@[j] == self.deck_s()[j].hash,
            decreases deck@.len() - i,
        {
            hs.push(deck[i].hash.clone());
            i = i + 1;
        }
        hs
    }

    /// The target commit recorded at `start`: the commit the deck ends at.
    pub fn get_presentation_head_commit_hash(&self) -> (r: Result<String, CmdError>)
        ensures
            match self.record {
                None => r matches Err(e) && e == CmdError::NotStarted,
                Some(line) => match parse_record_s(line@) {
                    Some(p) => r matches Ok(h) && h@ == p.1,
                    None => r matches Err(e) && e == CmdError::StoreReadFailed,
                },
            },
    {
        match &self.record {
            None => Err(CmdError::NotStarted),
            Some(line) => match parse_record(line.as_str()) {
                Some(rec) => Ok(rec.target_commit),
                None => Err(CmdError::StoreReadFailed),
            },
        }
    }

    /// The branch recorded at `start`; `Ok(None)` when the session started
    /// from a detached position.
    pub fn get_initial_branch(&self) -> (r: Result<Option<String>, CmdError>)
        ensures
            match self.record {
                None => r matches Err(e) && e == CmdError::NotStarted,
                Some(line) => match parse_record_s(line@) {
                    Some(p) => r matches Ok(b) && match b {
                        Some(name) => p.0.len() > 0 && name@ == p.0,
                        None => p.0.len() == 0,
                    },
                    None => r matches Err(e) && e == CmdError::StoreReadFailed,
                },
            },
    {
        match &self.record {
            None => Err(CmdError::NotStarted),
            Some(line) => match parse_record(line.as_str()) {
                Some(rec) => Ok(rec.origin_branch),
                None => Err(CmdError::StoreReadFailed),
            },
        }
    }

    /// 0-based index of the slide whose hash is the current commit hash;
    /// `None` when there is no current commit or it is not in the deck
    /// (the user checked out a commit outside the presentation, or rewrote
    /// history).
    pub fn get_index_of_current_commit_checked(&self, current: Option<&String>) -> (r: Option<
        usize,
    >)
        requires
            self.history is Some,
        ensures
            current is None ==> r is None,
            current matches Some(h) ==> match r {
                Some(i) => i < self.deck_s().len() && find_index_s(self.deck_s(), h@) == Some(
                    i as int,
                ),
                None => find_index_s(self.deck_s(), h@) is None,
            },
    {
        match current {
            None => None,
            Some(h) => find_index(self.deck(), h.as_str()),
        }
    }

    /// Decide `start` from the world snapshot: `clean` is the working-tree
    /// check, `ref_` the ref the user gave, if any, `resolved` what the ref
    /// (or, without one, the current head) resolved to, and `branch` the
    /// current branch, if any. A dirty tree is rejected first; an
    /// unresolvable input is rejected next; otherwise the plan carries the
    /// record line and the target commit, and the caller jumps to slide 1.
    pub fn start(clean: bool, ref_: Option<String>, resolved: Option<String>, branch: Option<
        String,
    >) -> (r: Result<StartPlan, CmdError>)
        ensures
            !clean ==> (r matches Err(e) && e == CmdError::DirtyWorkingDirectory),
            clean ==> match resolved {
                Some(h) => r matches Ok(p) && p.target_commit == h && p.record_line@
                    == record_line_s(
                    match branch {
                        Some(b) => b@,
                        None => Seq::<char>::empty(),
                    },
                    h@,
                ),
                None => match ref_ {
                    Some(rf) => r matches Err(e) && e == CmdError::BadRef(rf),
                    None => r matches Err(e) && e == CmdError::NoHeadCommit,
                },
            },
    {
        if !clean {
            return Err(CmdError::DirtyWorkingDirectory);
        }
        match resolved {
            Some(h) => {
                let b = match branch {
                    Some(b) => b,
                    None => String::new(),
                };
                let record_line = format_record(b.as_str(), h.as_str());
                Ok(StartPlan { record_line, target_commit: h })
            },
            None => match ref_ {
                Some(rf) => Err(CmdError::BadRef(rf)),
                None => Err(CmdError::NoHeadCommit),
            },
        }
    }

    /// Decide `stop` from the record: restore the origin branch when one was
    /// recorded, else check out the commit the session started from. The
    /// caller stashes first, checks out, and deletes the record afterwards
    /// whether or not the checkout succeeded.
    pub fn stop(&self) -> (r: Result<StopPlan, CmdError>)
        ensures
            match self.record {
                None => r matches Err(e) && e == CmdError::NotStarted,
                Some(line) => match parse_record_s(line@) {
                    Some(p) => r matches Ok(plan) && plan.checkout_target@ == stop_target_s(p)
                        && plan.back_to_branch == (p.0.len() > 0),
                    None => r matches Err(e) && e == CmdError::StoreReadFailed,
                },
            },
    {
        match &self.record {
            None => Err(CmdError::NotStarted),
            Some(line) => match parse_record(line.as_str()) {
                Some(rec) => match rec.origin_branch {
                    Some(name) => Ok(
                        StopPlan { checkout_target: name, back_to_branch: true },
                    ),
                    None => Ok(
                        StopPlan { checkout_target: rec.target_commit, back_to_branch: false },
                    ),
                },
                None => Err(CmdError::StoreReadFailed),
            },
        }
    }

    /// Decide `go`: the hash of slide `n` (1-based) when `1 <= n <= L`, the
    /// out-of-range error, naming `n` and the valid range, otherwise. The
    /// caller stashes if needed, checks out the hash, and shows status.
    pub fn go(&self, n: usize) -> (r: Result<&String, CmdError>)
        requires
            self.history is Some,
        ensures
            match go_result_s(self.deck_s().len() as int, n as int) {
                Some(i) => r matches Ok(h) && h@ == self.deck_s()[i].hash@,
                None => r matches Err(e) && e matches CmdError::BadSlideIndex(bn, bl) && bn == n
                    && bl == self.deck_s().len(),
            },
    {
        let deck = self.deck();
        let len = deck.len();
        if n < 1 || n > len {
            Err(CmdError::BadSlideIndex(n, len))
        } else {
            Ok(&deck[n - 1].hash)
        }
    }

    /// Decide `next`: from current position `k` (0-based) the 1-based target
    /// is `min(k + 1 + offset, L)`, and the end notice is due exactly when
    /// the unclamped target would pass the last slide. The caller prints the
    /// notice if due and delegates to `go`.
    pub fn next(&self, current: Option<&String>, offset: usize) -> (r: Result<(usize, bool),
        CmdError>)
        requires
            self.history is Some,
        ensures
            match current {
                None => r matches Err(e) && e == CmdError::NotInPresentation,
                Some(h) => match find_index_s(self.deck_s(), h@) {
                    Some(k) => r matches Ok(p) && p.0 == next_target_s(k, offset as int,
                        self.deck_s().len() as int) && p.1 == next_notice_s(k, offset as int,
                        self.deck_s().len() as int),
                    None => r matches Err(e) && e == CmdError::NotInPresentation,
                },
            },
    {
        let idx = match self.get_index_of_current_commit_checked(current) {
            Some(i) => i,
            None => {
                return Err(CmdError::NotInPresentation);
            },
        };
        let len = self.deck().len();
        match (idx + 1).checked_add(offset) {
            Some(unclamped) => Ok(
                (if unclamped <= len { unclamped } else { len }, unclamped > len),
            ),
            None => Ok((len, true)),
        }
    }

    /// Decide `previous`: from current position `k` (0-based) the 1-based
    /// target is `max(k + 1 - offset, 1)`, never below the first slide, and
    /// the start notice is due exactly when the target lands on or before
    /// slide 1. The caller prints the notice if due and delegates to `go`.
    pub fn previous(&self, current: Option<&String>, offset: usize) -> (r: Result<(usize, bool),
        CmdError>)
        requires
            self.history is Some,
        ensures
            match current {
                None => r matches Err(e) && e == CmdError::NotInPresentation,
                Some(h) => match find_index_s(self.deck_s(), h@) {
                    Some(k) => r matches Ok(p) && p.0 == previous_target_s(k, offset as int)
                        && p.1 == previous_notice_s(k, offset as int),
                    None => r matches Err(e) && e == CmdError::NotInPresentation,
                },
            },
    {
        let idx = match self.get_index_of_current_commit_checked(current) {
            Some(i) => i,
            None => {
                return Err(CmdError::NotInPresentation);
            },
        };
        // The deck length bounds the index, so `idx + 1` cannot overflow.
        let deck_len: usize = self.deck().len();
        proof {
            assert(idx < deck_len);
        }
        let target = if idx > offset { idx + 1 - offset } else { 1 };
        Ok((target, idx <= offset))
    }

    /// Decide `status`: the window of lines around the current slide.
    pub fn status(&self, current: Option<&String>) -> (r: Result<Vec<String>, CmdError>)
        requires
            self.history is Some,
            deck_renderable(self.deck_s()),
        ensures
            match current {
                None => r matches Err(e) && e == CmdError::NotInPresentation,
                Some(h) => match find_index_s(self.deck_s(), h@) {
                    Some(k) => r matches Ok(lines) && lines_match(lines@, status_lines_s(
                        self.deck_s(),
                        k,
                    )),
                    None => r matches Err(e) && e == CmdError::NotInPresentation,
                },
            },
    {
        match self.get_index_of_current_commit_checked(current) {
            Some(i) => Ok(status_lines(self.deck(), i)),
            None => Err(CmdError::NotInPresentation),
        }
    }

    /// Decide `list`: one line per slide over the whole deck.
    pub fn list(&self, current: Option<&String>) -> (r: Result<Vec<String>, CmdError>)
        requires
            self.history is Some,
            deck_renderable(self.deck_s()),
        ensures
            match current {
                None => r matches Err(e) && e == CmdError::NotInPresentation,
                Some(h) => match find_index_s(self.deck_s(), h@) {
                    Some(k) => r matches Ok(lines) && lines_match(lines@, list_lines_s(
                        self.deck_s(),
                        k,
                    )),
                    None => r matches Err(e) && e == CmdError::NotInPresentation,
                },
            },
    {
        match self.get_index_of_current_commit_checked(current) {
            Some(i) => Ok(list_lines(self.deck(), i)),
            None => Err(CmdError::NotInPresentation),
        }
    }
}

} // verus!
