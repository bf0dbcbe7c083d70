//! The session record: the one piece of durable state, stored as a single
//! line `<origin_branch>:<target_commit>` plus a final line feed. The
//! origin-branch part is empty when the session was started from a detached
//! position. Presence of the record is the sole "session active" signal;
//! reading and deleting the file is the caller's business.

use vstd::prelude::*;
use vstd::string::StrSliceExecFns;
use vstd::string::StringExecFns;

use crate::text::find_char;
use crate::text::index_of;
use crate::text::is_space_char;
use crate::text::lemma_index_of;
use crate::text::trim;
use crate::text::trim_s;
use crate::text::trim_start_s;
use crate::text::lemma_trim_start_skip;
use crate::text::lemma_trim_end_take;

verus! {

/// The parsed session record.
pub struct SessionRecord {
    /// The branch the user was on when the session started; `None` when the
    /// session was started from a detached position.
    pub origin_branch: Option<String>,
    /// The commit the presentation ends at: the last slide of the deck.
    pub target_commit: String,
}

/// The stored line for a given origin branch (empty when detached) and
/// target commit.
pub open spec fn record_line_s(branch: Seq<char>, commit: Seq<char>) -> Seq<char> {
    branch + seq![':'] + commit + seq!['\n']
}

/// What parsing a stored line yields: the line is trimmed and split on its
/// first colon; a line without a colon is malformed.
pub open spec fn parse_record_s(s: Seq<char>) -> Option<(Seq<char>, Seq<char>)> {
    let t = trim_s(s);
    match index_of(t, ':') {
        Some(i) => Some((t.take(i), t.skip(i + 1))),
        None => None,
    }
}

/// The record `rec` carries the parsed parts `p`: an empty branch part reads
/// back as "no origin branch".
pub open spec fn record_matches(rec: SessionRecord, p: (Seq<char>, Seq<char>)) -> bool {
    &&& match rec.origin_branch {
        Some(b) => b@ == p.0 && p.0.len() > 0,
        None => p.0.len() == 0,
    }
    &&& rec.target_commit@ == p.1
}

/// Encode the record line that `start` writes.
pub fn format_record(branch: &str, commit: &str) -> (r: String)
    ensures
        r@ == record_line_s(branch@, commit@),
{
    let mut r = branch.to_owned();
    proof {
        reveal_strlit(":");
        reveal_strlit("\n");
    }
    r.append(":");
    r.append(commit);
    r.append("\n");
    proof {
        assert(r@ =~= record_line_s(branch@, commit@));
    }
    r
}

/// Decode a stored line; `None` when the line is malformed (no colon).
pub fn parse_record(s: &str) -> (r: Option<SessionRecord>)
    ensures
        match parse_record_s(s@) {
            Some(p) => r matches Some(rec) && record_matches(rec, p),
            None => r is None,
        },
{
    let t = trim(s);
    match find_char(t, ':') {
        Some(i) => {
            let len = t.unicode_len();
            let left = t.substring_char(0, i);
            let target_commit = t.substring_char(i + 1, len).to_owned();
            let origin_branch = if left.unicode_len() == 0 {
                None
            } else {
                Some(left.to_owned())
            };
            Some(SessionRecord { origin_branch, target_commit })
        },
        None => None,
    }
}

/// Text fit for one part of the record: no colon (the separator) and no
/// whitespace. Branch names and commit hashes are such text.
pub open spec fn record_part(s: Seq<char>) -> bool {
    forall|j: int| 0 <= j < s.len() ==> s[j] != ':' && !is_space_char(#[trigger] s[j])
}

/// A record written by `start` reads back exactly as written: trimming
/// strips only the final line feed, and the split lands on the separating
/// colon.
pub proof fn lemma_record_round_trip(branch: Seq<char>, commit: Seq<char>)
    requires
        record_part(branch),
        record_part(commit),
    ensures
        parse_record_s(record_line_s(branch, commit)) == Some((branch, commit)),
{
    let s = record_line_s(branch, commit);
    let n = s.len();
    assert(n == branch.len() + commit.len() + 2);
    assert(forall|j: int| 0 <= j < branch.len() ==> s[j] == branch[j]);
    assert(s[branch.len() as int] == ':');
    assert(forall|j: int|
        branch.len() + 1 <= j < n - 1 ==> s[j] == commit[j - branch.len() - 1]);
    assert(s[n - 1] == '\n');

    lemma_trim_start_skip(s, 0);
    assert(s.skip(0) =~= s);
    assert(trim_start_s(s) == s);

    lemma_trim_end_take(s, n - 1);
    let t = s.take(n - 1);
    assert(trim_s(s) == t);

    lemma_index_of(t, ':');
    let b = branch.len() as int;
    assert(t[b] == ':');
    assert(forall|j: int| 0 <= j < b ==> t[j] != ':');
    match index_of(t, ':') {
        Some(i) => {
            assert(i == b);
            assert(t.take(b) =~= branch);
            assert(t.skip(b + 1) =~= commit);
        },
        None => {
            assert(false);
        },
    }
}

} // verus!
