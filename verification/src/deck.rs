//! The slide deck: one slide per commit of the first-parent chain that ends
//! at the session's target commit, oldest first.
//!
//! The deck is built from the raw history listing, one line per commit in the
//! form `<hash> <title>`: each line is split on its first space, and lines
//! without a space are skipped.

use vstd::prelude::*;
use vstd::string::StrSliceExecFns;

use crate::text::index_of;
use crate::text::lemma_index_of;
use crate::text::find_char;

verus! {

/// One slide: a commit hash (the full object id) and the first line of the
/// commit message.
pub struct Commit {
    pub hash: String,
    pub title: String,
}

/// Split one history line on its first space into hash and title; `None`
/// when the line has no space.
pub open spec fn parse_line_s(line: Seq<char>) -> Option<(Seq<char>, Seq<char>)> {
    match index_of(line, ' ') {
        Some(i) => Some((line.take(i), line.skip(i + 1))),
        None => None,
    }
}

/// A line with its trailing carriage return removed, if it carries one.
pub open spec fn strip_cr_s(line: Seq<char>) -> Seq<char> {
    if line.len() > 0 && line.last() == '\r' {
        line.drop_last()
    } else {
        line
    }
}

/// The (hash, title) pairs parsed from a whole history listing: the listing
/// is cut at every line feed, and every line that parses contributes one
/// slide, in the order received.
pub open spec fn parse_history_s(s: Seq<char>) -> Seq<(Seq<char>, Seq<char>)>
    decreases s.len(),
    via parse_history_s_decreases
{
    if s.len() == 0 {
        Seq::empty()
    } else {
        let cut = index_of(s, '\n');
        let line = match cut {
            Some(i) => s.take(i),
            None => s,
        };
        let rest = match cut {
            Some(i) => s.skip(i + 1),
            None => Seq::<char>::empty(),
        };
        let head = match parse_line_s(strip_cr_s(line)) {
            Some(p) => seq![p],
            None => Seq::<(Seq<char>, Seq<char>)>::empty(),
        };
        head + parse_history_s(rest)
    }
}

#[via_fn]
proof fn parse_history_s_decreases(s: Seq<char>) {
    lemma_index_of(s, '\n');
}

/// The deck `v` holds exactly the parsed pairs `m`.
pub open spec fn deck_matches(v: Seq<Commit>, m: Seq<(Seq<char>, Seq<char>)>) -> bool {
    &&& v.len() == m.len()
    &&& forall|i: int|
        #![trigger v[i], m[i]]
        0 <= i < v.len() ==> v[i].hash@ == m[i].0 && v[i].title@ == m[i].1
}

proof fn lemma_deck_matches_concat(
    a1: Seq<Commit>,
    a2: Seq<Commit>,
    m1: Seq<(Seq<char>, Seq<char>)>,
    m2: Seq<(Seq<char>, Seq<char>)>,
)
    requires
        deck_matches(a1, m1),
        deck_matches(a2, m2),
    ensures
        deck_matches(a1 + a2, m1 + m2),
{
    let a = a1 + a2;
    let m = m1 + m2;
    assert forall|i: int|
        #![trigger a[i], m[i]]
        0 <= i < a.len() implies a[i].hash@ == m[i].0 && a[i].title@ == m[i].1 by {
        if i < a1.len() {
            assert(a[i] == a1[i]);
            assert(m[i] == m1[i]);
        } else {
            assert(a[i] == a2[i - a1.len()]);
            assert(m[i] == m2[i - a1.len()]);
        }
    }
}

/// Parse one history line into a slide.
pub fn parse_line(line: &str) -> (r: Option<Commit>)
    ensures
        match parse_line_s(line@) {
            Some(p) => r matches Some(c) && c.hash@ == p.0 && c.title@ == p.1,
            None => r is None,
        },
{
    match find_char(line, ' ') {
        Some(i) => {
            let len = line.unicode_len();
            let hash = line.substring_char(0, i).to_owned();
            let title = line.substring_char(i + 1, len).to_owned();
            Some(Commit { hash, title })
        },
        None => None,
    }
}

/// Build the deck from the raw history listing.
pub fn parse_history(s: &str) -> (v: Vec<Commit>)
    ensures
        deck_matches(v@, parse_history_s(s@)),
    decreases s@.len(),
{
    let len = s.unicode_len();
    if len == 0 {
        return Vec::new();
    }
    let (line, rest) = match find_char(s, '\n') {
        Some(i) => {
            let l = s.substring_char(0, i);
            let r = s.substring_char(i + 1, len);
            proof {
                assert(l@ =~= s@.take(i as int));
                assert(r@ =~= s@.skip(i as int + 1));
            }
            (l, r)
        },
        None => {
            proof {
                reveal_strlit("");
                assert(""@ =~= Seq::<char>::empty());
            }
            (s, "")
        },
    };
    let line_len = line.unicode_len();
    let line = if line_len > 0 && line.get_char(line_len - 1) == '\r' {
        line.substring_char(0, line_len - 1)
    } else {
        line
    };
    proof {
        assert(line@ =~= strip_cr_s(match index_of(s@, '\n') {
            Some(i) => s@.take(i),
            None => s@,
        }));
    }
    let mut v: Vec<Commit> = Vec::new();
    let ghost head_m = match parse_line_s(line@) {
        Some(p) => seq![p],
        None => Seq::<(Seq<char>, Seq<char>)>::empty(),
    };
    match parse_line(line) {
        Some(c) => {
            v.push(c);
        },
        None => {},
    }
    assert(deck_matches(v@, head_m));
    let mut tail = parse_history(rest);
    proof {
        lemma_deck_matches_concat(v@, tail@, head_m, parse_history_s(rest@));
        assert(parse_history_s(s@) == head_m + parse_history_s(rest@));
    }
    v.append(&mut tail);
    v
}

/// No two slides of the deck share a hash. This holds of every deck built
/// from a first-parent chain, where each commit appears once.
pub open spec fn deck_distinct(deck: Seq<Commit>) -> bool {
    forall|i: int, j: int|
        0 <= i < j < deck.len() ==> #[trigger] deck[i].hash@ != #[trigger] deck[j].hash@
}

/// Index of the first slide whose hash is `h`, if any.
pub open spec fn find_index_s(deck: Seq<Commit>, h: Seq<char>) -> Option<int>
    decreases deck.len(),
{
    if deck.len() == 0 {
        None
    } else if deck[0].hash@ == h {
        Some(0int)
    } else {
        match find_index_s(deck.skip(1), h) {
            Some(i) => Some(i + 1),
            None => None,
        }
    }
}

/// What [`find_index_s`] returns is the first slide carrying `h`: a hit is
/// in bounds, matches, and nothing before it matches; a miss means no slide
/// matches.
pub proof fn lemma_find_index(deck: Seq<Commit>, h: Seq<char>)
    ensures
        find_index_s(deck, h) matches Some(i) ==> 0 <= i < deck.len() && deck[i].hash@ == h && (
        forall|j: int| 0 <= j < i ==> deck[j].hash@ != h),
        find_index_s(deck, h) is None ==> forall|j: int| 0 <= j < deck.len() ==> deck[j].hash@
            != h,
    decreases deck.len(),
{
    if deck.len() == 0 {
    } else if deck[0].hash@ == h {
    } else {
        lemma_find_index(deck.skip(1), h);
        assert(forall|j: int| 1 <= j < deck.len() ==> deck[j] == deck.skip(1)[j - 1]);
    }
}

/// Character-for-character string equality.
pub fn str_eq(a: &str, b: &str) -> (r: bool)
    ensures
        r == (a@ == b@),
{
    let a_len = a.unicode_len();
    let b_len = b.unicode_len();
    if a_len != b_len {
        return false;
    }
    let mut i: usize = 0;
    while i < a_len
        invariant
            i <= a_len,
            a_len == a@.len(),
            a_len == b@.len(),
            forall|j: int| 0 <= j < i ==> a@[j] == b@[j],
        decreases a_len - i,
    {
        if a.get_char(i) != b.get_char(i) {
            return false;
        }
        i = i + 1;
    }
    proof {
        assert(a@ =~= b@);
    }
    true
}

/// Index of the first slide whose hash equals `h`, as executable code.
pub fn find_index(deck: &Vec<Commit>, h: &str) -> (r: Option<usize>)
    ensures
        match r {
            Some(i) => i < deck@.len() && find_index_s(deck@, h@) == Some(i as int),
            None => find_index_s(deck@, h@) is None,
        },
{
    let mut i: usize = 0;
    while i < deck.len()
        invariant
            i <= deck@.len(),
            forall|j: int| 0 <= j < i ==> deck@[j].hash@ != h@,
        decreases deck@.len() - i,
    {
        if str_eq(deck[i].hash.as_str(), h) {
            proof {
                lemma_find_index(deck@, h@);
            }
            return Some(i);
        }
        i = i + 1;
    }
    proof {
        lemma_find_index(deck@, h@);
    }
    None
}

} // verus!
