//! Rendering of the slide window for `status` and of the whole deck for
//! `list`.
//!
//! Each line reads `<marker><padded 1-based index>/<deck length> <7-char hash
//! prefix> <title>`, where the marker is `* ` on the current slide and two
//! spaces elsewhere, and the index is left-padded to the width of the deck
//! length. `status` shows a window of at most two slides before and three
//! after the current one, clamped to the deck; a `(Start)` line is shown
//! above the window when it reaches the first slide, an `(End)` line below
//! when it reaches the last.

use vstd::prelude::*;
use vstd::string::StrSliceExecFns;
use vstd::string::StringExecFns;

use crate::deck::Commit;
use crate::text::dec_rep;
use crate::text::pad_left;
use crate::text::pad_left_s;
use crate::text::to_dec;

verus! {

/// How many slides before the current one the status window may show.
pub const SHOW_N_PREVIOUS: usize = 2;

/// How many slides after the current one the status window may show.
pub const SHOW_N_NEXT: usize = 3;

/// First slide index (0-based) of the status window around `cur`.
pub open spec fn window_from(cur: int) -> int {
    if cur >= SHOW_N_PREVIOUS { cur - SHOW_N_PREVIOUS } else { 0 }
}

/// Last slide index (0-based) of the status window around `cur`, for a deck
/// of length `len`.
pub open spec fn window_to(cur: int, len: int) -> int {
    if cur + SHOW_N_NEXT <= len - 1 { cur + SHOW_N_NEXT } else { len - 1 }
}

/// The two-character marker at the head of each line.
pub open spec fn marker_s(marked: bool) -> Seq<char> {
    if marked { seq!['*', ' '] } else { seq![' ', ' '] }
}

/// The line shown above the window when it reaches the first slide.
pub open spec fn start_marker_line_s() -> Seq<char> {
    "  (Start)"@
}

/// The line shown below the window when it reaches the last slide.
pub open spec fn end_marker_line_s() -> Seq<char> {
    "  (End)"@
}

/// One rendered slide line. `idx1` is the 1-based slide number, `len` the
/// deck length, `width` the padding width for the number.
pub open spec fn slide_line_s(
    marked: bool,
    idx1: nat,
    len: nat,
    width: nat,
    hash: Seq<char>,
    title: Seq<char>,
) -> Seq<char> {
    marker_s(marked) + pad_left_s(dec_rep(idx1), width) + seq!['/'] + dec_rep(len) + seq![' ']
        + hash.take(7) + seq![' '] + title
}

/// The rendered line for slide `i` of the deck, with the current slide `cur`
/// marked.
pub open spec fn slide_line_of(deck: Seq<Commit>, cur: int, i: int, width: nat) -> Seq<char> {
    slide_line_s(i == cur, (i + 1) as nat, deck.len(), width, deck[i].hash@, deck[i].title@)
}

/// The padding width used for slide numbers: the width of the deck length.
pub open spec fn number_width(len: nat) -> nat {
    dec_rep(len).len()
}

/// Every line `status` prints for a deck with current slide `cur`.
pub open spec fn status_lines_s(deck: Seq<Commit>, cur: int) -> Seq<Seq<char>> {
    let len = deck.len() as int;
    let width = number_width(deck.len());
    let from = window_from(cur);
    let to = window_to(cur, len);
    let body = Seq::new((to - from + 1) as nat, |k: int| slide_line_of(deck, cur, from + k, width));
    let opened = if from == 0 { seq![start_marker_line_s()] + body } else { body };
    if to == len - 1 { opened.push(end_marker_line_s()) } else { opened }
}

/// Every line `list` prints: the whole deck, current slide marked.
pub open spec fn list_lines_s(deck: Seq<Commit>, cur: int) -> Seq<Seq<char>> {
    Seq::new(deck.len(), |i: int| slide_line_of(deck, cur, i, number_width(deck.len())))
}

/// A rendered line that carries the current-slide marker.
pub open spec fn line_marked(l: Seq<char>) -> bool {
    l.len() >= 2 && l[0] == '*'
}

/// A slide line carries the marker exactly when it was rendered as the
/// current slide.
pub proof fn lemma_slide_line_marked(
    marked: bool,
    idx1: nat,
    len: nat,
    width: nat,
    hash: Seq<char>,
    title: Seq<char>,
)
    ensures
        line_marked(slide_line_s(marked, idx1, len, width, hash, title)) == marked,
{
    let l = slide_line_s(marked, idx1, len, width, hash, title);
    let tail = pad_left_s(dec_rep(idx1), width) + seq!['/'] + dec_rep(len) + seq![' ']
        + hash.take(7) + seq![' '] + title;
    assert(l =~= marker_s(marked) + tail);
    assert(l[0] == marker_s(marked)[0]);
    assert(l.len() >= 2);
}

/// The `(Start)` and `(End)` lines never carry the marker.
pub proof fn lemma_boundary_lines_unmarked()
    ensures
        !line_marked(start_marker_line_s()),
        !line_marked(end_marker_line_s()),
{
    reveal_strlit("  (Start)");
    reveal_strlit("  (End)");
}

/// The rendered lines `v` read exactly as the expected lines `m`.
pub open spec fn lines_match(v: Seq<String>, m: Seq<Seq<char>>) -> bool {
    &&& v.len() == m.len()
    &&& forall|i: int| #![trigger v[i], m[i]] 0 <= i < v.len() ==> v[i]@ == m[i]
}

/// A deck whose hashes are long enough to show a seven-character prefix.
/// Every real deck satisfies this: a hash is a full forty-character id.
pub open spec fn deck_renderable(deck: Seq<Commit>) -> bool {
    forall|i: int| 0 <= i < deck.len() ==> #[trigger] deck[i].hash@.len() >= 7
}

/// Render one slide line.
pub fn format_slide_line(marked: bool, idx1: usize, len: usize, width: usize, c: &Commit) -> (r:
    String)
    requires
        c.hash@.len() >= 7,
    ensures
        r@ == slide_line_s(marked, idx1 as nat, len as nat, width as nat, c.hash@, c.title@),
{
    proof {
        reveal_strlit("* ");
        reveal_strlit("  ");
        reveal_strlit("/");
        reveal_strlit(" ");
    }
    let mut r = if marked { "* ".to_owned() } else { "  ".to_owned() };
    let num = to_dec(idx1);
    let padded = pad_left(num.as_str(), width);
    r.append(padded.as_str());
    r.append("/");
    let total = to_dec(len);
    r.append(total.as_str());
    r.append(" ");
    r.append(c.hash.as_str().substring_char(0, 7));
    r.append(" ");
    r.append(c.title.as_str());
    proof {
        assert(r@ =~= slide_line_s(marked, idx1 as nat, len as nat, width as nat, c.hash@,
            c.title@));
    }
    r
}

/// Render the status window around the current slide `cur` (0-based).
pub fn status_lines(deck: &Vec<Commit>, cur: usize) -> (r: Vec<String>)
    requires
        cur < deck@.len(),
        deck_renderable(deck@),
    ensures
        lines_match(r@, status_lines_s(deck@, cur as int)),
{
    let len = deck.len();
    let width = to_dec(len).unicode_len();
    let from = if cur >= SHOW_N_PREVIOUS { cur - SHOW_N_PREVIOUS } else { 0 };
    let to = if len - 1 - cur >= SHOW_N_NEXT { cur + SHOW_N_NEXT } else { len - 1 };
    let ghost body = Seq::new((to - from + 1) as nat, |k: int| slide_line_of(deck@, cur as int,
        from + k, width as nat));
    let mut r: Vec<String> = Vec::new();
    if from == 0 {
        r.push("  (Start)".to_owned());
    }
    let ghost opening: int = r@.len() as int;
    let mut i: usize = from;
    while i <= to
        invariant
            from <= i <= to + 1,
            to < deck@.len(),
            cur < deck@.len(),
            len == deck@.len(),
            width as nat == number_width(deck@.len()),
            deck_renderable(deck@),
            opening == if window_from(cur as int) == 0 { 1int } else { 0int },
            from == window_from(cur as int),
            to == window_to(cur as int, len as int),
            r@.len() == opening + i - from,
            opening == 1 ==> r@[0]@ == start_marker_line_s(),
            forall|k: int|
                0 <= k < i - from ==> #[trigger] r@[opening + k]@ == slide_line_of(deck@,
                cur as int, from + k, width as nat),
        decreases to + 1 - i,
    {
        let line = format_slide_line(i == cur, i + 1, len, width, &deck[i]);
        r.push(line);
        i = i + 1;
    }
    let ghost r1 = r@;
    if to == len - 1 {
        r.push("  (End)".to_owned());
    }
    proof {
        let lenv = deck@.len() as int;
        let f = window_from(cur as int);
        let t = window_to(cur as int, lenv);
        let w = number_width(deck@.len());
        let body_s = Seq::new((t - f + 1) as nat, |k: int| slide_line_of(deck@, cur as int, f + k,
            w));
        let opened = if f == 0 { seq![start_marker_line_s()] + body_s } else { body_s };
        let s = if t == lenv - 1 { opened.push(end_marker_line_s()) } else { opened };
        assert(s == status_lines_s(deck@, cur as int));
        assert(r@.len() == s.len());
        assert forall|i: int| 0 <= i < r@.len() implies r@[i]@ == s[i] by {
            if f == 0 && i == 0 {
                assert(r@[0] == r1[0]);
                assert(s[0] == start_marker_line_s());
            } else if t == lenv - 1 && i == s.len() - 1 {
                assert(s[i] == end_marker_line_s());
            } else {
                let k = i - opening;
                assert(r@[i] == r1[i]);
                assert(r1[opening + k]@ == slide_line_of(deck@, cur as int, f + k, w));
                assert(body_s[k] == slide_line_of(deck@, cur as int, f + k, w));
                assert(s[i] == body_s[k]);
            }
        }
    }
    r
}

/// Render the whole deck, as `list` shows it.
pub fn list_lines(deck: &Vec<Commit>, cur: usize) -> (r: Vec<String>)
    requires
        cur < deck@.len(),
        deck_renderable(deck@),
    ensures
        lines_match(r@, list_lines_s(deck@, cur as int)),
{
    let len = deck.len();
    let width = to_dec(len).unicode_len();
    let mut r: Vec<String> = Vec::new();
    let mut i: usize = 0;
    while i < len
        invariant
            i <= len,
            cur < deck@.len(),
            len == deck@.len(),
            width as nat == number_width(deck@.len()),
            deck_renderable(deck@),
            r@.len() == i,
            forall|k: int|
                0 <= k < i ==> #[trigger] r@[k]@ == slide_line_of(deck@, cur as int, k,
                width as nat),
        decreases len - i,
    {
        let line = format_slide_line(i == cur, i + 1, len, width, &deck[i]);
        r.push(line);
        i = i + 1;
    }
    r
}

} // verus!
