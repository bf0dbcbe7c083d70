//! The navigation properties the library promises, proved once from the
//! contracts of the other modules.

use vstd::prelude::*;

use crate::cmd::go_result_s;
use crate::cmd::next_notice_s;
use crate::cmd::next_target_s;
use crate::cmd::previous_notice_s;
use crate::cmd::previous_target_s;
use crate::cmd::stop_target_s;
use crate::deck::Commit;
use crate::deck::deck_distinct;
use crate::deck::find_index_s;
use crate::deck::lemma_find_index;
use crate::present::lemma_boundary_lines_unmarked;
use crate::present::lemma_slide_line_marked;
use crate::present::line_marked;
use crate::present::number_width;
use crate::present::slide_line_of;
use crate::present::start_marker_line_s;
use crate::present::end_marker_line_s;
use crate::present::status_lines_s;
use crate::present::window_from;
use crate::present::window_to;
use crate::session::lemma_record_round_trip;
use crate::session::parse_record_s;
use crate::session::record_line_s;
use crate::session::record_part;

verus! {

/// In a deck without duplicate hashes, looking up the hash of slide `i`
/// finds exactly index `i`.
pub proof fn lemma_find_own_hash(deck: Seq<Commit>, i: int)
    requires
        deck_distinct(deck),
        0 <= i < deck.len(),
    ensures
        find_index_s(deck, deck[i].hash@) == Some(i),
{
    let h = deck[i].hash@;
    lemma_find_index(deck, h);
    match find_index_s(deck, h) {
        Some(j) => {
            if j < i {
                assert(deck[j].hash@ == deck[i].hash@);
                assert(false);
            }
            if j > i {
                assert(deck[i].hash@ != h);
                assert(false);
            }
        },
        None => {
            assert(deck[i].hash@ != h);
            assert(false);
        },
    }
}

/// `go(k)` for `1 <= k <= L` leaves the current position at index `k - 1`:
/// the checkout lands on the hash of slide `k`, the position lookup resolves
/// that hash back to `k - 1`, and the status window then marks that slide
/// and no other line.
pub proof fn lemma_go_selects_slide(deck: Seq<Commit>, k: int)
    requires
        deck_distinct(deck),
        1 <= k <= deck.len(),
    ensures
        go_result_s(deck.len() as int, k) == Some(k - 1),
        find_index_s(deck, deck[k - 1].hash@) == Some(k - 1),
        ({
            let lines = status_lines_s(deck, k - 1);
            let from = window_from(k - 1);
            let pos = (k - 1) - from + (if from == 0 { 1int } else { 0int });
            &&& 0 <= pos < lines.len()
            &&& line_marked(lines[pos])
            &&& forall|j: int| 0 <= j < lines.len() && j != pos ==> !line_marked(#[trigger] lines[j])
        }),
{
    lemma_find_own_hash(deck, k - 1);
    let cur = k - 1;
    let lenv = deck.len() as int;
    let from = window_from(cur);
    let to = window_to(cur, lenv);
    let w = number_width(deck.len());
    let body = Seq::new((to - from + 1) as nat, |q: int| slide_line_of(deck, cur, from + q, w));
    let opened = if from == 0 { seq![start_marker_line_s()] + body } else { body };
    let lines = if to == lenv - 1 { opened.push(end_marker_line_s()) } else { opened };
    assert(lines == status_lines_s(deck, cur));
    let opening: int = if from == 0 { 1 } else { 0 };
    let pos = cur - from + opening;
    lemma_boundary_lines_unmarked();
    assert forall|q: int| 0 <= q <= to - from implies line_marked(#[trigger] lines[opening + q])
        == (from + q == cur) by {
        assert(lines[opening + q] == body[q]);
        lemma_slide_line_marked(from + q == cur, (from + q + 1) as nat, deck.len(), w, deck[from
            + q].hash@, deck[from + q].title@);
    }
    assert(from <= cur <= to);
    assert(line_marked(lines[pos]));
    assert forall|j: int| 0 <= j < lines.len() && j != pos implies !line_marked(
        #[trigger] lines[j],
    ) by {
        if from == 0 && j == 0 {
            assert(lines[0] == start_marker_line_s());
        } else if to == lenv - 1 && j == lines.len() - 1 {
            assert(lines[j] == end_marker_line_s());
        } else {
            let q = j - opening;
            assert(lines[opening + q] == body[q]);
            assert(from + q != cur);
        }
    }
}

/// `next` from 0-based position `k` is `go(min(k + 1 + offset, L))`: its
/// target is a valid slide number, `go` on that target selects exactly the
/// slide the formula names, and the end notice is due iff `k + 1 + offset`
/// passes `L`.
pub proof fn lemma_next_equals_go(deck: Seq<Commit>, k: int, offset: int)
    requires
        deck_distinct(deck),
        0 <= k < deck.len(),
        0 <= offset,
    ensures
        ({
            let lenv = deck.len() as int;
            let t = next_target_s(k, offset, lenv);
            &&& 1 <= t <= lenv
            &&& go_result_s(lenv, t) == Some(t - 1)
            &&& find_index_s(deck, deck[t - 1].hash@) == Some(t - 1)
            &&& next_notice_s(k, offset, lenv) == (k + 1 + offset > lenv)
        }),
{
    let lenv = deck.len() as int;
    let t = next_target_s(k, offset, lenv);
    lemma_go_selects_slide(deck, t);
}

/// `previous` from 0-based position `k` is `go(max(k + 1 - offset, 1))`:
/// its target never drops below slide 1, `go` on it selects exactly the
/// slide the formula names, and the start notice is due iff `k + 1 - offset`
/// lands on or before 1.
pub proof fn lemma_previous_equals_go(deck: Seq<Commit>, k: int, offset: int)
    requires
        deck_distinct(deck),
        0 <= k < deck.len(),
        0 <= offset,
    ensures
        ({
            let lenv = deck.len() as int;
            let t = previous_target_s(k, offset);
            &&& 1 <= t <= lenv
            &&& go_result_s(lenv, t) == Some(t - 1)
            &&& find_index_s(deck, deck[t - 1].hash@) == Some(t - 1)
            &&& previous_notice_s(k, offset) == (k + 1 - offset <= 1)
        }),
{
    let t = previous_target_s(k, offset);
    lemma_go_selects_slide(deck, t);
}

/// `start(ref)` leaves the current position at slide 1 of the deck that ends
/// at the resolved commit: the record it writes reads back with that commit
/// as the target, and the `go(1)` it ends with lands on the first slide,
/// which resolves back to position 0.
pub proof fn lemma_start_lands_on_first_slide(
    deck: Seq<Commit>,
    branch: Seq<char>,
    commit: Seq<char>,
)
    requires
        record_part(branch),
        record_part(commit),
        deck_distinct(deck),
        deck.len() >= 1,
        deck[deck.len() - 1].hash@ == commit,
    ensures
        parse_record_s(record_line_s(branch, commit)) == Some((branch, commit)),
        go_result_s(deck.len() as int, 1) == Some(0int),
        find_index_s(deck, deck[0].hash@) == Some(0int),
{
    lemma_record_round_trip(branch, commit);
    lemma_go_selects_slide(deck, 1);
}

/// `stop` after `start`, with no intervening branch change, restores exactly
/// what was recorded: the origin branch when one was recorded, else the very
/// commit the session started from.
pub proof fn lemma_stop_restores_origin(branch: Seq<char>, commit: Seq<char>)
    requires
        record_part(branch),
        record_part(commit),
    ensures
        parse_record_s(record_line_s(branch, commit)) == Some((branch, commit)),
        stop_target_s((branch, commit)) == if branch.len() > 0 { branch } else { commit },
{
    lemma_record_round_trip(branch, commit);
}

/// `go(n)` twice in a row, with no intervening change, yields the same deck
/// and the same current slide: the deck is a pure function of the listing,
/// the first `go(n)` leaves the position at `n - 1`, and a second `go(n)`
/// selects the same slide again.
pub proof fn lemma_go_idempotent(deck: Seq<Commit>, n: int)
    requires
        deck_distinct(deck),
        1 <= n <= deck.len(),
    ensures
        go_result_s(deck.len() as int, n) == Some(n - 1),
        find_index_s(deck, deck[n - 1].hash@) == Some(n - 1),
{
    lemma_go_selects_slide(deck, n);
}

} // verus!
