//! The order in which events are consumed: ascending by time, events of the
//! same instant in the order in which they were given.

use crate::calendar::CommitDate;
use crate::model::ProjectMetadata;
use vstd::prelude::*;

verus! {

/// An event: when it happened and where it came from.
pub type Event = (CommitDate, ProjectMetadata);

/// Whether the event at position `i` is consumed before the one at position
/// `j`: it is earlier, or it happened at the same instant and was given first.
pub open spec fn comes_before(events: Seq<Event>, i: int, j: int) -> bool {
    events[i].0.precedes(events[j].0) || (!events[j].0.precedes(events[i].0) && i < j)
}

/// Whether `order` lists positions of `events` between `lo` and `hi`, each
/// before the ones that are consumed after it.
pub open spec fn ascending(events: Seq<Event>, order: Seq<int>, lo: int, hi: int) -> bool {
    &&& forall|k: int| 0 <= k < order.len() ==> lo <= #[trigger] order[k] < hi
    &&& forall|a: int, b: int|
        0 <= a < b < order.len() ==> comes_before(events, #[trigger] order[a], #[trigger] order[b])
}

/// Whether `order` arranges all positions of `events` in the order of
/// consumption.
pub open spec fn is_sort_order(events: Seq<Event>, order: Seq<int>) -> bool {
    order.len() == events.len() && ascending(events, order, 0, events.len() as int)
}

/// The positions of `events` in the order of consumption.
pub open spec fn sort_order(events: Seq<Event>) -> Seq<int> {
    choose|order: Seq<int>| is_sort_order(events, order)
}

/// The events in the order of consumption.
pub open spec fn sorted(events: Seq<Event>) -> Seq<Event> {
    Seq::new(events.len(), |k: int| events[sort_order(events)[k]])
}

/// The positions that a vector of indices holds.
pub open spec fn positions(order: Seq<usize>) -> Seq<int> {
    Seq::new(order.len(), |k: int| order[k] as int)
}

/// An arrangement in the order of consumption lists every position.
pub proof fn lemma_order_covers(events: Seq<Event>, order: Seq<int>, i: int)
    requires
        is_sort_order(events, order),
        0 <= i < events.len(),
    ensures
        exists|k: int| 0 <= k < order.len() && order[k] == i,
{
    let n = events.len() as int;
    assert(order.no_duplicates()) by {
        assert forall|a: int, b: int| 0 <= a < order.len() && 0 <= b < order.len() && a != b
            implies order[a] != order[b] by {
            if a < b {
                assert(comes_before(events, order[a], order[b]));
            } else {
                assert(comes_before(events, order[b], order[a]));
            }
        }
    }
    order.unique_seq_to_set();
    vstd::set_lib::lemma_int_range(0, n);
    let all = vstd::set_lib::set_int_range(0, n);
    assert(order.to_set().subset_of(all)) by {
        assert forall|x: int| order.to_set().contains(x) implies all.contains(x) by {
            let k = choose|k: int| 0 <= k < order.len() && order[k] == x;
            assert(0 <= order[k] < n);
        }
    }
    vstd::set_lib::lemma_subset_equality(order.to_set(), all);
    assert(all.contains(i));
    assert(order.to_set().contains(i));
}

/// There is only one way to arrange the events in the order of consumption.
pub proof fn lemma_sort_order_unique(events: Seq<Event>, first: Seq<int>, second: Seq<int>)
    requires
        is_sort_order(events, first),
        is_sort_order(events, second),
    ensures
        first == second,
{
    assert forall|k: int| 0 <= k < first.len() implies first[k] == second[k] by {
        lemma_same_at(events, first, second, k);
    }
    assert(first =~= second);
}

/// Two arrangements in the order of consumption agree up to and at `k`.
proof fn lemma_same_at(events: Seq<Event>, first: Seq<int>, second: Seq<int>, k: int)
    requires
        is_sort_order(events, first),
        is_sort_order(events, second),
        0 <= k < events.len(),
    ensures
        forall|j: int| 0 <= j <= k ==> first[j] == second[j],
    decreases k,
{
    if k > 0 {
        lemma_same_at(events, first, second, k - 1);
    }
    lemma_order_covers(events, second, first[k]);
    let m = choose|m: int| 0 <= m < second.len() && second[m] == first[k];
    lemma_order_covers(events, first, second[k]);
    let p = choose|p: int| 0 <= p < first.len() && first[p] == second[k];
    if m < k {
        assert(first[m] == second[m]);
        assert(comes_before(events, first[m], first[k]));
    } else if m > k {
        assert(comes_before(events, second[k], second[m]));
        if p < k {
            assert(first[p] == second[p]);
            assert(comes_before(events, second[p], second[k]));
        } else if p > k {
            assert(comes_before(events, first[k], first[p]));
        }
    }
}

/// The first place in `order`, from `k` on, whose event is later than `date`.
proof fn lemma_insertion_point(events: Seq<Event>, order: Seq<int>, date: CommitDate, k: int) -> (p:
    int)
    requires
        0 <= k <= order.len(),
        forall|j: int| 0 <= j < k ==> !date.precedes(events[#[trigger] order[j]].0),
    ensures
        k <= p <= order.len(),
        forall|j: int| 0 <= j < p ==> !date.precedes(events[#[trigger] order[j]].0),
        p == order.len() || date.precedes(events[order[p]].0),
    decreases order.len() - k,
{
    if k == order.len() || date.precedes(events[order[k]].0) {
        k
    } else {
        lemma_insertion_point(events, order, date, k + 1)
    }
}

/// Every collection of events can be arranged in the order of consumption.
pub proof fn lemma_sort_order_exists(events: Seq<Event>)
    ensures
        is_sort_order(events, sort_order(events)),
    decreases events.len(),
{
    if events.len() == 0 {
        assert(is_sort_order(events, Seq::<int>::empty()));
    } else {
        let front = events.drop_last();
        lemma_sort_order_exists(front);
        let inner = sort_order(front);
        let last = events.len() - 1;
        let date = events[last].0;
        let p = lemma_insertion_point(events, inner, date, 0);
        let order = inner.insert(p, last);
        assert forall|a: int, b: int| 0 <= a < b < order.len() implies comes_before(
            events,
            #[trigger] order[a],
            #[trigger] order[b],
        ) by {
            if b < p {
                assert(comes_before(front, inner[a], inner[b]));
            } else if b == p {
                assert(!date.precedes(events[inner[a]].0));
            } else if a < p {
                assert(comes_before(front, inner[a], inner[b - 1]));
            } else if a == p {
                if b - 1 > p {
                    assert(comes_before(front, inner[p], inner[b - 1]));
                }
                lemma_precedes_transitive(date, events[inner[p]].0, events[inner[b - 1]].0);
            } else {
                assert(comes_before(front, inner[a - 1], inner[b - 1]));
            }
        }
        assert forall|k: int| 0 <= k < order.len() implies 0 <= #[trigger] order[k]
            < events.len() by {
            if k < p {
                assert(0 <= inner[k] < front.len());
            } else if k > p {
                assert(0 <= inner[k - 1] < front.len());
            }
        }
        assert(is_sort_order(events, order));
    }
}

/// What `sort_order` chooses is an arrangement in the order of consumption,
/// once some arrangement is known.
pub proof fn lemma_sort_order_is(events: Seq<Event>, order: Seq<int>)
    requires
        is_sort_order(events, order),
    ensures
        sort_order(events) == order,
{
    lemma_sort_order_unique(events, sort_order(events), order);
}

/// Merges two ascending runs of positions, the first of which lies wholly
/// before the second, into one.
fn merge(events: &Vec<Event>, left: Vec<usize>, right: Vec<usize>, Ghost(lo): Ghost<int>, Ghost(
    mid,
): Ghost<int>, Ghost(hi): Ghost<int>) -> (r: Vec<usize>)
    requires
        0 <= lo <= mid <= hi <= events.len(),
        ascending(events@, positions(left@), lo, mid),
        ascending(events@, positions(right@), mid, hi),
        left.len() + right.len() <= usize::MAX,
    ensures
        r.len() == left.len() + right.len(),
        ascending(events@, positions(r@), lo, hi),
{
    let mut out: Vec<usize> = Vec::new();
    let mut a: usize = 0;
    let mut b: usize = 0;
    while a < left.len() || b < right.len()
        invariant
            0 <= lo <= mid <= hi <= events.len(),
            ascending(events@, positions(left@), lo, mid),
            ascending(events@, positions(right@), mid, hi),
            left.len() + right.len() <= usize::MAX,
            a <= left.len(),
            b <= right.len(),
            out.len() == a + b,
            ascending(events@, positions(out@), lo, hi),
            forall|k: int, j: int|
                0 <= k < out.len() && a <= j < left.len() ==> comes_before(
                    events@,
                    #[trigger] positions(out@)[k],
                    #[trigger] positions(left@)[j],
                ),
            forall|k: int, j: int|
                0 <= k < out.len() && b <= j < right.len() ==> comes_before(
                    events@,
                    #[trigger] positions(out@)[k],
                    #[trigger] positions(right@)[j],
                ),
        decreases left.len() - a + right.len() - b,
    {
        let ghost before = positions(out@);
        proof {
            if a < left.len() {
                assert(lo <= positions(left@)[a as int] < mid);
            }
            if b < right.len() {
                assert(mid <= positions(right@)[b as int] < hi);
            }
        }
        let take_left: bool = if a == left.len() {
            false
        } else if b == right.len() {
            true
        } else {
            !events[right[b]].0.is_before(&events[left[a]].0)
        };
        if take_left {
            let x = left[a];
            proof {
                assert(positions(left@)[a as int] == x);
                assert forall|j: int| a < j < left.len() implies comes_before(
                    events@,
                    x as int,
                    #[trigger] positions(left@)[j],
                ) by {
                    assert(comes_before(events@, positions(left@)[a as int], positions(left@)[j]));
                }
                assert forall|j: int| b <= j < right.len() implies comes_before(
                    events@,
                    x as int,
                    #[trigger] positions(right@)[j],
                ) by {
                    let y = positions(right@)[j];
                    let y0 = positions(right@)[b as int];
                    assert(x < mid <= y);
                    if j > b {
                        assert(comes_before(events@, y0, y));
                    }
                    lemma_precedes_transitive(events@[y as int].0, events@[y0].0, events@[x as int].0);
                }
            }
            out.push(x);
            a = a + 1;
        } else {
            let y = right[b];
            proof {
                assert(positions(right@)[b as int] == y);
                assert forall|j: int| b < j < right.len() implies comes_before(
                    events@,
                    y as int,
                    #[trigger] positions(right@)[j],
                ) by {
                    assert(comes_before(events@, positions(right@)[b as int], positions(right@)[j]));
                }
                assert forall|j: int| a <= j < left.len() implies comes_before(
                    events@,
                    y as int,
                    #[trigger] positions(left@)[j],
                ) by {
                    let x = positions(left@)[j];
                    let x0 = positions(left@)[a as int];
                    assert(x < mid <= y);
                    if j > a {
                        assert(comes_before(events@, x0, x));
                    }
                    lemma_precedes_transitive(events@[y as int].0, events@[x0].0, events@[x].0);
                    lemma_precedes_total(events@[y as int].0, events@[x0].0, events@[x].0);
                }
            }
            out.push(y);
            b = b + 1;
        }
        proof {
            let after = positions(out@);
            assert(after =~= before.push(after[after.len() - 1]));
            assert forall|k: int| 0 <= k < before.len() implies after[k] == before[k] by {}
        }
    }
    out
}

/// Arranges the positions from `lo` up to `hi` in the order of consumption.
fn sort_range(events: &Vec<Event>, lo: usize, hi: usize) -> (r: Vec<usize>)
    requires
        lo <= hi <= events.len(),
    ensures
        r.len() == hi - lo,
        ascending(events@, positions(r@), lo as int, hi as int),
    decreases hi - lo,
{
    if hi - lo == 0 {
        Vec::new()
    } else if hi - lo == 1 {
        let mut single: Vec<usize> = Vec::new();
        single.push(lo);
        single
    } else {
        let mid: usize = lo + (hi - lo) / 2;
        let left = sort_range(events, lo, mid);
        let right = sort_range(events, mid, hi);
        merge(events, left, right, Ghost(lo as int), Ghost(mid as int), Ghost(hi as int))
    }
}

/// The positions of `events` in the order in which they are consumed:
/// ascending by time, and in the given order where times are equal.
pub fn sort_positions(events: &Vec<Event>) -> (r: Vec<usize>)
    ensures
        r.len() == events.len(),
        positions(r@) == sort_order(events@),
{
    let order = sort_range(events, 0, events.len());
    proof {
        lemma_sort_order_is(events@, positions(order@));
    }
    order
}

/// Being earlier carries over: what is earlier than something earlier is
/// earlier.
pub proof fn lemma_precedes_transitive(x: CommitDate, y: CommitDate, z: CommitDate)
    ensures
        x.precedes(y) && y.precedes(z) ==> x.precedes(z),
        x.precedes(y) && !z.precedes(y) ==> x.precedes(z),
        !(x.precedes(y) && y.precedes(x)),
{
}

/// What is not later than something that is not later than a third is not
/// later than the third.
pub proof fn lemma_precedes_total(x: CommitDate, y: CommitDate, z: CommitDate)
    ensures
        !y.precedes(x) && !z.precedes(y) ==> !z.precedes(x),
{
}

} // verus!
