//! Where a document goes in a sorted list.
use vstd::prelude::*;

verus! {

/// How a stored document sorts against an incoming one.
#[derive(Clone, Copy, Debug, PartialEq, Eq, Structural)]
pub enum Order {
    /// The stored document comes first.
    Before,
    /// The sort does not tell the two apart.
    Level,
    /// The stored document comes last.
    After,
}

/// The first place at or after `from` that sorts after the incoming document, or the end.
pub open spec fn first_after(order: Seq<Order>, from: int) -> int
    decreases order.len() - from,
{
    if from < 0 || from >= order.len() || order[from] is After {
        from
    } else {
        first_after(order, from + 1)
    }
}

/// The place that an incoming document takes: that of the last document level with it, among those
/// ahead of the first that sorts after it, or else the place right ahead of that first one.
pub open spec fn insertion_point(order: Seq<Order>) -> int {
    let end = first_after(order, 0);
    if end > 0 && order[end - 1] is Level {
        end - 1
    } else {
        end
    }
}

/// Whether the list that the comparisons were made on is sorted: what comes first stands first,
/// then what is level, then what comes last.
pub open spec fn is_sorted(order: Seq<Order>) -> bool {
    forall|i: int, j: int|
        #![trigger order[i], order[j]]
        0 <= i < j < order.len() ==> {
            &&& order[i] is After ==> order[j] is After
            &&& order[j] is Before ==> order[i] is Before
        }
}

/// What the first place that sorts after the incoming document says of the places around it.
pub proof fn lemma_first_after(order: Seq<Order>, from: int)
    requires
        0 <= from <= order.len(),
    ensures
        from <= first_after(order, from) <= order.len(),
        forall|i: int| from <= i < first_after(order, from) ==> !(#[trigger] order[i] is After),
        first_after(order, from) < order.len() ==> order[first_after(order, from)] is After,
    decreases order.len() - from,
{
    if from < order.len() && !(order[from] is After) {
        lemma_first_after(order, from + 1);
    }
}

/// The insertion point never lies past the end of the list.
pub proof fn lemma_insertion_point_range(order: Seq<Order>)
    ensures
        0 <= insertion_point(order) <= order.len(),
{
    lemma_first_after(order, 0);
}

/// In a sorted list the insertion point is what a binary search finds: a document level with the
/// incoming one, if there is any, and otherwise the place between those that come first and those
/// that come last. Either way nothing ahead of it sorts after the incoming document and nothing
/// from it on sorts before.
pub proof fn law_insertion_point_is_a_search_result(order: Seq<Order>)
    requires
        is_sorted(order),
    ensures
        0 <= insertion_point(order) <= order.len(),
        forall|i: int| 0 <= i < insertion_point(order) ==> !(#[trigger] order[i] is After),
        forall|i: int|
            insertion_point(order) <= i < order.len() ==> !(#[trigger] order[i] is Before),
        (exists|i: int| 0 <= i < order.len() && #[trigger] order[i] is Level) ==> {
            &&& insertion_point(order) < order.len()
            &&& order[insertion_point(order)] is Level
        },
{
    lemma_first_after(order, 0);
    let end = first_after(order, 0);
    if exists|i: int| 0 <= i < order.len() && #[trigger] order[i] is Level {
        let i = choose|i: int| 0 <= i < order.len() && #[trigger] order[i] is Level;
        if end <= i {
            assert(order[end] is After);
        }
        assert(order[end - 1] is Level) by {
            if i < end - 1 {
                assert(!(order[end - 1] is Before));
            }
        }
    }
    if end < order.len() {
        assert forall|i: int| end <= i < order.len() implies !(#[trigger] order[i] is Before) by {
            assert(order[end] is After);
        }
    }
}

/// Finds the place that an incoming document takes.
pub fn find_insertion_point(order: &Vec<Order>) -> (index: usize)
    ensures
        index == insertion_point(order@),
        index <= order.len(),
{
    let mut end: usize = 0;
    while end < order.len() && order[end] != Order::After
        invariant
            end <= order.len(),
            first_after(order@, 0) == first_after(order@, end as int),
        decreases order.len() - end,
    {
        end += 1;
    }
    if end > 0 && order[end - 1] == Order::Level {
        end - 1
    } else {
        end
    }
}

} // verus!
