//! Facts about a tick that follow from its outcome.

use vstd::prelude::*;
use crate::game::{
    ItemType, Item, Segment, advanced, grown, tick_outcome, first_item_at, no_item_at,
    first_bite,
};

verus! {

/// Growing adds one segment at the tail, one step behind the old tail and
/// on its heading, and leaves every other segment as it was.
pub proof fn lemma_growth(segs: Seq<Segment>, cx: u16, cy: u16)
    requires
        segs.len() > 0,
    ensures
        grown(segs, cx, cy).len() == segs.len() + 1,
        grown(segs, cx, cy)[0].direction == segs[0].direction,
        forall|i: int| 0 <= i < segs.len() ==> #[trigger] grown(segs, cx, cy)[i + 1] == segs[i],
{
}

/// A tick whose head lands on a hedgehog leaves a body of more than one
/// segment one segment shorter, with the head where the advance put it.
pub proof fn lemma_hedgehog_shrinks(
    segs: Seq<Segment>,
    items: Seq<Item>,
    cx: u16,
    cy: u16,
    new_segs: Seq<Segment>,
    new_items: Seq<Item>,
    k: int,
)
    requires
        segs.len() > 1,
        tick_outcome(segs, items, cx, cy, new_segs, new_items),
        first_item_at(
            items,
            advanced(segs, cx, cy).last().x,
            advanced(segs, cx, cy).last().y,
            k,
        ),
        items[k].item_type == ItemType::Hedgehog,
    ensures
        new_segs.len() == segs.len() - 1,
        new_segs.last() == advanced(segs, cx, cy).last(),
        new_items.len() == items.len() - 1,
{
    let adv = advanced(segs, cx, cy);
    assert(!no_item_at(items, adv.last().x, adv.last().y));
}

/// A tick in which no item is taken and the head runs into the `k`-th
/// segment, counted from the tail, leaves `n - 1 - k` segments of `n`.
pub proof fn lemma_bite_truncates(
    segs: Seq<Segment>,
    items: Seq<Item>,
    cx: u16,
    cy: u16,
    new_segs: Seq<Segment>,
    new_items: Seq<Item>,
    k: int,
)
    requires
        segs.len() > 0,
        tick_outcome(segs, items, cx, cy, new_segs, new_items),
        no_item_at(items, advanced(segs, cx, cy).last().x, advanced(segs, cx, cy).last().y),
        first_bite(advanced(segs, cx, cy), k),
    ensures
        new_segs.len() == segs.len() - 1 - k,
        new_segs.last() == advanced(segs, cx, cy).last(),
        new_items == items,
{
}

/// A tick whose head lands on a boulder keeps the number of items, and the
/// boulder comes back, last, on the cell the head reached before it was
/// knocked aside.
pub proof fn lemma_boulder_persists(
    segs: Seq<Segment>,
    items: Seq<Item>,
    cx: u16,
    cy: u16,
    new_segs: Seq<Segment>,
    new_items: Seq<Item>,
    k: int,
)
    requires
        segs.len() > 0,
        tick_outcome(segs, items, cx, cy, new_segs, new_items),
        first_item_at(
            items,
            advanced(segs, cx, cy).last().x,
            advanced(segs, cx, cy).last().y,
            k,
        ),
        items[k].item_type == ItemType::Boulder,
    ensures
        new_items.len() == items.len(),
        new_items.last() == (Item {
            item_type: ItemType::Boulder,
            x: advanced(segs, cx, cy).last().x,
            y: advanced(segs, cx, cy).last().y,
        }),
        new_segs.len() == segs.len(),
{
    let adv = advanced(segs, cx, cy);
    assert(!no_item_at(items, adv.last().x, adv.last().y));
}

} // verus!
