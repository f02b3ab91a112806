//! The game state: the body, the items on the board, and the tick engine.

use vstd::prelude::*;
use crate::grid::{
    Direction, opposite, is_vertical, step_forward, step_backward, forward, backward,
    opposite_of,
};
use crate::chance::{fresh_rng, draw_between, chance_of, choose_one};

verus! {

/// What an item on the board does to the snake that reaches it.
#[derive(Clone, Copy, Debug, PartialEq, Eq, Structural)]
pub enum ItemType {
    Apple,
    Mushroom,
    Hedgehog,
    Boulder,
}

/// One cell of the body, with the heading it travels in.
#[derive(Clone, Copy, Debug, PartialEq, Eq, Structural)]
pub struct Segment {
    pub x: i32,
    pub y: i32,
    pub direction: Direction,
}

/// An item lying on one cell of the board.
#[derive(Clone, Copy, Debug, PartialEq, Eq, Structural)]
pub struct Item {
    pub item_type: ItemType,
    pub x: i32,
    pub y: i32,
}

impl Default for Segment {
    fn default() -> (r: Segment)
        ensures
            r == (Segment { x: 1, y: 0, direction: Direction::Right }),
    {
        Segment { x: 1, y: 0, direction: Direction::Right }
    }
}

/// Ticks between two item placements.
pub const ITEM_INTERVAL: u64 = 15;

/// The whole state of a game. The body runs from the tail at index 0 to the
/// head at the last index.
pub struct App {
    pub segments: Vec<Segment>,
    pub items: Vec<Item>,
    pub playing: bool,
    pub canvas_x_length: u16,
    pub canvas_y_length: u16,
    pub need_items_in: u64,
}

/// Whether `it` lies on the cell `(x, y)`.
pub open spec fn item_at(it: Item, x: i32, y: i32) -> bool {
    it.x == x && it.y == y
}

/// Whether segment `s` lies on the cell `(x, y)`.
pub open spec fn segment_at(s: Segment, x: i32, y: i32) -> bool {
    s.x == x && s.y == y
}

/// The body after every segment has stepped along its own heading, and every
/// segment but the head has taken the heading of the one in front of it.
pub open spec fn advanced(segs: Seq<Segment>, cx: u16, cy: u16) -> Seq<Segment> {
    Seq::new(
        segs.len(),
        |i: int|
            Segment {
                x: step_forward(segs[i].x, segs[i].y, segs[i].direction, cx, cy).0,
                y: step_forward(segs[i].x, segs[i].y, segs[i].direction, cx, cy).1,
                direction: if i + 1 < segs.len() {
                    segs[i + 1].direction
                } else {
                    segs[i].direction
                },
            },
    )
}

/// The body with a new tail one step behind the old one, on the old tail's
/// heading.
pub open spec fn grown(segs: Seq<Segment>, cx: u16, cy: u16) -> Seq<Segment> {
    let t = segs[0];
    let c = step_backward(t.x, t.y, t.direction, cx, cy);
    segs.insert(0, Segment { x: c.0, y: c.1, direction: t.direction })
}

/// The body without its tail, unless the head is all there is.
pub open spec fn shrunk(segs: Seq<Segment>) -> Seq<Segment> {
    if segs.len() > 1 {
        segs.remove(0)
    } else {
        segs
    }
}

/// Whether heading `t` is at a right angle to heading `d`.
pub open spec fn perpendicular(t: Direction, d: Direction) -> bool {
    is_vertical(t) != is_vertical(d)
}

/// The heading the head is stepped back along when it is knocked aside: that
/// of the segment behind it, or its own when it has none.
pub open spec fn neck_direction(segs: Seq<Segment>) -> Direction {
    if segs.len() >= 2 {
        segs[segs.len() - 2].direction
    } else {
        segs[segs.len() - 1].direction
    }
}

/// The body after the head is knocked towards `turn`: one step along `turn`,
/// one step back against the neck's heading, and both head and neck take
/// heading `turn`.
pub open spec fn deflected(segs: Seq<Segment>, turn: Direction, cx: u16, cy: u16) -> Seq<Segment> {
    let n = segs.len();
    let h = segs[n - 1];
    let a = step_forward(h.x, h.y, turn, cx, cy);
    let b = step_backward(a.0, a.1, neck_direction(segs), cx, cy);
    let s1 = segs.update(n - 1, Segment { x: b.0, y: b.1, direction: turn });
    if n >= 2 {
        s1.update(n - 2, Segment { direction: turn, ..segs[n - 2] })
    } else {
        s1
    }
}

/// Whether `k` is the first item of `items` on the cell `(x, y)`.
pub open spec fn first_item_at(items: Seq<Item>, x: i32, y: i32, k: int) -> bool {
    &&& 0 <= k < items.len()
    &&& item_at(items[k], x, y)
    &&& forall|j: int| 0 <= j < k ==> !item_at(#[trigger] items[j], x, y)
}

/// Whether no item of `items` lies on the cell `(x, y)`.
pub open spec fn no_item_at(items: Seq<Item>, x: i32, y: i32) -> bool {
    forall|j: int| 0 <= j < items.len() ==> !item_at(#[trigger] items[j], x, y)
}

/// Whether `k` is the first segment behind the head that shares its cell.
pub open spec fn first_bite(segs: Seq<Segment>, k: int) -> bool {
    let h = segs[segs.len() - 1];
    &&& 0 <= k < segs.len() - 1
    &&& segment_at(segs[k], h.x, h.y)
    &&& forall|j: int| 0 <= j < k ==> !segment_at(#[trigger] segs[j], h.x, h.y)
}

/// Whether no segment behind the head shares its cell.
pub open spec fn no_bite(segs: Seq<Segment>) -> bool {
    let h = segs[segs.len() - 1];
    forall|j: int| 0 <= j < segs.len() - 1 ==> !segment_at(#[trigger] segs[j], h.x, h.y)
}

/// What an item of kind `kind`, taken by the head, leaves of the body `segs`.
pub open spec fn item_effect(
    segs: Seq<Segment>,
    kind: ItemType,
    cx: u16,
    cy: u16,
    new_segs: Seq<Segment>,
) -> bool {
    let h = segs[segs.len() - 1];
    match kind {
        ItemType::Apple | ItemType::Mushroom => new_segs == grown(segs, cx, cy),
        ItemType::Hedgehog => new_segs == shrunk(segs),
        ItemType::Boulder => exists|t: Direction|
            perpendicular(t, h.direction) && new_segs == #[trigger] deflected(segs, t, cx, cy),
    }
}

/// One tick from body `segs` and items `items` to `new_segs` and `new_items`:
/// the body advances; then the first item on the head's cell is taken and
/// works its effect (a boulder is put back, last, on the head's cell before
/// it was knocked aside); with no such item, a head that has run into the
/// `k`-th segment cuts off the segments up to and including that one.
pub open spec fn tick_outcome(
    segs: Seq<Segment>,
    items: Seq<Item>,
    cx: u16,
    cy: u16,
    new_segs: Seq<Segment>,
    new_items: Seq<Item>,
) -> bool {
    let adv = advanced(segs, cx, cy);
    let h = adv[adv.len() - 1];
    if no_item_at(items, h.x, h.y) {
        &&& new_items == items
        &&& no_bite(adv) ==> new_segs == adv
        &&& forall|k: int| #[trigger] first_bite(adv, k) ==> new_segs == adv.subrange(k + 1, adv.len() as int)
    } else {
        forall|k: int|
            #[trigger] first_item_at(items, h.x, h.y, k) ==> {
                &&& item_effect(adv, items[k].item_type, cx, cy, new_segs)
                &&& new_items == if items[k].item_type == ItemType::Boulder {
                    items.remove(k).push(Item { item_type: ItemType::Boulder, x: h.x, y: h.y })
                } else {
                    items.remove(k)
                }
            }
    }
}

/// Whether `(x, y)` lies where items are placed: columns `[2, cx - 1)` and
/// rows `[1, cy - 1)`.
pub open spec fn in_spawn_area(x: i32, y: i32, cx: u16, cy: u16) -> bool {
    2 <= x < cx - 1 && 1 <= y < cy - 1
}

/// Whether no segment and no item lies on the cell `(x, y)`.
pub open spec fn cell_free(segs: Seq<Segment>, items: Seq<Item>, x: i32, y: i32) -> bool {
    &&& forall|j: int| 0 <= j < segs.len() ==> !segment_at(#[trigger] segs[j], x, y)
    &&& forall|j: int| 0 <= j < items.len() ==> !item_at(#[trigger] items[j], x, y)
}

/// Whether an item kind is one that helps the snake.
pub open spec fn is_beneficial(kind: ItemType) -> bool {
    kind == ItemType::Apple || kind == ItemType::Mushroom
}

/// Whether `new_items` is `items` followed by one or more placed items: an
/// apple or a mushroom, then only hedgehogs and boulders, all in the spawn
/// area.
pub open spec fn placed(items: Seq<Item>, new_items: Seq<Item>, cx: u16, cy: u16) -> bool {
    let n = items.len();
    &&& new_items.len() > n
    &&& new_items.subrange(0, n as int) == items
    &&& is_beneficial(new_items[n as int].item_type)
    &&& forall|k: int| n < k < new_items.len() ==> !is_beneficial(#[trigger] new_items[k].item_type)
    &&& forall|k: int|
        n <= k < new_items.len() ==> in_spawn_area(#[trigger] new_items[k].x, new_items[k].y, cx, cy)
}

/// The cells the body and then the items lie on, each list in order.
pub open spec fn occupied(segs: Seq<Segment>, items: Seq<Item>) -> Seq<(i32, i32)> {
    segs.map_values(|s: Segment| (s.x, s.y)) + items.map_values(|it: Item| (it.x, it.y))
}

/// The cell one scan-then-accept pass keeps: `cand` is checked against each
/// of `cells` in turn and replaced by the matching fresh draw whenever it lies
/// on one; a replacement is checked only against the cells after it.
pub open spec fn scan_then_accept(
    cells: Seq<(i32, i32)>,
    cand: (i32, i32),
    fresh: Seq<(i32, i32)>,
) -> (i32, i32)
    decreases cells.len(),
{
    if cells.len() == 0 {
        cand
    } else {
        let next = if cand == cells[0] {
            fresh[0]
        } else {
            cand
        };
        scan_then_accept(cells.drop_first(), next, fresh.drop_first())
    }
}

/// Whether every cell of `cells` lies in the spawn area.
pub open spec fn all_in_spawn_area(cells: Seq<(i32, i32)>, cx: u16, cy: u16) -> bool {
    forall|i: int| 0 <= i < cells.len() ==> in_spawn_area(#[trigger] cells[i].0, cells[i].1, cx, cy)
}

/// Whether `r` is what a scan of `cells` keeps of `cand` for some fresh draws,
/// one for each cell, all in the spawn area.
pub open spec fn settled_from(
    cells: Seq<(i32, i32)>,
    cand: (i32, i32),
    r: (i32, i32),
    cx: u16,
    cy: u16,
) -> bool {
    exists|fresh: Seq<(i32, i32)>|
        fresh.len() == cells.len() && all_in_spawn_area(fresh, cx, cy) && r
            == #[trigger] scan_then_accept(cells, cand, fresh)
}

/// Whether `cell` is what a scan against the body `segs` and the items
/// `prefix` keeps of some drawn cell of the spawn area.
pub open spec fn placed_by_scan(
    segs: Seq<Segment>,
    prefix: Seq<Item>,
    cell: (i32, i32),
    cx: u16,
    cy: u16,
) -> bool {
    exists|cand: (i32, i32)|
        in_spawn_area(cand.0, cand.1, cx, cy) && #[trigger] settled_from(
            occupied(segs, prefix),
            cand,
            cell,
            cx,
            cy,
        )
}

/// A candidate that lies on none of the cells comes through a scan as it is.
pub proof fn lemma_scan_keeps_free(cells: Seq<(i32, i32)>, cand: (i32, i32), fresh: Seq<(i32, i32)>)
    requires
        !cells.contains(cand),
    ensures
        scan_then_accept(cells, cand, fresh) == cand,
    decreases cells.len(),
{
    if cells.len() > 0 {
        assert(cells[0] != cand);
        assert forall|i: int| 0 <= i < cells.drop_first().len() implies cells.drop_first()[i] != cand by {
            assert(cells.drop_first()[i] == cells[i + 1]);
        }
        lemma_scan_keeps_free(cells.drop_first(), cand, fresh.drop_first());
    }
}

/// A scan of a candidate in the spawn area, with fresh draws in the spawn
/// area, keeps a cell of the spawn area.
pub proof fn lemma_scan_in_area(
    cells: Seq<(i32, i32)>,
    cand: (i32, i32),
    fresh: Seq<(i32, i32)>,
    cx: u16,
    cy: u16,
)
    requires
        in_spawn_area(cand.0, cand.1, cx, cy),
        fresh.len() >= cells.len(),
        all_in_spawn_area(fresh, cx, cy),
    ensures
        ({
            let r = scan_then_accept(cells, cand, fresh);
            in_spawn_area(r.0, r.1, cx, cy)
        }),
    decreases cells.len(),
{
    if cells.len() > 0 {
        let rest = fresh.drop_first();
        assert forall|i: int| 0 <= i < rest.len() implies in_spawn_area(#[trigger] rest[i].0, rest[i].1, cx, cy) by {
            assert(rest[i] == fresh[i + 1]);
        }
        assert(in_spawn_area(fresh[0].0, fresh[0].1, cx, cy));
        let next = if cand == cells[0] {
            fresh[0]
        } else {
            cand
        };
        lemma_scan_in_area(cells.drop_first(), next, rest, cx, cy);
    }
}

/// A cell free of every segment and item is not among the occupied cells.
pub proof fn lemma_free_not_occupied(segs: Seq<Segment>, items: Seq<Item>, x: i32, y: i32)
    requires
        cell_free(segs, items, x, y),
    ensures
        !occupied(segs, items).contains((x, y)),
{
    let cells = occupied(segs, items);
    assert forall|i: int| 0 <= i < cells.len() implies cells[i] != (x, y) by {
        if i < segs.len() {
            assert(!segment_at(segs[i], x, y));
        } else {
            assert(!item_at(items[i - segs.len()], x, y));
        }
    }
}

impl App {
    /// The body has a head.
    pub open spec fn wf(&self) -> bool {
        self.segments@.len() > 0
    }

    /// Steps every segment along its own heading and hands each heading one
    /// segment back towards the tail.
    fn advance_body(&mut self)
        requires
            old(self).wf(),
        ensures
            final(self).segments@ == advanced(old(self).segments@, old(self).canvas_x_length, old(self).canvas_y_length),
            final(self).items == old(self).items,
            final(self).playing == old(self).playing,
            final(self).canvas_x_length == old(self).canvas_x_length,
            final(self).canvas_y_length == old(self).canvas_y_length,
            final(self).need_items_in == old(self).need_items_in,
    {
        let ghost start = self.segments@;
        let n = self.segments.len();
        let cx = self.canvas_x_length;
        let cy = self.canvas_y_length;
        let mut i: usize = 0;
        while i < n
            invariant
                i <= n,
                n == start.len(),
                self.segments@.len() == n,
                cx == self.canvas_x_length,
                cy == self.canvas_y_length,
                self.items == old(self).items,
                self.playing == old(self).playing,
                self.canvas_x_length == old(self).canvas_x_length,
                self.canvas_y_length == old(self).canvas_y_length,
                self.need_items_in == old(self).need_items_in,
                start == old(self).segments@,
                forall|j: int| 0 <= j < i ==> self.segments@[j] == advanced(start, cx, cy)[j],
                forall|j: int| i <= j < n ==> self.segments@[j] == start[j],
            decreases n - i,
        {
            let s = self.segments[i];
            let (x, y) = forward(s.x, s.y, s.direction, cx, cy);
            let direction = if i + 1 < n && s.direction != self.segments[i + 1].direction {
                self.segments[i + 1].direction
            } else {
                s.direction
            };
            self.segments.set(i, Segment { x, y, direction });
            i = i + 1;
        }
        assert(self.segments@ =~= advanced(start, cx, cy));
    }

    /// Adds a new tail one step behind the old one, on the old tail's heading.
    pub fn grow_tail(&mut self)
        requires
            old(self).wf(),
        ensures
            final(self).segments@ == grown(old(self).segments@, old(self).canvas_x_length, old(self).canvas_y_length),
            final(self).items == old(self).items,
            final(self).playing == old(self).playing,
            final(self).canvas_x_length == old(self).canvas_x_length,
            final(self).canvas_y_length == old(self).canvas_y_length,
            final(self).need_items_in == old(self).need_items_in,
    {
        let t = self.segments[0];
        let (x, y) = backward(t.x, t.y, t.direction, self.canvas_x_length, self.canvas_y_length);
        self.segments.insert(0, Segment { x, y, direction: t.direction });
    }

    /// Removes the tail, unless the head is all that is left.
    pub fn shrink_tail(&mut self)
        requires
            old(self).wf(),
        ensures
            final(self).segments@ == shrunk(old(self).segments@),
            final(self).items == old(self).items,
            final(self).playing == old(self).playing,
            final(self).canvas_x_length == old(self).canvas_x_length,
            final(self).canvas_y_length == old(self).canvas_y_length,
            final(self).need_items_in == old(self).need_items_in,
    {
        if self.segments.len() > 1 {
            self.segments.remove(0);
        }
    }

    /// Knocks the head aside towards `turn`: one step along `turn`, then one
    /// step back against the heading of the segment behind it (its own
    /// heading when there is none); head and that segment then travel along
    /// `turn`.
    pub fn deflect_head(&mut self, turn: Direction)
        requires
            old(self).wf(),
        ensures
            final(self).segments@ == deflected(old(self).segments@, turn, old(self).canvas_x_length, old(self).canvas_y_length),
            final(self).items == old(self).items,
            final(self).playing == old(self).playing,
            final(self).canvas_x_length == old(self).canvas_x_length,
            final(self).canvas_y_length == old(self).canvas_y_length,
            final(self).need_items_in == old(self).need_items_in,
    {
        let cx = self.canvas_x_length;
        let cy = self.canvas_y_length;
        let head_index = self.segments.len() - 1;
        let h = self.segments[head_index];
        let back = if head_index >= 1 {
            self.segments[head_index - 1].direction
        } else {
            h.direction
        };
        let (ax, ay) = forward(h.x, h.y, turn, cx, cy);
        let (bx, by) = backward(ax, ay, back, cx, cy);
        self.segments.set(head_index, Segment { x: bx, y: by, direction: turn });
        if head_index >= 1 {
            let neck = self.segments[head_index - 1];
            self.segments.set(head_index - 1, Segment { direction: turn, ..neck });
        }
    }

    /// Cuts off the segments up to and including the first one behind the
    /// head that shares the head's cell; leaves the body alone when there is
    /// none.
    pub fn bite_self(&mut self)
        requires
            old(self).wf(),
        ensures
            no_bite(old(self).segments@) ==> final(self).segments@ == old(self).segments@,
            forall|k: int| #[trigger] first_bite(old(self).segments@, k)
                ==> final(self).segments@ == old(self).segments@.subrange(k + 1, old(self).segments@.len() as int),
            final(self).items == old(self).items,
            final(self).playing == old(self).playing,
            final(self).canvas_x_length == old(self).canvas_x_length,
            final(self).canvas_y_length == old(self).canvas_y_length,
            final(self).need_items_in == old(self).need_items_in,
    {
        let ghost start = self.segments@;
        let n = self.segments.len();
        let head = self.segments[n - 1];
        let initial_body_length = n - 1;
        let mut i: usize = 0;
        while i < initial_body_length
            invariant
                i <= initial_body_length,
                initial_body_length == n - 1,
                n == start.len(),
                head == start[n - 1],
                self.segments@ == start,
                start == old(self).segments@,
                self.items == old(self).items,
                self.playing == old(self).playing,
                self.canvas_x_length == old(self).canvas_x_length,
                self.canvas_y_length == old(self).canvas_y_length,
                self.need_items_in == old(self).need_items_in,
                forall|j: int| 0 <= j < i ==> !segment_at(#[trigger] start[j], head.x, head.y),
            decreases initial_body_length - i,
        {
            if head.x == self.segments[i].x && head.y == self.segments[i].y {
                assert(first_bite(start, i as int));
                assert forall|k: int| #[trigger] first_bite(start, k) implies k == i by {
                    if k < i {
                        assert(!segment_at(start[k], head.x, head.y));
                    } else if k > i {
                        assert(!segment_at(start[i as int], head.x, head.y));
                    }
                }
                while self.segments.len() > initial_body_length - i
                    invariant
                        i < initial_body_length,
                        initial_body_length == n - 1,
                        n == start.len(),
                        initial_body_length - i <= self.segments@.len() <= n,
                        self.segments@ == start.subrange(n as int - self.segments@.len() as int, n as int),
                        self.items == old(self).items,
                        self.playing == old(self).playing,
                        self.canvas_x_length == old(self).canvas_x_length,
                        self.canvas_y_length == old(self).canvas_y_length,
                        self.need_items_in == old(self).need_items_in,
                    decreases self.segments@.len(),
                {
                    self.segments.remove(0);
                    assert(self.segments@ =~= start.subrange(n as int - self.segments@.len() as int, n as int));
                }
                return;
            }
            i = i + 1;
        }
        assert(self.segments@ =~= start);
    }

    /// One tick of the game: the body advances, then the first item on the
    /// head's cell is taken and works its effect, or, with none there, a head
    /// that has run into its own body bites the body off behind it. A boulder
    /// knocks the head aside to the left or the right of its heading, at
    /// random, and is put back on the cell the head had reached.
    pub fn update(&mut self)
        requires
            old(self).wf(),
        ensures
            tick_outcome(
                old(self).segments@,
                old(self).items@,
                old(self).canvas_x_length,
                old(self).canvas_y_length,
                final(self).segments@,
                final(self).items@,
            ),
            final(self).playing == old(self).playing,
            final(self).canvas_x_length == old(self).canvas_x_length,
            final(self).canvas_y_length == old(self).canvas_y_length,
            final(self).need_items_in == old(self).need_items_in,
    {
        let ghost items0 = self.items@;
        self.advance_body();
        let ghost adv = self.segments@;
        let n = self.segments.len();
        let head = self.segments[n - 1];
        let mut i: usize = 0;
        while i < self.items.len()
            invariant
                self.items@ == items0,
                items0 == old(self).items@,
                self.segments@ == adv,
                adv == advanced(old(self).segments@, old(self).canvas_x_length, old(self).canvas_y_length),
                n == adv.len(),
                n > 0,
                head == adv[n - 1],
                i <= items0.len(),
                self.playing == old(self).playing,
                self.canvas_x_length == old(self).canvas_x_length,
                self.canvas_y_length == old(self).canvas_y_length,
                self.need_items_in == old(self).need_items_in,
                forall|j: int| 0 <= j < i ==> !item_at(#[trigger] items0[j], head.x, head.y),
            decreases self.items@.len() - i,
        {
            if head.x == self.items[i].x && head.y == self.items[i].y {
                assert(first_item_at(items0, head.x, head.y, i as int));
                assert forall|k: int| #[trigger] first_item_at(items0, head.x, head.y, k) implies k == i by {
                    if k < i {
                        assert(!item_at(items0[k], head.x, head.y));
                    } else if k > i {
                        assert(!item_at(items0[i as int], head.x, head.y));
                    }
                }
                let taken = self.items.remove(i);
                match taken.item_type {
                    ItemType::Apple | ItemType::Mushroom => self.grow_tail(),
                    ItemType::Hedgehog => self.shrink_tail(),
                    ItemType::Boulder => {
                        let mut rng = fresh_rng();
                        let options = if head.direction == Direction::Up || head.direction == Direction::Down {
                            vec![Direction::Right, Direction::Left]
                        } else {
                            vec![Direction::Up, Direction::Down]
                        };
                        let turn = choose_one(&mut rng, options.as_slice());
                        assert(perpendicular(turn, head.direction));
                        self.deflect_head(turn);
                        self.items.push(Item { item_type: ItemType::Boulder, x: head.x, y: head.y });
                    },
                }
                return;
            }
            i = i + 1;
        }
        self.bite_self();
    }

    /// Draws a cell of the spawn area at random.
    fn draw_cell(&self, rng: &mut rand::rngs::ThreadRng) -> (r: (i32, i32))
        requires
            self.canvas_x_length > 3,
            self.canvas_y_length > 2,
        ensures
            in_spawn_area(r.0, r.1, self.canvas_x_length, self.canvas_y_length),
    {
        let x = draw_between(rng, 2, self.canvas_x_length as i32 - 1);
        let y = draw_between(rng, 1, self.canvas_y_length as i32 - 1);
        (x, y)
    }

    /// Draws one fresh cell of the spawn area for each segment and item.
    fn draw_fresh(&self, rng: &mut rand::rngs::ThreadRng) -> (r: Vec<(i32, i32)>)
        requires
            self.canvas_x_length > 3,
            self.canvas_y_length > 2,
        ensures
            r@.len() == occupied(self.segments@, self.items@).len(),
            all_in_spawn_area(r@, self.canvas_x_length, self.canvas_y_length),
    {
        let mut fresh: Vec<(i32, i32)> = Vec::new();
        let mut i: usize = 0;
        while i < self.segments.len()
            invariant
                self.canvas_x_length > 3,
                self.canvas_y_length > 2,
                i <= self.segments@.len(),
                fresh@.len() == i,
                all_in_spawn_area(fresh@, self.canvas_x_length, self.canvas_y_length),
            decreases self.segments@.len() - i,
        {
            let cell = self.draw_cell(rng);
            fresh.push(cell);
            i = i + 1;
        }
        let mut j: usize = 0;
        while j < self.items.len()
            invariant
                self.canvas_x_length > 3,
                self.canvas_y_length > 2,
                j <= self.items@.len(),
                fresh@.len() == self.segments@.len() + j,
                all_in_spawn_area(fresh@, self.canvas_x_length, self.canvas_y_length),
            decreases self.items@.len() - j,
        {
            let cell = self.draw_cell(rng);
            fresh.push(cell);
            j = j + 1;
        }
        fresh
    }

    /// Checks the cell `(x, y)` once against every segment and then every
    /// item, in order, and moves to the matching cell of `fresh` each time the
    /// current cell is taken. A replacement is checked only against what is
    /// scanned after it.
    pub fn settle_cell_with(&self, x: i32, y: i32, fresh: &Vec<(i32, i32)>) -> (r: (i32, i32))
        requires
            fresh@.len() == self.segments@.len() + self.items@.len(),
        ensures
            r == scan_then_accept(occupied(self.segments@, self.items@), (x, y), fresh@),
    {
        let ghost cells = occupied(self.segments@, self.items@);
        let ns = self.segments.len();
        let total = fresh.len();
        let mut cur: (i32, i32) = (x, y);
        let mut i: usize = 0;
        assert(cells.skip(0) =~= cells);
        assert(fresh@.skip(0) =~= fresh@);
        while i < total
            invariant
                cells == occupied(self.segments@, self.items@),
                ns == self.segments@.len(),
                total == cells.len(),
                fresh@.len() == total,
                i <= total,
                scan_then_accept(cells, (x, y), fresh@) == scan_then_accept(
                    cells.skip(i as int),
                    cur,
                    fresh@.skip(i as int),
                ),
            decreases total - i,
        {
            proof {
                assert(cells.skip(i as int).drop_first() =~= cells.skip(i + 1));
                assert(fresh@.skip(i as int).drop_first() =~= fresh@.skip(i + 1));
            }
            let (cell_x, cell_y) = if i < ns {
                (self.segments[i].x, self.segments[i].y)
            } else {
                (self.items[i - ns].x, self.items[i - ns].y)
            };
            if cell_x == cur.0 && cell_y == cur.1 {
                cur = fresh[i];
            }
            i = i + 1;
        }
        cur
    }

    /// Settles the cell `(x, y)` by a scan-then-accept pass whose
    /// replacements are drawn at random from the spawn area: a free cell is
    /// kept as it is, and a taken one is replaced by a cell that is free at
    /// best.
    pub fn settle_cell(&self, rng: &mut rand::rngs::ThreadRng, x: i32, y: i32) -> (r: (i32, i32))
        requires
            self.canvas_x_length > 3,
            self.canvas_y_length > 2,
            in_spawn_area(x, y, self.canvas_x_length, self.canvas_y_length),
        ensures
            in_spawn_area(r.0, r.1, self.canvas_x_length, self.canvas_y_length),
            settled_from(occupied(self.segments@, self.items@), (x, y), r, self.canvas_x_length, self.canvas_y_length),
            cell_free(self.segments@, self.items@, x, y) ==> r == (x, y),
    {
        let fresh = self.draw_fresh(rng);
        let r = self.settle_cell_with(x, y, &fresh);
        proof {
            let cells = occupied(self.segments@, self.items@);
            lemma_scan_in_area(cells, (x, y), fresh@, self.canvas_x_length, self.canvas_y_length);
            if cell_free(self.segments@, self.items@, x, y) {
                lemma_free_not_occupied(self.segments@, self.items@, x, y);
                lemma_scan_keeps_free(cells, (x, y), fresh@);
            }
        }
        r
    }

    /// One round of placement: puts an item of kind `kind` on the cell that a
    /// scan of `(x, y)` with replacements `fresh` keeps, and goes on to
    /// another round exactly when `again`, the outcome of the one-in-five
    /// draw, holds.
    pub fn place_round(
        &mut self,
        x: i32,
        y: i32,
        fresh: &Vec<(i32, i32)>,
        kind: ItemType,
        again: bool,
    ) -> (more: bool)
        requires
            fresh@.len() == old(self).segments@.len() + old(self).items@.len(),
        ensures
            more == again,
            ({
                let cell = scan_then_accept(occupied(old(self).segments@, old(self).items@), (x, y), fresh@);
                final(self).items@ == old(self).items@.push(Item { item_type: kind, x: cell.0, y: cell.1 })
            }),
            final(self).segments == old(self).segments,
            final(self).playing == old(self).playing,
            final(self).canvas_x_length == old(self).canvas_x_length,
            final(self).canvas_y_length == old(self).canvas_y_length,
            final(self).need_items_in == old(self).need_items_in,
    {
        let (cx, cy) = self.settle_cell_with(x, y, fresh);
        self.items.push(Item { item_type: kind, x: cx, y: cy });
        again
    }

    /// Places items at random: first an apple or a mushroom, then, each time
    /// with chance one in five, one more item that is a hedgehog or a
    /// boulder. Each item lands on the cell that a scan-then-accept pass,
    /// against the body and the items before it, keeps of a cell drawn from
    /// the spawn area; the body and the items already there are kept.
    pub fn generate_item(&mut self)
        requires
            old(self).canvas_x_length > 3,
            old(self).canvas_y_length > 2,
        ensures
            placed(old(self).items@, final(self).items@, old(self).canvas_x_length, old(self).canvas_y_length),
            forall|k: int|
                old(self).items@.len() <= k < final(self).items@.len() ==> placed_by_scan(
                    old(self).segments@,
                    final(self).items@.subrange(0, k),
                    (#[trigger] final(self).items@[k].x, final(self).items@[k].y),
                    old(self).canvas_x_length,
                    old(self).canvas_y_length,
                ),
            final(self).segments == old(self).segments,
            final(self).playing == old(self).playing,
            final(self).canvas_x_length == old(self).canvas_x_length,
            final(self).canvas_y_length == old(self).canvas_y_length,
            final(self).need_items_in == old(self).need_items_in,
    {
        let ghost n0 = self.items@.len();
        let mut generate_destructive_item = false;
        let mut rng = fresh_rng();
        let mut more = true;
        while more
            invariant
                self.canvas_x_length > 3,
                self.canvas_y_length > 2,
                n0 == old(self).items@.len(),
                self.items@.len() >= n0,
                more || self.items@.len() > n0,
                more ==> generate_destructive_item == (self.items@.len() > n0),
                self.items@.subrange(0, n0 as int) == old(self).items@,
                self.items@.len() > n0 ==> is_beneficial(self.items@[n0 as int].item_type),
                forall|k: int| n0 < k < self.items@.len() ==> !is_beneficial(#[trigger] self.items@[k].item_type),
                forall|k: int|
                    n0 <= k < self.items@.len()
                        ==> in_spawn_area(#[trigger] self.items@[k].x, self.items@[k].y, self.canvas_x_length, self.canvas_y_length),
                forall|k: int|
                    n0 <= k < self.items@.len() ==> placed_by_scan(
                        self.segments@,
                        self.items@.subrange(0, k),
                        (#[trigger] self.items@[k].x, self.items@[k].y),
                        self.canvas_x_length,
                        self.canvas_y_length,
                    ),
                self.segments == old(self).segments,
                self.playing == old(self).playing,
                self.canvas_x_length == old(self).canvas_x_length,
                self.canvas_y_length == old(self).canvas_y_length,
                self.need_items_in == old(self).need_items_in,
            decreases usize::MAX - self.items@.len() + (if more { 1int } else { 0int }),
        {
            let (x0, y0) = self.draw_cell(&mut rng);
            let fresh = self.draw_fresh(&mut rng);
            let kinds = if generate_destructive_item {
                vec![ItemType::Hedgehog, ItemType::Boulder]
            } else {
                vec![ItemType::Apple, ItemType::Mushroom]
            };
            let item_type = choose_one(&mut rng, kinds.as_slice());
            let again = chance_of(&mut rng, 1, 5);
            let ghost before = self.items@;
            let ghost cx = self.canvas_x_length;
            let ghost cy = self.canvas_y_length;
            more = self.place_round(x0, y0, &fresh, item_type, again);
            proof {
                let cells = occupied(self.segments@, before);
                let cell = scan_then_accept(cells, (x0, y0), fresh@);
                lemma_scan_in_area(cells, (x0, y0), fresh@, cx, cy);
                assert(settled_from(cells, (x0, y0), cell, cx, cy));
                assert(self.items@.subrange(0, n0 as int) =~= before.subrange(0, n0 as int));
                assert forall|k: int| n0 <= k < self.items@.len() implies placed_by_scan(
                    self.segments@,
                    self.items@.subrange(0, k),
                    (#[trigger] self.items@[k].x, self.items@[k].y),
                    cx,
                    cy,
                ) by {
                    if k < before.len() {
                        assert(self.items@.subrange(0, k) =~= before.subrange(0, k));
                        assert(self.items@[k] == before[k]);
                    } else {
                        assert(self.items@.subrange(0, k) =~= before);
                    }
                }
            }
            // The new length is that of a live vector, so it fits a usize.
            let _ = self.items.len();
            generate_destructive_item = true;
        }
    }

    /// A new game: a straight body of thirteen segments along the top row,
    /// from column 1 to column 13, heading right; no items; a ten by ten
    /// canvas; items due at once; not yet playing.
    pub fn new() -> (r: App)
        ensures
            r.segments@.len() == 13,
            forall|i: int|
                0 <= i < 13 ==> #[trigger] r.segments@[i] == (Segment { x: (i + 1) as i32, y: 0, direction: Direction::Right }),
            r.items@.len() == 0,
            !r.playing,
            r.canvas_x_length == 10,
            r.canvas_y_length == 10,
            r.need_items_in == 0,
    {
        let segments = vec![
            Segment::default(),
            Segment { x: 2, ..Segment::default() },
            Segment { x: 3, ..Segment::default() },
            Segment { x: 4, ..Segment::default() },
            Segment { x: 5, ..Segment::default() },
            Segment { x: 6, ..Segment::default() },
            Segment { x: 7, ..Segment::default() },
            Segment { x: 8, ..Segment::default() },
            Segment { x: 9, ..Segment::default() },
            Segment { x: 10, ..Segment::default() },
            Segment { x: 11, ..Segment::default() },
            Segment { x: 12, ..Segment::default() },
            Segment { x: 13, ..Segment::default() },
        ];
        App {
            segments,
            items: Vec::new(),
            playing: false,
            canvas_x_length: 10,
            canvas_y_length: 10,
            need_items_in: 0,
        }
    }

    /// Points the head along `direction`, whatever its heading was.
    pub fn set_heading(&mut self, direction: Direction)
        requires
            old(self).wf(),
        ensures
            final(self).segments@ == old(self).segments@.update(
                old(self).segments@.len() - 1,
                Segment { direction, ..old(self).segments@[old(self).segments@.len() - 1] },
            ),
            final(self).items == old(self).items,
            final(self).playing == old(self).playing,
            final(self).canvas_x_length == old(self).canvas_x_length,
            final(self).canvas_y_length == old(self).canvas_y_length,
            final(self).need_items_in == old(self).need_items_in,
    {
        let head_index = self.segments.len() - 1;
        let head = self.segments[head_index];
        self.segments.set(head_index, Segment { direction, ..head });
    }

    /// Turns the head towards `direction` as the player asks, except that a
    /// request to reverse the current heading is ignored.
    pub fn steer(&mut self, direction: Direction)
        requires
            old(self).wf(),
        ensures
            ({
                let segs = old(self).segments@;
                let h = segs[segs.len() - 1];
                final(self).segments@ == if direction == opposite(h.direction) {
                    segs
                } else {
                    segs.update(segs.len() - 1, Segment { direction, ..h })
                }
            }),
            final(self).items == old(self).items,
            final(self).playing == old(self).playing,
            final(self).canvas_x_length == old(self).canvas_x_length,
            final(self).canvas_y_length == old(self).canvas_y_length,
            final(self).need_items_in == old(self).need_items_in,
    {
        let current = self.segments[self.segments.len() - 1].direction;
        if direction != opposite_of(current) {
            self.set_heading(direction);
        }
    }

    /// Sets the extents of the canvas that coordinates wrap on.
    pub fn resize_canvas(&mut self, width: u16, height: u16)
        ensures
            final(self).canvas_x_length == width,
            final(self).canvas_y_length == height,
            final(self).segments == old(self).segments,
            final(self).items == old(self).items,
            final(self).playing == old(self).playing,
            final(self).need_items_in == old(self).need_items_in,
    {
        self.canvas_x_length = width;
        self.canvas_y_length = height;
    }

    /// Counts one tick towards the next placement: when the count is zero,
    /// places items and starts a new count of fifteen ticks; either way
    /// counts the current tick off.
    pub fn maybe_generate_item(&mut self)
        requires
            old(self).need_items_in == 0 ==> old(self).canvas_x_length > 3 && old(self).canvas_y_length > 2,
        ensures
            old(self).need_items_in == 0 ==> {
                &&& placed(old(self).items@, final(self).items@, old(self).canvas_x_length, old(self).canvas_y_length)
                &&& final(self).need_items_in == ITEM_INTERVAL - 1
            },
            old(self).need_items_in != 0 ==> {
                &&& final(self).items == old(self).items
                &&& final(self).need_items_in == old(self).need_items_in - 1
            },
            final(self).segments == old(self).segments,
            final(self).playing == old(self).playing,
            final(self).canvas_x_length == old(self).canvas_x_length,
            final(self).canvas_y_length == old(self).canvas_y_length,
    {
        if self.need_items_in == 0 {
            self.generate_item();
            self.need_items_in = ITEM_INTERVAL;
        }
        self.need_items_in = self.need_items_in - 1;
    }
}

} // verus!
