//! History ring: a fixed ring of ten grids plus the index of the one on
//! screen. Zooming in writes the next slot and moves forward, wrapping from
//! the last slot back to slot 1 so that slot 0 — the initial full view — is
//! never overwritten. Zooming out only moves the index back, clamping at
//! slot 0, and recomputes nothing.

use vstd::prelude::*;
use crate::HISTORY_SLOTS;
use crate::grid::{click_x_ok, click_y_ok, grid_wf, init_new_space, zoom_grid, Grid, GridView};

verus! {

/// Mathematical content of the ring: the stored grids and the current index.
#[verifier::ext_equal]
pub struct HistoryView {
    pub slots: Seq<GridView>,
    pub index: int,
}

/// The ring itself. Every slot holds a grid from the start (slot 0's initial
/// grid fills the unused ones), so the index always points at a usable view.
pub struct History {
    slots: Vec<Grid>,
    index: usize,
}

impl View for History {
    type V = HistoryView;

    closed spec fn view(&self) -> HistoryView {
        HistoryView {
            slots: self.slots@.map_values(|g: Grid| g@),
            index: self.index as int,
        }
    }
}

/// A well-formed ring: exactly `HISTORY_SLOTS` slots, all holding
/// well-formed grids, with the index inside the ring.
pub open spec fn history_wf(hv: HistoryView) -> bool {
    &&& hv.slots.len() == HISTORY_SLOTS
    &&& 0 <= hv.index < HISTORY_SLOTS
    &&& forall|k: int| 0 <= k < hv.slots.len() ==> grid_wf(#[trigger] hv.slots[k])
}

/// Where a zoom-in lands: the next slot, except that the last slot wraps to
/// slot 1, never back onto slot 0.
pub open spec fn advance_index(i: int) -> int {
    if i == HISTORY_SLOTS - 1 {
        1
    } else {
        i + 1
    }
}

/// Where a zoom-out lands: one slot back, clamped at slot 0.
pub open spec fn retreat_index(i: int) -> int {
    if i == 0 {
        0
    } else {
        i - 1
    }
}

impl History {
    /// Start a ring with the given grid everywhere and the index on slot 0.
    pub fn new(initial: Grid) -> (h: History)
        requires
            grid_wf(initial@),
        ensures
            history_wf(h@),
            h@.index == 0,
            forall|k: int| 0 <= k < HISTORY_SLOTS ==> h@.slots[k] == initial@,
    {
        let mut slots: Vec<Grid> = Vec::new();
        let mut k: usize = 0;
        while k < HISTORY_SLOTS
            invariant
                k <= HISTORY_SLOTS,
                slots@.len() == k,
                grid_wf(initial@),
                forall|t: int| 0 <= t < k ==> #[trigger] slots@[t]@ == initial@,
            decreases HISTORY_SLOTS - k,
        {
            slots.push(initial.clone());
            k = k + 1;
        }
        History { slots, index: 0 }
    }

    /// The grid currently on screen.
    pub fn current(&self) -> (g: &Grid)
        requires
            history_wf(self@),
        ensures
            g@ == self@.slots[self@.index],
    {
        &self.slots[self.index]
    }

    /// The slot the ring currently points at.
    pub fn index(&self) -> (i: usize)
        ensures
            i == self@.index,
    {
        self.index
    }

    /// Zoom in: recenter the current grid around the clicked pixel, store
    /// the result in the next slot (wrapping past the end to slot 1), and
    /// point at it. Slot 0 is never touched.
    pub fn advance(&mut self, click_x: usize, click_y: usize)
        requires
            history_wf(old(self)@),
            click_x_ok(click_x as int),
            click_y_ok(click_y as int),
        ensures
            history_wf(final(self)@),
            final(self)@.index == advance_index(old(self)@.index),
            final(self)@.slots == old(self)@.slots.update(
                advance_index(old(self)@.index),
                zoom_grid(old(self)@.slots[old(self)@.index], click_x as int, click_y as int),
            ),
            final(self)@.slots[0] == old(self)@.slots[0],
    {
        proof {
            assert(self@.slots[self.index as int] == self.slots@[self.index as int]@);
        }
        let g = init_new_space(&self.slots[self.index], click_x, click_y);
        let target: usize = if self.index == HISTORY_SLOTS - 1 {
            1
        } else {
            self.index + 1
        };
        self.slots[target] = g;
        self.index = target;
        proof {
            assert(self@.slots =~= old(self)@.slots.update(
                advance_index(old(self)@.index),
                zoom_grid(old(self)@.slots[old(self)@.index], click_x as int, click_y as int),
            ));
        }
    }

    /// Zoom out: step the index back one slot, staying put at slot 0. The
    /// stored grids are untouched.
    pub fn retreat(&mut self)
        requires
            history_wf(old(self)@),
        ensures
            history_wf(final(self)@),
            final(self)@.slots == old(self)@.slots,
            final(self)@.index == retreat_index(old(self)@.index),
    {
        if self.index > 0 {
            self.index = self.index - 1;
        }
    }
}

} // verus!
