//! Session controller: turns one discrete user command into a history-ring
//! transition and tells the surrounding event loop what to do next. The loop
//! itself — polling input, blitting, writing files — stays outside the
//! library; it only performs the returned action.

use vstd::prelude::*;
use crate::grid::{click_x_ok, click_y_ok, grid_wf, zoom_grid, Grid};
use crate::history::{advance_index, history_wf, retreat_index, History};

verus! {

/// First number used in exported image file names.
pub const FIRST_IMAGE_NUMBER: u64 = 23;

/// One discrete user command that reaches the core. Window-only events
/// (resize, scale-factor changes) never do; the event loop handles them.
#[derive(Clone, Copy, PartialEq, Eq, Structural, Debug)]
pub enum Command {
    Quit,
    ZoomIn(usize, usize),
    ZoomOut,
    SaveImage,
}

/// What the event loop should do after a command was applied.
#[derive(Clone, Copy, PartialEq, Eq, Structural, Debug)]
pub enum Action {
    Exit,
    Redraw,
    Export(u64),
}

/// The core's whole state between commands: the grid history and the
/// counter for exported file names.
pub struct Session {
    pub history: History,
    pub image_count: u64,
}

impl Session {
    /// Start a session on the given initial grid.
    pub fn new(initial: Grid) -> (s: Session)
        requires
            grid_wf(initial@),
        ensures
            history_wf(s.history@),
            s.history@.index == 0,
            forall|k: int| 0 <= k < s.history@.slots.len() ==> s.history@.slots[k] == initial@,
            s.image_count == FIRST_IMAGE_NUMBER,
    {
        Session { history: History::new(initial), image_count: FIRST_IMAGE_NUMBER }
    }

    /// Apply one command: zooming moves the history ring, saving hands out
    /// the next file number, quitting changes nothing.
    pub fn handle(&mut self, cmd: Command) -> (action: Action)
        requires
            history_wf(old(self).history@),
            old(self).image_count < u64::MAX,
            cmd matches Command::ZoomIn(cx, cy) ==> click_x_ok(cx as int) && click_y_ok(cy as int),
        ensures
            history_wf(final(self).history@),
            match cmd {
                Command::Quit => {
                    &&& action == Action::Exit
                    &&& final(self).history@ == old(self).history@
                    &&& final(self).image_count == old(self).image_count
                },
                Command::ZoomIn(cx, cy) => {
                    &&& action == Action::Redraw
                    &&& final(self).history@.index == advance_index(old(self).history@.index)
                    &&& final(self).history@.slots == old(self).history@.slots.update(
                        advance_index(old(self).history@.index),
                        zoom_grid(
                            old(self).history@.slots[old(self).history@.index],
                            cx as int,
                            cy as int,
                        ),
                    )
                    &&& final(self).image_count == old(self).image_count
                },
                Command::ZoomOut => {
                    &&& action == Action::Redraw
                    &&& final(self).history@.slots == old(self).history@.slots
                    &&& final(self).history@.index == retreat_index(old(self).history@.index)
                    &&& final(self).image_count == old(self).image_count
                },
                Command::SaveImage => {
                    &&& action == Action::Export(old(self).image_count)
                    &&& final(self).history@ == old(self).history@
                    &&& final(self).image_count == old(self).image_count + 1
                },
            },
    {
        match cmd {
            Command::Quit => Action::Exit,
            Command::ZoomIn(cx, cy) => {
                self.history.advance(cx, cy);
                Action::Redraw
            },
            Command::ZoomOut => {
                self.history.retreat();
                Action::Redraw
            },
            Command::SaveImage => {
                let n: u64 = self.image_count;
                self.image_count = n + 1;
                Action::Export(n)
            },
        }
    }
}

} // verus!
