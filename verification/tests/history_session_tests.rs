use mandelbrot::grid::init_og_space;
use mandelbrot::history::History;
use mandelbrot::session::{Action, Command, Session, FIRST_IMAGE_NUMBER};

#[test]
fn nine_zooms_reach_last_slot_and_tenth_wraps_to_one() {
    let initial = init_og_space();
    let mut h = History::new(initial.clone());
    assert_eq!(h.index(), 0);
    for step in 1..=9 {
        h.advance(960, 540);
        assert_eq!(h.index(), step);
    }
    h.advance(960, 540);
    assert_eq!(h.index(), 1);
    // Slot 0 still holds the initial grid: retreating to the floor exposes it.
    h.retreat();
    assert_eq!(h.index(), 0);
    assert_eq!(h.current().x, initial.x);
    assert_eq!(h.current().y, initial.y);
}

#[test]
fn retreat_clamps_at_slot_zero() {
    let mut h = History::new(init_og_space());
    h.retreat();
    assert_eq!(h.index(), 0);
    h.advance(100, 100);
    assert_eq!(h.index(), 1);
    h.retreat();
    h.retreat();
    h.retreat();
    assert_eq!(h.index(), 0);
}

#[test]
fn retreat_re_exposes_the_stored_grid() {
    let mut h = History::new(init_og_space());
    let before = h.current().clone();
    h.advance(960, 540);
    let zoomed = h.current().clone();
    assert_ne!(before.x, zoomed.x);
    h.retreat();
    assert_eq!(h.current().x, before.x);
    assert_eq!(h.current().y, before.y);
}

#[test]
fn advance_recenters_around_the_click() {
    let mut h = History::new(init_og_space());
    let old = h.current().clone();
    h.advance(960, 540);
    let new = h.current();
    assert_eq!(new.x[0], old.x[960 - 48]);
    assert_eq!(new.x[new.x.len() - 1], old.x[960 + 48]);
    assert_eq!(new.y[0], old.y[540 - 27]);
    assert_eq!(new.y[new.y.len() - 1], old.y[540 + 27]);
}

#[test]
fn session_commands_drive_the_ring() {
    let mut s = Session::new(init_og_space());
    assert_eq!(s.handle(Command::ZoomIn(960, 540)), Action::Redraw);
    assert_eq!(s.history.index(), 1);
    assert_eq!(s.handle(Command::ZoomOut), Action::Redraw);
    assert_eq!(s.history.index(), 0);
    assert_eq!(s.handle(Command::Quit), Action::Exit);
    assert_eq!(s.history.index(), 0);
}

#[test]
fn export_numbers_count_up_from_the_fixed_offset() {
    let mut s = Session::new(init_og_space());
    assert_eq!(s.handle(Command::SaveImage), Action::Export(FIRST_IMAGE_NUMBER));
    assert_eq!(s.handle(Command::SaveImage), Action::Export(FIRST_IMAGE_NUMBER + 1));
    assert_eq!(s.handle(Command::ZoomIn(200, 200)), Action::Redraw);
    assert_eq!(s.handle(Command::SaveImage), Action::Export(FIRST_IMAGE_NUMBER + 2));
}
