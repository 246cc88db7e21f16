use mandelbrot::grid::{init_new_space, init_og_space, Grid, X_MAX, X_MIN, Y_MAX, Y_MIN};
use mandelbrot::{SCREEN_HEIGHT, SCREEN_WIDTH};

#[test]
fn initial_grid_endpoints_exact() {
    let g = init_og_space();
    assert_eq!(g.x.len(), SCREEN_WIDTH);
    assert_eq!(g.y.len(), SCREEN_HEIGHT);
    assert_eq!(g.x[0], X_MIN);
    assert_eq!(g.x[SCREEN_WIDTH - 1], X_MAX);
    assert_eq!(g.y[0], Y_MAX);
    assert_eq!(g.y[SCREEN_HEIGHT - 1], Y_MIN);
}

#[test]
fn initial_grid_interior_steps() {
    let g = init_og_space();
    let dx = (X_MAX - X_MIN) / (SCREEN_WIDTH as i64);
    let dy = (Y_MAX - Y_MIN) / (SCREEN_HEIGHT as i64);
    assert_eq!(g.x[1], X_MIN + dx);
    assert_eq!(g.x[2], X_MIN + 2 * dx);
    assert_eq!(g.y[1], Y_MAX - dy);
    assert_eq!(g.y[2], Y_MAX - 2 * dy);
}

#[test]
fn initial_grid_monotone() {
    let g = init_og_space();
    for i in 1..g.x.len() {
        assert!(g.x[i - 1] <= g.x[i]);
    }
    for j in 1..g.y.len() {
        assert!(g.y[j - 1] >= g.y[j]);
    }
}

#[test]
fn recentered_grid_middle_click() {
    let g = init_og_space();
    let cx = 960;
    let cy = 540;
    let z = init_new_space(&g, cx, cy);
    assert_eq!(z.x[0], g.x[cx - 48]);
    assert_eq!(z.x[SCREEN_WIDTH - 1], g.x[cx + 48]);
    assert_eq!(z.y[0], g.y[cy - 27]);
    assert_eq!(z.y[SCREEN_HEIGHT - 1], g.y[cy + 27]);
    for i in 1..z.x.len() {
        assert!(z.x[i - 1] <= z.x[i]);
    }
    for j in 1..z.y.len() {
        assert!(z.y[j - 1] >= z.y[j]);
    }
}

#[test]
fn recentered_grid_edge_clicks() {
    let g = init_og_space();
    // Left edge: the window starts at the clicked column itself.
    let z = init_new_space(&g, 10, 540);
    assert_eq!(z.x[0], g.x[10]);
    assert_eq!(z.x[SCREEN_WIDTH - 1], g.x[10 + 96]);
    // Right edge: the window ends at the clicked column.
    let z = init_new_space(&g, 1900, 540);
    assert_eq!(z.x[0], g.x[1900 - 96]);
    assert_eq!(z.x[SCREEN_WIDTH - 1], g.x[1900]);
    // Top edge: the window starts at the clicked row.
    let z = init_new_space(&g, 960, 5);
    assert_eq!(z.y[0], g.y[5]);
    assert_eq!(z.y[SCREEN_HEIGHT - 1], g.y[5 + 54]);
    // Bottom edge: the window ends at the clicked row.
    let z = init_new_space(&g, 960, 1070);
    assert_eq!(z.y[0], g.y[1070 - 54]);
    assert_eq!(z.y[SCREEN_HEIGHT - 1], g.y[1070]);
}

#[test]
fn recentered_grid_stays_inside_old_bounds() {
    let g = init_og_space();
    let z = init_new_space(&g, 100, 100);
    assert!(z.x[0] >= X_MIN && z.x[SCREEN_WIDTH - 1] <= X_MAX);
    assert!(z.y[SCREEN_HEIGHT - 1] >= Y_MIN && z.y[0] <= Y_MAX);
    let zz = init_new_space(&z, 1900, 1070);
    assert!(zz.x[0] >= z.x[0] && zz.x[SCREEN_WIDTH - 1] <= z.x[SCREEN_WIDTH - 1]);
}

#[test]
fn grid_clone_matches() {
    let g = init_og_space();
    let c: Grid = g.clone();
    assert_eq!(g.x, c.x);
    assert_eq!(g.y, c.y);
}
