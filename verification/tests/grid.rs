use ruview_swarm::navigation_lab::grid::{grid_search, PlanError, CELLS, LAYER};

fn cell(x: usize, y: usize, z: usize) -> usize {
    x + 32 * (y + 24 * z)
}

fn coords(id: usize) -> (usize, usize, usize) {
    (id % 32, (id / 32) % 24, id / LAYER)
}

/// Every in-world move is clear unless it enters or leaves a blocked cell.
fn clear_moves(blocked: &dyn Fn(usize, usize, usize) -> bool) -> Vec<bool> {
    let mut clear = vec![false; 6 * CELLS];
    for id in 0..CELLS {
        let (x, y, z) = coords(id);
        let inside = |ok: bool, t: (usize, usize, usize)| if ok { Some(t) } else { None };
        let targets = [
            inside(x > 0, (x.wrapping_sub(1), y, z)),
            inside(x < 31, (x + 1, y, z)),
            inside(y > 0, (x, y.wrapping_sub(1), z)),
            inside(y < 23, (x, y + 1, z)),
            inside(z > 0, (x, y, z.wrapping_sub(1))),
            inside(z < 11, (x, y, z + 1)),
        ];
        for (k, target) in targets.iter().enumerate() {
            if let Some((a, b, c)) = target {
                clear[6 * id + k] = !blocked(x, y, z) && !blocked(*a, *b, *c);
            }
        }
    }
    clear
}

fn assert_route(route: &[usize], start: usize, goal: usize, clear: &[bool]) {
    assert_eq!(route.first(), Some(&start));
    assert_eq!(route.last(), Some(&goal));
    for pair in route.windows(2) {
        let (a, b) = (pair[0], pair[1]);
        let (ax, ay, az) = coords(a);
        let (bx, by, bz) = coords(b);
        let d = ax.abs_diff(bx) + ay.abs_diff(by) + az.abs_diff(bz);
        assert_eq!(d, 1);
        let k = if bx < ax { 0 } else if bx > ax { 1 } else if by < ay { 2 } else if by > ay { 3 } else if bz < az { 4 } else { 5 };
        assert!(clear[6 * a + k]);
    }
}

#[test]
fn open_world_routes_are_shortest_unit_moves() {
    let clear = clear_moves(&|_, _, _| false);
    let start = cell(2, 3, 2);
    let goal = cell(29, 21, 2);
    let route = grid_search(start, goal, CELLS, &clear).unwrap();
    assert_route(&route.cells, start, goal, &clear);
    assert_eq!(route.cells.len(), 27 + 18 + 1);
    assert!(route.expanded >= route.cells.len());
}

#[test]
fn walls_force_a_vertical_detour() {
    let wall = |x: usize, _y: usize, z: usize| x == 13 && z <= 4;
    let clear = clear_moves(&wall);
    let start = cell(2, 3, 2);
    let goal = cell(29, 21, 2);
    let route = grid_search(start, goal, CELLS, &clear).unwrap();
    assert_route(&route.cells, start, goal, &clear);
    assert!(route.cells.iter().any(|c| coords(*c).2 > 4));
}

#[test]
fn blocked_has_no_route_and_no_fallback() {
    let wall = |x: usize, _y: usize, _z: usize| x == 15;
    let clear = clear_moves(&wall);
    assert_eq!(
        grid_search(cell(2, 3, 2), cell(29, 21, 2), CELLS, &clear).err(),
        Some(PlanError::NoRoute)
    );
}

#[test]
fn budget_exhaustion_is_explicit() {
    let clear = clear_moves(&|_, _, _| false);
    assert_eq!(
        grid_search(cell(2, 3, 2), cell(29, 21, 2), 0, &clear).err(),
        Some(PlanError::Budget)
    );
    assert_eq!(
        grid_search(cell(2, 3, 2), cell(29, 21, 2), 10, &clear).err(),
        Some(PlanError::Budget)
    );
    let route = grid_search(cell(2, 3, 2), cell(3, 3, 2), 2, &clear).unwrap();
    assert_eq!(route.cells, vec![cell(2, 3, 2), cell(3, 3, 2)]);
    assert_eq!(route.expanded, 2);
}

#[test]
fn start_equals_goal() {
    let clear = clear_moves(&|_, _, _| false);
    let route = grid_search(cell(5, 5, 5), cell(5, 5, 5), CELLS, &clear).unwrap();
    assert_eq!(route.cells, vec![cell(5, 5, 5)]);
    assert_eq!(route.expanded, 1);
}

#[test]
fn search_is_deterministic() {
    let wall = |x: usize, y: usize, z: usize| (x == 8 && y < 20) || (x == 20 && y > 3 && z < 6);
    let clear = clear_moves(&wall);
    let a = grid_search(cell(1, 1, 1), cell(30, 22, 10), CELLS, &clear).unwrap();
    let b = grid_search(cell(1, 1, 1), cell(30, 22, 10), CELLS, &clear).unwrap();
    assert_eq!(a.cells, b.cells);
    assert_eq!(a.expanded, b.expanded);
    assert_route(&a.cells, cell(1, 1, 1), cell(30, 22, 10), &clear);
}

#[test]
fn a_budget_covering_every_reachable_cell_never_runs_out() {
    // Only two cells are open: the start and its +x neighbour.
    let walled = |x: usize, y: usize, z: usize| !(y == 0 && z == 0 && x <= 1);
    let clear = clear_moves(&walled);
    let start = cell(0, 0, 0);
    let goal = cell(20, 10, 5);
    assert_eq!(grid_search(start, goal, 2, &clear).err(), Some(PlanError::NoRoute));
    assert_eq!(grid_search(start, goal, 1, &clear).err(), Some(PlanError::Budget));
}
