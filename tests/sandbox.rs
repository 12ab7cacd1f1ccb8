use rhysix::cell::{Cell, Material};
use rhysix::sandbox::{Sandbox, SANDBOX_HEIGHT, SANDBOX_SIZE, SANDBOX_WIDTH};

fn at(s: &Sandbox, x: usize, y: usize) -> Material {
    s.get(x, y).unwrap().material
}

fn count(s: &Sandbox, m: Material) -> usize {
    s.get_buffer().iter().filter(|c| c.material == m).count()
}

fn put(s: &mut Sandbox, x: usize, y: usize, c: Cell) {
    while s.get_size() > 1 {
        s.dec_size();
    }
    s.place(x, y, Some(c));
}

/// A sandbox whose bottom row is stone.
fn with_stone_floor() -> Sandbox {
    let mut s = Sandbox::new();
    for x in 0..SANDBOX_WIDTH {
        put(&mut s, x, SANDBOX_HEIGHT - 1, Cell::stone());
    }
    s
}

#[test]
fn new_sandbox_is_air_with_sand_brush() {
    let mut s = Sandbox::new();
    assert_eq!(s.get_buffer().len(), SANDBOX_SIZE);
    assert_eq!(SANDBOX_SIZE, 30000);
    assert!(s.get_buffer().iter().all(|c| *c == Cell::air()));
    assert_eq!(s.get_size(), 4);
    assert_eq!(s.get_hand_cell(), Cell::sand());
}

#[test]
fn get_is_bounds_checked() {
    let s = Sandbox::new();
    assert_eq!(s.get(0, 0), Some(Cell::air()));
    assert_eq!(s.get(199, 149), Some(Cell::air()));
    assert_eq!(s.get(200, 0), None);
    assert_eq!(s.get(0, 150), None);
    assert_eq!(s.get(usize::MAX, usize::MAX), None);
}

#[test]
fn place_stamps_brush_square() {
    let mut s = Sandbox::new();
    s.place(10, 20, None);
    assert_eq!(count(&s, Material::SAND), 16);
    for y in 20..24 {
        for x in 10..14 {
            assert_eq!(at(&s, x, y), Material::SAND);
        }
    }
    assert_eq!(at(&s, 14, 20), Material::AIR);
    assert_eq!(at(&s, 10, 24), Material::AIR);
    s.place(10, 20, Some(Cell::air()));
    assert_eq!(count(&s, Material::SAND), 0);
}

#[test]
fn place_straddling_edge_writes_only_inside() {
    let mut s = Sandbox::new();
    s.set_hand_cell(Cell::stone());
    s.place(198, 148, None);
    assert_eq!(count(&s, Material::STONE), 4);
    assert_eq!(at(&s, 198, 148), Material::STONE);
    assert_eq!(at(&s, 199, 149), Material::STONE);
    assert_eq!(at(&s, 0, 149), Material::AIR);
    s.place(199, 149, None);
    assert_eq!(count(&s, Material::STONE), 4);
    s.place(200, 0, None);
    s.place(0, 150, None);
    s.place(usize::MAX, usize::MAX, None);
    assert_eq!(count(&s, Material::STONE), 4);
}

#[test]
fn sand_falls_one_row_per_tick() {
    let mut s = Sandbox::new();
    put(&mut s, 10, 10, Cell::sand());
    s.tick();
    assert_eq!(at(&s, 10, 10), Material::AIR);
    assert_eq!(at(&s, 10, 11), Material::SAND);
    s.tick();
    assert_eq!(at(&s, 10, 12), Material::SAND);
    assert_eq!(count(&s, Material::SAND), 1);
}

#[test]
fn sand_slides_left_when_only_below_left_is_free() {
    let mut s = Sandbox::new();
    put(&mut s, 10, 11, Cell::stone());
    put(&mut s, 11, 11, Cell::stone());
    put(&mut s, 10, 10, Cell::sand());
    s.tick();
    assert_eq!(at(&s, 9, 11), Material::SAND);
    assert_eq!(at(&s, 10, 10), Material::AIR);
}

#[test]
fn sand_slides_right_when_left_is_blocked() {
    let mut s = Sandbox::new();
    put(&mut s, 9, 11, Cell::stone());
    put(&mut s, 10, 11, Cell::stone());
    put(&mut s, 10, 10, Cell::sand());
    s.tick();
    assert_eq!(at(&s, 11, 11), Material::SAND);
}

#[test]
fn sand_sinks_through_water() {
    let mut s = Sandbox::new();
    put(&mut s, 10, 10, Cell::sand());
    put(&mut s, 10, 11, Cell::water());
    s.update_cell_ordered(10, 10, true, true);
    assert_eq!(at(&s, 10, 10), Material::WATER);
    assert_eq!(at(&s, 10, 11), Material::SAND);
}

#[test]
fn sand_on_stone_never_moves() {
    let mut s = with_stone_floor();
    put(&mut s, 50, 148, Cell::stone());
    put(&mut s, 49, 148, Cell::stone());
    put(&mut s, 51, 148, Cell::stone());
    put(&mut s, 50, 147, Cell::sand());
    let before = s.get_buffer().clone();
    for _ in 0..10 {
        s.tick();
    }
    assert_eq!(s.get_buffer(), &before);
}

#[test]
fn sand_rests_on_bottom_edge() {
    let mut s = Sandbox::new();
    put(&mut s, 0, 149, Cell::sand());
    put(&mut s, 199, 149, Cell::sand());
    s.tick();
    assert_eq!(at(&s, 0, 149), Material::SAND);
    assert_eq!(at(&s, 199, 149), Material::SAND);
}

#[test]
fn sand_at_side_edges_falls_without_panic() {
    let mut s = with_stone_floor();
    put(&mut s, 0, 147, Cell::sand());
    put(&mut s, 199, 147, Cell::sand());
    for _ in 0..3 {
        s.tick();
    }
    assert_eq!(at(&s, 0, 148), Material::SAND);
    assert_eq!(at(&s, 199, 148), Material::SAND);
}

#[test]
fn paused_ticks_leave_buffer_unchanged() {
    let mut s = Sandbox::new();
    s.place(20, 20, None);
    s.set_hand_cell(Cell::water());
    s.place(60, 10, None);
    s.toggle_pause();
    let before = s.get_buffer().clone();
    for _ in 0..25 {
        s.tick();
    }
    assert_eq!(s.get_buffer(), &before);
    s.toggle_pause();
    s.tick();
    assert_ne!(s.get_buffer(), &before);
}

#[test]
fn reset_gives_all_air_and_keeps_brush() {
    let mut s = Sandbox::new();
    s.place(0, 0, None);
    s.set_hand_cell(Cell::water());
    s.inc_size();
    s.place(100, 100, None);
    s.toggle_pause();
    s.reset();
    assert_eq!(s.get_buffer(), &vec![Cell::air(); SANDBOX_WIDTH * SANDBOX_HEIGHT]);
    assert_eq!(s.get_size(), 5);
    assert_eq!(s.get_hand_cell(), Cell::water());
    let before = s.get_buffer().clone();
    s.tick();
    assert_eq!(s.get_buffer(), &before);
}

#[test]
fn brush_size_clamps_at_ten_and_one() {
    let mut s = Sandbox::new();
    while s.get_size() > 1 {
        s.dec_size();
    }
    assert_eq!(s.get_size(), 1);
    for _ in 0..20 {
        s.inc_size();
        assert!(s.get_size() <= 10);
    }
    assert_eq!(s.get_size(), 10);
    for _ in 0..30 {
        s.dec_size();
        assert!(s.get_size() >= 1);
    }
    assert_eq!(s.get_size(), 1);
}

#[test]
fn brush_size_steps_by_one() {
    let mut s = Sandbox::new();
    s.inc_size();
    assert_eq!(s.get_size(), 5);
    s.dec_size();
    s.dec_size();
    assert_eq!(s.get_size(), 3);
}

#[test]
fn hand_cell_is_set() {
    let mut s = Sandbox::new();
    s.set_hand_cell(Cell::stone());
    assert_eq!(s.get_hand_cell(), Cell::stone());
}

#[test]
fn water_falls_into_air_only() {
    let mut s = Sandbox::new();
    put(&mut s, 30, 30, Cell::water());
    s.tick();
    assert_eq!(at(&s, 30, 31), Material::WATER);
    assert_eq!(at(&s, 30, 30), Material::AIR);
}

#[test]
fn water_flat_pass_follows_order() {
    let mut s = with_stone_floor();
    put(&mut s, 100, 148, Cell::water());
    s.update_cell_ordered(100, 148, true, true);
    assert_eq!(at(&s, 99, 148), Material::WATER);
    assert_eq!(at(&s, 100, 148), Material::AIR);
    s.update_cell_ordered(99, 148, false, false);
    assert_eq!(at(&s, 100, 148), Material::WATER);
    assert_eq!(at(&s, 99, 148), Material::AIR);
}

#[test]
fn water_diagonal_pass_follows_order() {
    let mut s = with_stone_floor();
    put(&mut s, 100, 148, Cell::stone());
    put(&mut s, 100, 147, Cell::water());
    s.update_cell_ordered(100, 147, true, false);
    assert_eq!(at(&s, 99, 148), Material::WATER);
    assert_eq!(at(&s, 100, 147), Material::AIR);
    assert_eq!(count(&s, Material::WATER), 1);
}

#[test]
fn water_blocked_first_direction_does_not_try_second() {
    let mut s = with_stone_floor();
    put(&mut s, 99, 148, Cell::stone());
    put(&mut s, 100, 148, Cell::water());
    s.update_cell_ordered(100, 148, true, true);
    assert_eq!(at(&s, 100, 148), Material::WATER);
    assert_eq!(at(&s, 101, 148), Material::AIR);
}

#[test]
fn water_stops_at_edges() {
    let mut s = with_stone_floor();
    put(&mut s, 0, 148, Cell::water());
    s.update_cell_ordered(0, 148, true, true);
    assert_eq!(at(&s, 0, 148), Material::WATER);
    put(&mut s, 198, 148, Cell::water());
    s.update_cell_ordered(198, 148, false, false);
    assert_eq!(at(&s, 198, 148), Material::WATER);
    assert_eq!(at(&s, 199, 148), Material::AIR);
}

/// The column of the one water cell of row 148.
fn water_column(s: &Sandbox) -> usize {
    let xs: Vec<usize> = (0..SANDBOX_WIDTH).filter(|&x| at(s, x, 148) == Material::WATER).collect();
    assert_eq!(xs.len(), 1);
    xs[0]
}

#[test]
fn water_on_floor_slides_within_one_tick() {
    // A move to the left lands on a column already visited, and ends there.
    // A move to the right lands on the next column, which is updated again in
    // the same tick, so the water may go on right, or step back once.
    let mut s = with_stone_floor();
    put(&mut s, 100, 148, Cell::water());
    s.tick();
    assert_eq!(count(&s, Material::WATER), 1);
    assert_eq!(at(&s, 100, 149), Material::STONE);
    let x = water_column(&s);
    assert!(x >= 99);
}

#[test]
fn water_direction_is_drawn_at_random() {
    let mut lefts = 0;
    let mut rights = 0;
    for _ in 0..200 {
        let mut s = with_stone_floor();
        put(&mut s, 100, 148, Cell::water());
        s.tick();
        let x = water_column(&s);
        if x == 99 {
            lefts += 1;
        } else if x > 100 {
            rights += 1;
        }
    }
    assert!(lefts > 0);
    assert!(rights > 0);
}

#[test]
fn water_column_spreads_into_puddle() {
    let mut s = with_stone_floor();
    for y in 140..145 {
        put(&mut s, 100, y, Cell::water());
    }
    for _ in 0..60 {
        s.tick();
    }
    assert_eq!(count(&s, Material::WATER), 5);
    let columns = (0..SANDBOX_WIDTH)
        .filter(|&x| (0..SANDBOX_HEIGHT).any(|y| at(&s, x, y) == Material::WATER))
        .count();
    assert!(columns > 1);
    assert!((0..SANDBOX_WIDTH).any(|x| at(&s, x, 148) == Material::WATER));
}
