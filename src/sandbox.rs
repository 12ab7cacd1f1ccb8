use rand::seq::SliceRandom;
use vstd::prelude::*;

use crate::cell::{air_cell, oob_cell, sand_cell, Cell, Material};

verus! {

pub const SANDBOX_WIDTH: usize = 200;

pub const SANDBOX_HEIGHT: usize = 150;

pub const SANDBOX_SIZE: usize = SANDBOX_WIDTH * SANDBOX_HEIGHT;

/// Side length, in pixels, of one cell on screen.
pub const CELL_SIZE: usize = 4;

/// Whether a coordinate pair names a position of the grid.
pub open spec fn in_grid(x: int, y: int) -> bool {
    0 <= x < SANDBOX_WIDTH && 0 <= y < SANDBOX_HEIGHT
}

/// Row-major index of a position.
pub open spec fn idx(x: int, y: int) -> int {
    y * SANDBOX_WIDTH + x
}

/// Column of an index.
pub open spec fn col(i: int) -> int {
    i % (SANDBOX_WIDTH as int)
}

/// Row of an index.
pub open spec fn row(i: int) -> int {
    i / (SANDBOX_WIDTH as int)
}

/// The cell at a position, or the out-of-bounds sentinel off the grid.
pub open spec fn cell_at(c: Seq<Cell>, x: int, y: int) -> Cell {
    if in_grid(x, y) {
        c[idx(x, y)]
    } else {
        oob_cell()
    }
}

/// The grid with the cells at indices `a` and `b` exchanged.
pub open spec fn swapped(c: Seq<Cell>, a: int, b: int) -> Seq<Cell> {
    c.update(a, c[b]).update(b, c[a])
}

/// A grid of air only.
pub open spec fn all_air() -> Seq<Cell> {
    Seq::new(SANDBOX_SIZE as nat, |i: int| air_cell())
}

/// Whether `(cx, cy)` lies in the square of side `size` whose top-left corner is `(x, y)`.
pub open spec fn in_square(cx: int, cy: int, x: int, y: int, size: int) -> bool {
    x <= cx < x + size && y <= cy < y + size
}

/// The grid after stamping `brush` over the square of side `size` at `(x, y)`;
/// the part of the square off the grid is dropped.
pub open spec fn stamped(c: Seq<Cell>, x: int, y: int, size: int, brush: Cell) -> Seq<Cell> {
    Seq::new(
        c.len(),
        |i: int|
            if in_square(col(i), row(i), x, y, size) {
                brush
            } else {
                c[i]
            },
    )
}

/// The solid rule: fall straight down, else down-left, else down-right, into
/// any cell lighter than 2; otherwise stay.
pub open spec fn powder_step(c: Seq<Cell>, x: int, y: int) -> Seq<Cell> {
    if cell_at(c, x, y + 1).weight < 2 {
        swapped(c, idx(x, y), idx(x, y + 1))
    } else if cell_at(c, x - 1, y + 1).weight < 2 {
        swapped(c, idx(x, y), idx(x - 1, y + 1))
    } else if cell_at(c, x + 1, y + 1).weight < 2 {
        swapped(c, idx(x, y), idx(x + 1, y + 1))
    } else {
        c
    }
}

/// Whether a liquid may probe `(nx, ny)`: the columns `0 ..= width - 2` and
/// the rows down to the last one.
pub open spec fn liquid_probe_in_bounds(nx: int, ny: int) -> bool {
    0 <= nx < SANDBOX_WIDTH - 1 && ny <= SANDBOX_HEIGHT - 1
}

/// One balance pass whose first direction is `(dx, dy)`: the cell moves into
/// the neighbour there when that neighbour is in bounds and weighs less than 1.
pub open spec fn balance_step(c: Seq<Cell>, x: int, y: int, dx: int, dy: int) -> Seq<Cell> {
    if liquid_probe_in_bounds(x + dx, y + dy) && cell_at(c, x + dx, y + dy).weight < 1 {
        swapped(c, idx(x, y), idx(x + dx, y + dy))
    } else {
        c
    }
}

/// The horizontal step that a balance pass tries first.
pub open spec fn first_step(left_first: bool) -> int {
    if left_first {
        -1
    } else {
        1
    }
}

/// The liquid rule: fall straight down into a cell lighter than 1; otherwise a
/// diagonal balance pass, then a flat one, both from `(x, y)`. `order` says,
/// for each pass, whether its left direction comes first.
pub open spec fn liquid_step(c: Seq<Cell>, x: int, y: int, order: (bool, bool)) -> Seq<Cell> {
    if cell_at(c, x, y + 1).weight < 1 {
        swapped(c, idx(x, y), idx(x, y + 1))
    } else {
        balance_step(
            balance_step(c, x, y, first_step(order.0), 1),
            x,
            y,
            first_step(order.1),
            0,
        )
    }
}

/// The update of the position `(x, y)`, dispatched on its material.
pub open spec fn update_step(c: Seq<Cell>, x: int, y: int, order: (bool, bool)) -> Seq<Cell> {
    match cell_at(c, x, y).material {
        Material::SAND => powder_step(c, x, y),
        Material::WATER => liquid_step(c, x, y, order),
        _ => c,
    }
}

/// Row `y` updated from left to right, one position per entry of `orders`.
pub open spec fn scan_row(c: Seq<Cell>, y: int, orders: Seq<(bool, bool)>) -> Seq<Cell>
    decreases orders.len(),
{
    if orders.len() == 0 {
        c
    } else {
        update_step(scan_row(c, y, orders.drop_last()), orders.len() - 1, y, orders.last())
    }
}

/// The rows from the second-to-last one upwards, one row per entry of `rows`.
pub open spec fn scan_rows(c: Seq<Cell>, rows: Seq<Seq<(bool, bool)>>) -> Seq<Cell>
    decreases rows.len(),
{
    if rows.len() == 0 {
        c
    } else {
        scan_row(scan_rows(c, rows.drop_last()), SANDBOX_HEIGHT - 1 - rows.len(), rows.last())
    }
}

/// Whether `rows` holds one order for each position that a tick visits.
pub open spec fn full_scan(rows: Seq<Seq<(bool, bool)>>) -> bool {
    &&& rows.len() == SANDBOX_HEIGHT - 1
    &&& forall|i: int| 0 <= i < rows.len() ==> (#[trigger] rows[i]).len() == SANDBOX_WIDTH
}

/// The brush side after widening by one, capped at 10.
pub open spec fn grown(size: nat) -> nat {
    if size < 10 {
        size + 1
    } else {
        10
    }
}

/// The brush side after narrowing by one, kept at least 1.
pub open spec fn shrunk(size: nat) -> nat {
    if size > 1 {
        (size - 1) as nat
    } else {
        1
    }
}

/// The abstract state of a sandbox.
pub struct SandboxView {
    pub cells: Seq<Cell>,
    pub paused: bool,
    pub hand_cell: Cell,
    pub hand_size: nat,
}

/// The state after one tick that drew `rows` for its liquid cells.
pub open spec fn tick_result(v: SandboxView, rows: Seq<Seq<(bool, bool)>>) -> SandboxView {
    if v.paused {
        v
    } else {
        SandboxView { cells: scan_rows(v.cells, rows), ..v }
    }
}

pub proof fn lemma_index_coords(i: int)
    requires
        0 <= i < SANDBOX_SIZE,
    ensures
        in_grid(col(i), row(i)),
        idx(col(i), row(i)) == i,
{
    vstd::arithmetic::div_mod::lemma_fundamental_div_mod(i, SANDBOX_WIDTH as int);
}

pub proof fn lemma_coords_index(x: int, y: int)
    requires
        in_grid(x, y),
    ensures
        0 <= idx(x, y) < SANDBOX_SIZE,
        col(idx(x, y)) == x,
        row(idx(x, y)) == y,
{
    vstd::arithmetic::div_mod::lemma_fundamental_div_mod_converse(
        idx(x, y),
        SANDBOX_WIDTH as int,
        y,
        x,
    );
}

/// Whether `d` holds the two horizontal steps `-1` and `1`, in either order,
/// both with the vertical step `dy`.
pub open spec fn dir_pair(d: Seq<(isize, isize)>, dy: isize) -> bool {
    &&& d.len() == 2
    &&& d[0].1 == dy && d[1].1 == dy
    &&& (d[0].0 == -1 && d[1].0 == 1) || (d[0].0 == 1 && d[1].0 == -1)
}

/// Relies on rand's `SliceRandom::shuffle`, with the thread-local generator
/// of `rand::rng`: it permutes the slice in place by swaps, so two entries
/// come back in their order or exchanged.
#[verifier::external_body]
fn shuffle_pair(dirs: &mut [(isize, isize); 2])
    ensures
        final(dirs)@ == old(dirs)@ || final(dirs)@ == seq![old(dirs)@[1], old(dirs)@[0]],
{
    dirs.shuffle(&mut rand::rng());
}

/// The two directions of a balance pass with vertical step `dy`, the left
/// one first when `left_first` holds.
fn directions(left_first: bool, dy: isize) -> (r: [(isize, isize); 2])
    requires
        dy == 0 || dy == 1,
    ensures
        dir_pair(r@, dy),
        r@[0].0 == first_step(left_first),
{
    if left_first {
        [(-1, dy), (1, dy)]
    } else {
        [(1, dy), (-1, dy)]
    }
}

/// A row scan extends by one position at a time.
proof fn lemma_scan_row_push(c: Seq<Cell>, y: int, orders: Seq<(bool, bool)>, o: (bool, bool))
    ensures
        scan_row(c, y, orders.push(o)) == update_step(scan_row(c, y, orders), orders.len() as int, y, o),
{
    assert(orders.push(o).drop_last() =~= orders);
}

/// The scan of rows extends by one row at a time.
proof fn lemma_scan_rows_push(c: Seq<Cell>, rows: Seq<Seq<(bool, bool)>>, r: Seq<(bool, bool)>)
    ensures
        scan_rows(c, rows.push(r)) == scan_row(scan_rows(c, rows), SANDBOX_HEIGHT - 2 - rows.len(), r),
{
    assert(rows.push(r).drop_last() =~= rows);
}

/// The simulated world: a fixed grid of cells in row-major order, a pause
/// flag, and the brush (the material placed, and the side of its square).
pub struct Sandbox {
    cells: Vec<Cell>,
    paused: bool,
    hand_cell: Cell,
    hand_size: usize,
}

impl View for Sandbox {
    type V = SandboxView;

    closed spec fn view(&self) -> SandboxView {
        SandboxView {
            cells: self.cells@,
            paused: self.paused,
            hand_cell: self.hand_cell,
            hand_size: self.hand_size as nat,
        }
    }
}

impl Sandbox {
    /// The grid has its fixed size and the brush side lies in `1 ..= 10`.
    pub open spec fn wf(&self) -> bool {
        &&& self@.cells.len() == SANDBOX_SIZE
        &&& 1 <= self@.hand_size <= 10
    }

    /// An all-air grid, running, with a sand brush of side 4.
    pub fn new() -> (r: Sandbox)
        ensures
            r.wf(),
            r@ == (SandboxView { cells: all_air(), paused: false, hand_cell: sand_cell(), hand_size: 4 }),
    {
        let cells = vec![Cell::air(); SANDBOX_SIZE];
        let r = Sandbox { cells, paused: false, hand_cell: Cell::sand(), hand_size: 4 };
        assert(r@.cells =~= all_air());
        r
    }

    fn pos(x: usize, y: usize) -> (r: usize)
        requires
            in_grid(x as int, y as int),
        ensures
            r == idx(x as int, y as int),
    {
        y * SANDBOX_WIDTH + x
    }

    /// The cell at `(x, y)`, or `None` off the grid.
    pub fn get(&self, x: usize, y: usize) -> (r: Option<Cell>)
        requires
            self.wf(),
        ensures
            r == (if in_grid(x as int, y as int) {
                Some(cell_at(self@.cells, x as int, y as int))
            } else {
                None
            }),
    {
        if x < SANDBOX_WIDTH && y < SANDBOX_HEIGHT {
            proof {
                lemma_coords_index(x as int, y as int);
            }
            Some(self.cells[Self::pos(x, y)])
        } else {
            None
        }
    }
    fn get_unchecked(&self, x: usize, y: usize) -> (r: Cell)
        requires
            self.wf(),
            in_grid(x as int, y as int),
        ensures
            r == cell_at(self@.cells, x as int, y as int),
    {
        proof {
            lemma_coords_index(x as int, y as int);
        }
        self.cells[Self::pos(x, y)]
    }

    /// Writes `cel` at `(x, y)`; a position off the grid is ignored.
    fn set(&mut self, x: usize, y: usize, cel: Cell)
        requires
            old(self).wf(),
        ensures
            final(self).wf(),
            final(self)@ == (SandboxView {
                cells: if in_grid(x as int, y as int) {
                    old(self)@.cells.update(idx(x as int, y as int), cel)
                } else {
                    old(self)@.cells
                },
                ..old(self)@
            }),
    {
        if x < SANDBOX_WIDTH && y < SANDBOX_HEIGHT {
            proof {
                lemma_coords_index(x as int, y as int);
            }
            self.cells.set(Self::pos(x, y), cel);
        }
    }

    /// Stamps a square of the brush's side with its top-left corner at
    /// `(x, y)`: every cell of it becomes `ovr` when given, else the brush
    /// material. The part of the square off the grid is dropped.
    pub fn place(&mut self, x: usize, y: usize, ovr: Option<Cell>)
        requires
            old(self).wf(),
        ensures
            final(self).wf(),
            final(self)@ == (SandboxView {
                cells: stamped(
                    old(self)@.cells,
                    x as int,
                    y as int,
                    old(self)@.hand_size as int,
                    match ovr {
                        Some(c) => c,
                        None => old(self)@.hand_cell,
                    },
                ),
                ..old(self)@
            }),
    {
        let brush = match ovr {
            Some(c) => c,
            None => self.hand_cell,
        };
        let size = self.hand_size;
        let ghost c0 = self@.cells;
        if x < SANDBOX_WIDTH && y < SANDBOX_HEIGHT {
            let mut oy: usize = 0;
            while oy < size
                invariant
                    self.wf(),
                    self@ == (SandboxView { cells: self@.cells, ..old(self)@ }),
                    size == old(self)@.hand_size,
                    x < SANDBOX_WIDTH,
                    y < SANDBOX_HEIGHT,
                    0 <= oy <= size,
                    forall|i: int|
                        0 <= i < SANDBOX_SIZE ==> #[trigger] self@.cells[i] == if in_square(
                            col(i),
                            row(i),
                            x as int,
                            y as int,
                            size as int,
                        ) && row(i) < y + oy {
                            brush
                        } else {
                            c0[i]
                        },
                decreases size - oy,
            {
                let mut ox: usize = 0;
                while ox < size
                    invariant
                        self.wf(),
                        self@ == (SandboxView { cells: self@.cells, ..old(self)@ }),
                        size == old(self)@.hand_size,
                        x < SANDBOX_WIDTH,
                        y < SANDBOX_HEIGHT,
                        0 <= oy < size,
                        0 <= ox <= size,
                        forall|i: int|
                            0 <= i < SANDBOX_SIZE ==> #[trigger] self@.cells[i] == if in_square(
                                col(i),
                                row(i),
                                x as int,
                                y as int,
                                size as int,
                            ) && (row(i) < y + oy || (row(i) == y + oy && col(i) < x + ox)) {
                                brush
                            } else {
                                c0[i]
                            },
                    decreases size - ox,
                {
                    self.set(x + ox, y + oy, brush);
                    proof {
                        assert forall|i: int| 0 <= i < SANDBOX_SIZE implies #[trigger] self@.cells[i]
                            == if in_square(col(i), row(i), x as int, y as int, size as int) && (
                        row(i) < y + oy || (row(i) == y + oy && col(i) < x + ox + 1)) {
                            brush
                        } else {
                            c0[i]
                        } by {
                            lemma_index_coords(i);
                            if in_grid(x + ox, y + oy) {
                                lemma_coords_index(x + ox, y + oy);
                            }
                        }
                    }
                    ox += 1;
                }
                oy += 1;
            }
        }
        proof {
            assert forall|i: int| 0 <= i < SANDBOX_SIZE implies #[trigger] self@.cells[i]
                == stamped(c0, x as int, y as int, size as int, brush)[i] by {
                lemma_index_coords(i);
            }
            assert(self@.cells =~= stamped(c0, x as int, y as int, size as int, brush));
        }
    }

    /// Sets the brush material.
    pub fn set_hand_cell(&mut self, cell: Cell)
        requires
            old(self).wf(),
        ensures
            final(self).wf(),
            final(self)@ == (SandboxView { hand_cell: cell, ..old(self)@ }),
    {
        self.hand_cell = cell;
    }

    /// The brush material.
    pub fn get_hand_cell(&mut self) -> (r: Cell)
        ensures
            r == old(self)@.hand_cell,
            *final(self) == *old(self),
    {
        self.hand_cell
    }

    /// Widens the brush by one, up to 10.
    pub fn inc_size(&mut self)
        requires
            old(self).wf(),
        ensures
            final(self).wf(),
            final(self)@ == (SandboxView { hand_size: grown(old(self)@.hand_size), ..old(self)@ }),
    {
        self.hand_size += 1;
        if self.hand_size > 10 {
            self.hand_size = 10;
        }
    }

    /// Narrows the brush by one, down to 1.
    pub fn dec_size(&mut self)
        requires
            old(self).wf(),
        ensures
            final(self).wf(),
            final(self)@ == (SandboxView { hand_size: shrunk(old(self)@.hand_size), ..old(self)@ }),
    {
        if self.hand_size == 1 {
            return;
        }
        self.hand_size -= 1;
    }

    /// The brush side.
    pub fn get_size(&mut self) -> (r: usize)
        ensures
            r == old(self)@.hand_size,
            *final(self) == *old(self),
    {
        self.hand_size
    }

    /// All cells, row by row.
    pub fn get_buffer(&self) -> (r: &Vec<Cell>)
        ensures
            r@ == self@.cells,
    {
        &self.cells
    }

    /// Turns every cell to air; the pause flag and the brush stay.
    pub fn reset(&mut self)
        requires
            old(self).wf(),
        ensures
            final(self).wf(),
            final(self)@ == (SandboxView { cells: all_air(), ..old(self)@ }),
    {
        let mut i: usize = 0;
        while i < self.cells.len()
            invariant
                self.wf(),
                self@ == (SandboxView { cells: self@.cells, ..old(self)@ }),
                0 <= i <= SANDBOX_SIZE,
                forall|j: int| 0 <= j < i ==> #[trigger] self@.cells[j] == air_cell(),
            decreases SANDBOX_SIZE - i,
        {
            self.cells.set(i, Cell::air());
            i += 1;
        }
        assert(self@.cells =~= all_air());
    }

    fn get_cell_under(&self, x: usize, y: usize) -> (r: Cell)
        requires
            self.wf(),
            y < SANDBOX_HEIGHT,
        ensures
            r == cell_at(self@.cells, x as int, y + 1),
    {
        match self.get(x, y + 1) {
            Some(c) => c,
            None => Cell::oob(),
        }
    }

    fn get_pos_bot_left(&self, x: usize, y: usize) -> (r: Option<(usize, usize)>)
        ensures
            r == (if x == 0 || y >= SANDBOX_HEIGHT - 1 {
                None
            } else {
                Some(((x - 1) as usize, (y + 1) as usize))
            }),
    {
        if x == 0 || y >= SANDBOX_HEIGHT - 1 {
            return None;
        }
        Some((x - 1, y + 1))
    }

    fn get_pos_bot_right(&self, x: usize, y: usize) -> (r: Option<(usize, usize)>)
        ensures
            r == (if x >= SANDBOX_WIDTH - 1 || y >= SANDBOX_HEIGHT - 1 {
                None
            } else {
                Some(((x + 1) as usize, (y + 1) as usize))
            }),
    {
        if x >= SANDBOX_WIDTH - 1 || y >= SANDBOX_HEIGHT - 1 {
            return None;
        }
        Some((x + 1, y + 1))
    }

    /// The cell at `pos`, or the sentinel where `pos` is absent or off the grid.
    fn get_cell_from_pos_or_oob(&self, pos: Option<(usize, usize)>) -> (r: Cell)
        requires
            self.wf(),
        ensures
            r == (match pos {
                Some(p) => cell_at(self@.cells, p.0 as int, p.1 as int),
                None => oob_cell(),
            }),
    {
        match pos {
            None => Cell::oob(),
            Some(p) => match self.get(p.0, p.1) {
                Some(c) => c,
                None => Cell::oob(),
            },
        }
    }

    fn swap_cell(&mut self, ax: usize, ay: usize, bx: usize, by: usize)
        requires
            old(self).wf(),
            in_grid(ax as int, ay as int),
            in_grid(bx as int, by as int),
        ensures
            final(self).wf(),
            final(self)@ == (SandboxView {
                cells: swapped(
                    old(self)@.cells,
                    idx(ax as int, ay as int),
                    idx(bx as int, by as int),
                ),
                ..old(self)@
            }),
    {
        proof {
            lemma_coords_index(ax as int, ay as int);
            lemma_coords_index(bx as int, by as int);
        }
        let a = self.get_unchecked(ax, ay);
        let b = self.get_unchecked(bx, by);
        self.set(ax, ay, b);
        self.set(bx, by, a);
    }

    /// The solid rule at `(x, y)`.
    fn update_powder(&mut self, x: usize, y: usize)
        requires
            old(self).wf(),
            in_grid(x as int, y as int),
        ensures
            final(self).wf(),
            final(self)@ == (SandboxView {
                cells: powder_step(old(self)@.cells, x as int, y as int),
                ..old(self)@
            }),
    {
        if self.get_cell_under(x, y).weight < 2 {
            self.swap_cell(x, y, x, y + 1);
        } else if self.get_cell_from_pos_or_oob(self.get_pos_bot_left(x, y)).weight < 2 {
            self.swap_cell(x, y, x - 1, y + 1);
        } else if self.get_cell_from_pos_or_oob(self.get_pos_bot_right(x, y)).weight < 2 {
            self.swap_cell(x, y, x + 1, y + 1);
        }
    }

    /// One balance pass from `(x, y)`: for distances `1 .. max_dist`, both
    /// directions of `dirs` in turn, the horizontal step scaled by the
    /// distance. The first probe that finds a cell lighter than 1 swaps with
    /// it and ends the search; a heavier cell, or a probe out of bounds, ends
    /// it too. So the nearest probe in the first direction always decides.
    fn update_liquid_balance(&mut self, x: usize, y: usize, dirs: [(isize, isize); 2], max_dist: isize)
        requires
            old(self).wf(),
            in_grid(x as int, y as int),
            dir_pair(dirs@, 0) || dir_pair(dirs@, 1),
            1 <= max_dist <= 8,
        ensures
            final(self).wf(),
            final(self)@ == (SandboxView {
                cells: if max_dist > 1 {
                    balance_step(old(self)@.cells, x as int, y as int, dirs@[0].0 as int, dirs@[0].1 as int)
                } else {
                    old(self)@.cells
                },
                ..old(self)@
            }),
    {
        let ghost target = balance_step(old(self)@.cells, x as int, y as int, dirs@[0].0 as int, dirs@[0].1 as int);
        let mut dist: isize = 1;
        let mut done = false;
        while dist < max_dist && !done
            invariant
                self.wf(),
                self@ == (SandboxView { cells: self@.cells, ..old(self)@ }),
                in_grid(x as int, y as int),
                dir_pair(dirs@, 0) || dir_pair(dirs@, 1),
                1 <= dist <= max_dist <= 8,
                target == balance_step(old(self)@.cells, x as int, y as int, dirs@[0].0 as int, dirs@[0].1 as int),
                done ==> self@.cells == target && 1 < max_dist,
                !done ==> dist == 1 && self@.cells == old(self)@.cells,
            decreases max_dist - dist,
        {
            let mut k: usize = 0;
            while k < 2 && !done
                invariant
                    self.wf(),
                    self@ == (SandboxView { cells: self@.cells, ..old(self)@ }),
                    in_grid(x as int, y as int),
                    dir_pair(dirs@, 0) || dir_pair(dirs@, 1),
                    1 <= dist < max_dist <= 8,
                    k <= 2,
                    target == balance_step(old(self)@.cells, x as int, y as int, dirs@[0].0 as int, dirs@[0].1 as int),
                    done ==> self@.cells == target,
                    !done ==> k == 0 && dist == 1 && self@.cells == old(self)@.cells,
                decreases 2 - k,
            {
                let (dx, dy) = dirs[k];
                let nx: isize = x as isize + dx * dist;
                let ny: isize = y as isize + dy;
                if nx >= 0 && nx < (SANDBOX_WIDTH - 1) as isize && ny <= (SANDBOX_HEIGHT - 1) as isize {
                    if self.get_unchecked(nx as usize, ny as usize).weight < 1 {
                        self.swap_cell(x, y, nx as usize, ny as usize);
                    }
                }
                done = true;
                k += 1;
            }
            dist += 1;
        }
    }

    /// The liquid rule at `(x, y)`, with the given direction pairs.
    fn update_liquid(&mut self, x: usize, y: usize, diag: [(isize, isize); 2], flat: [(isize, isize); 2])
        requires
            old(self).wf(),
            in_grid(x as int, y as int),
            dir_pair(diag@, 1),
            dir_pair(flat@, 0),
        ensures
            final(self).wf(),
            final(self)@ == (SandboxView {
                cells: liquid_step(
                    old(self)@.cells,
                    x as int,
                    y as int,
                    (diag@[0].0 == -1, flat@[0].0 == -1),
                ),
                ..old(self)@
            }),
    {
        if self.get_cell_under(x, y).weight < 1 {
            self.swap_cell(x, y, x, y + 1);
            return;
        }
        self.update_liquid_balance(x, y, diag, 4);
        self.update_liquid_balance(x, y, flat, 8);
    }

    /// Updates the position `(x, y)` by its material's rule: sand by the
    /// solid rule, water by the liquid rule, whose diagonal and flat passes
    /// try their left direction first where `diag_left_first`,
    /// `flat_left_first` hold. Other materials stay.
    pub fn update_cell_ordered(&mut self, x: usize, y: usize, diag_left_first: bool, flat_left_first: bool)
        requires
            old(self).wf(),
            in_grid(x as int, y as int),
        ensures
            final(self).wf(),
            final(self)@ == (SandboxView {
                cells: update_step(
                    old(self)@.cells,
                    x as int,
                    y as int,
                    (diag_left_first, flat_left_first),
                ),
                ..old(self)@
            }),
    {
        let cel = self.get_unchecked(x, y);
        match cel.material {
            Material::SAND => self.update_powder(x, y),
            Material::WATER => {
                let diag = directions(diag_left_first, 1);
                let flat = directions(flat_left_first, 0);
                self.update_liquid(x, y, diag, flat);
            },
            _ => {},
        }
    }

    /// Updates the position `(x, y)`, drawing at random the order in which
    /// a liquid tries its directions; the order drawn is returned.
    fn update_cell(&mut self, x: usize, y: usize) -> (order: Ghost<(bool, bool)>)
        requires
            old(self).wf(),
            in_grid(x as int, y as int),
        ensures
            final(self).wf(),
            final(self)@ == (SandboxView {
                cells: update_step(old(self)@.cells, x as int, y as int, order@),
                ..old(self)@
            }),
    {
        let mut diag: [(isize, isize); 2] = [(-1, 1), (1, 1)];
        let mut flat: [(isize, isize); 2] = [(-1, 0), (1, 0)];
        if self.get_unchecked(x, y).material == Material::WATER {
            shuffle_pair(&mut diag);
            shuffle_pair(&mut flat);
        }
        let diag_left_first = diag[0].0 < 0;
        let flat_left_first = flat[0].0 < 0;
        self.update_cell_ordered(x, y, diag_left_first, flat_left_first);
        Ghost((diag_left_first, flat_left_first))
    }

    /// One step of the simulation; nothing happens while paused. Otherwise
    /// every position is updated once, the rows from the second-to-last one
    /// upwards and each row from left to right, each update seeing the
    /// moves made before it. Some order of directions was drawn for each
    /// position.
    pub fn tick(&mut self)
        requires
            old(self).wf(),
        ensures
            final(self).wf(),
            old(self)@.paused ==> final(self)@ == old(self)@,
            exists|rows: Seq<Seq<(bool, bool)>>|
                full_scan(rows) && final(self)@ == #[trigger] tick_result(old(self)@, rows),
    {
        if self.paused {
            assert(exists|rows: Seq<Seq<(bool, bool)>>|
                full_scan(rows) && self@ == #[trigger] tick_result(old(self)@, rows)) by {
                let rows = Seq::new((SANDBOX_HEIGHT - 1) as nat, |i: int| Seq::new(SANDBOX_WIDTH as nat, |j: int| (true, true)));
                assert(full_scan(rows));
                assert(self@ == tick_result(old(self)@, rows));
            }
            return;
        }
        let ghost c0 = self@.cells;
        let ghost mut rows: Seq<Seq<(bool, bool)>> = seq![];
        let mut y: usize = SANDBOX_HEIGHT - 1;
        while y > 0
            invariant
                self.wf(),
                self@ == (SandboxView { cells: self@.cells, ..old(self)@ }),
                !self.paused,
                y < SANDBOX_HEIGHT,
                rows.len() == SANDBOX_HEIGHT - 1 - y,
                forall|i: int| 0 <= i < rows.len() ==> (#[trigger] rows[i]).len() == SANDBOX_WIDTH,
                self@.cells == scan_rows(c0, rows),
            decreases y,
        {
            y -= 1;
            let ghost before = self@.cells;
            let ghost mut row_orders: Seq<(bool, bool)> = seq![];
            let mut x: usize = 0;
            while x < SANDBOX_WIDTH
                invariant
                    self.wf(),
                    self@ == (SandboxView { cells: self@.cells, ..old(self)@ }),
                    y < SANDBOX_HEIGHT - 1,
                    x <= SANDBOX_WIDTH,
                    row_orders.len() == x,
                    self@.cells == scan_row(before, y as int, row_orders),
                decreases SANDBOX_WIDTH - x,
            {
                let o = self.update_cell(x, y);
                proof {
                    lemma_scan_row_push(before, y as int, row_orders, o@);
                    row_orders = row_orders.push(o@);
                }
                x += 1;
            }
            proof {
                lemma_scan_rows_push(c0, rows, row_orders);
                rows = rows.push(row_orders);
            }
        }
        assert(full_scan(rows));
        assert(self@ == tick_result(old(self)@, rows));
    }

    /// Pauses a running sandbox, and resumes a paused one.
    pub fn toggle_pause(&mut self)
        requires
            old(self).wf(),
        ensures
            final(self).wf(),
            final(self)@ == (SandboxView { paused: !old(self)@.paused, ..old(self)@ }),
    {
        self.paused = !self.paused;
    }
}

} // verus!
