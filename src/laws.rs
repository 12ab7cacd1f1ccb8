use vstd::prelude::*;

use crate::cell::{air_cell, Cell, Material};
use crate::sandbox::{
    cell_at, grown, idx, shrunk, swapped, tick_result, update_step, SandboxView,
};

verus! {

/// The state after one tick for each entry of `rounds`, in turn.
pub open spec fn ticks(v: SandboxView, rounds: Seq<Seq<Seq<(bool, bool)>>>) -> SandboxView
    decreases rounds.len(),
{
    if rounds.len() == 0 {
        v
    } else {
        tick_result(ticks(v, rounds.drop_last()), rounds.last())
    }
}

/// Ticking a paused sandbox any number of times, whatever directions were
/// drawn, leaves it exactly as it was.
pub proof fn lemma_paused_ticks_change_nothing(v: SandboxView, rounds: Seq<Seq<Seq<(bool, bool)>>>)
    requires
        v.paused,
    ensures
        ticks(v, rounds) == v,
    decreases rounds.len(),
{
    if rounds.len() > 0 {
        lemma_paused_ticks_change_nothing(v, rounds.drop_last());
    }
}

/// The brush side after `n` widenings.
pub open spec fn grown_times(size: nat, n: nat) -> nat
    decreases n,
{
    if n == 0 {
        size
    } else {
        grown(grown_times(size, (n - 1) as nat))
    }
}

/// The brush side after `n` narrowings.
pub open spec fn shrunk_times(size: nat, n: nat) -> nat
    decreases n,
{
    if n == 0 {
        size
    } else {
        shrunk(shrunk_times(size, (n - 1) as nat))
    }
}

/// Widening the brush `n` times from a side in `1 ..= 10` gives the side plus
/// `n`, capped at 10; so 20 widenings from 1 give 10.
pub proof fn lemma_grown_times_capped(size: nat, n: nat)
    requires
        1 <= size <= 10,
    ensures
        grown_times(size, n) == if size + n < 10 {
            size + n
        } else {
            10
        },
        grown_times(size, n) <= 10,
    decreases n,
{
    if n > 0 {
        lemma_grown_times_capped(size, (n - 1) as nat);
    }
}

/// Narrowing the brush `n` times from a side in `1 ..= 10` gives the side
/// minus `n`, but never less than 1.
pub proof fn lemma_shrunk_times_floored(size: nat, n: nat)
    requires
        1 <= size <= 10,
    ensures
        shrunk_times(size, n) == if size > n + 1 {
            (size - n) as nat
        } else {
            1
        },
        shrunk_times(size, n) >= 1,
    decreases n,
{
    if n > 0 {
        lemma_shrunk_times_floored(size, (n - 1) as nat);
    }
}

/// Sand with a cell lighter than 2 straight below it (air or water) moves
/// exactly one row down, trading places with that cell, whatever the order.
pub proof fn lemma_sand_falls_one_row(c: Seq<Cell>, x: int, y: int, order: (bool, bool))
    requires
        cell_at(c, x, y).material == Material::SAND,
        cell_at(c, x, y + 1).weight < 2,
    ensures
        update_step(c, x, y, order) == swapped(c, idx(x, y), idx(x, y + 1)),
{
}

/// Sand whose cell straight below is at least as heavy as 2 (stone, sand, or
/// the edge) but with air below-left moves diagonally left.
pub proof fn lemma_sand_slides_left(c: Seq<Cell>, x: int, y: int, order: (bool, bool))
    requires
        cell_at(c, x, y).material == Material::SAND,
        cell_at(c, x, y + 1).weight >= 2,
        cell_at(c, x - 1, y + 1) == air_cell(),
    ensures
        update_step(c, x, y, order) == swapped(c, idx(x, y), idx(x - 1, y + 1)),
{
}

/// Sand whose three cells below (straight, left, right) all weigh 2 or more,
/// such as stone or the edge, does not move.
pub proof fn lemma_sand_on_heavy_stays(c: Seq<Cell>, x: int, y: int, order: (bool, bool))
    requires
        cell_at(c, x, y).material == Material::SAND,
        cell_at(c, x, y + 1).weight >= 2,
        cell_at(c, x - 1, y + 1).weight >= 2,
        cell_at(c, x + 1, y + 1).weight >= 2,
    ensures
        update_step(c, x, y, order) == c,
{
}

} // verus!
