use vstd::prelude::*;

verus! {

/// The substance held by a grid position. `OOB` is never stored in the grid:
/// it stands for a position outside of it.
#[derive(Clone, Copy, Debug, PartialEq, Eq, Structural)]
pub enum Material {
    OOB,
    AIR,
    SAND,
    WATER,
    STONE,
}

/// The phase of a material, which selects its movement rule.
#[derive(Clone, Copy, Debug, PartialEq, Eq, Structural)]
pub enum CellType {
    NOTHING,
    SOLID,
    LIQUID,
}

/// One grid position's content. `weight` is the density used to decide
/// which cell may displace which.
#[derive(Clone, Copy, Debug, PartialEq, Eq, Structural)]
pub struct Cell {
    pub material: Material,
    pub weight: usize,
    pub cell_type: CellType,
    pub temperature: i8,
}

pub open spec fn oob_cell() -> Cell {
    Cell { material: Material::OOB, weight: 999, cell_type: CellType::NOTHING, temperature: 0 }
}

pub open spec fn air_cell() -> Cell {
    Cell { material: Material::AIR, weight: 0, cell_type: CellType::NOTHING, temperature: 0 }
}

pub open spec fn sand_cell() -> Cell {
    Cell { material: Material::SAND, weight: 2, cell_type: CellType::SOLID, temperature: 20 }
}

pub open spec fn stone_cell() -> Cell {
    Cell { material: Material::STONE, weight: 2, cell_type: CellType::SOLID, temperature: 20 }
}

pub open spec fn water_cell() -> Cell {
    Cell { material: Material::WATER, weight: 1, cell_type: CellType::LIQUID, temperature: 20 }
}

impl Cell {
    /// The sentinel for a position outside the grid; its weight exceeds
    /// every real material's, so it is never displaced.
    pub fn oob() -> (r: Cell)
        ensures
            r == oob_cell(),
    {
        Cell { material: Material::OOB, weight: 999, cell_type: CellType::NOTHING, temperature: 0 }
    }

    pub fn air() -> (r: Cell)
        ensures
            r == air_cell(),
    {
        Cell { material: Material::AIR, weight: 0, cell_type: CellType::NOTHING, temperature: 0 }
    }

    pub fn sand() -> (r: Cell)
        ensures
            r == sand_cell(),
    {
        Cell { material: Material::SAND, weight: 2, cell_type: CellType::SOLID, temperature: 20 }
    }

    pub fn stone() -> (r: Cell)
        ensures
            r == stone_cell(),
    {
        Cell { material: Material::STONE, weight: 2, cell_type: CellType::SOLID, temperature: 20 }
    }

    pub fn water() -> (r: Cell)
        ensures
            r == water_cell(),
    {
        Cell { material: Material::WATER, weight: 1, cell_type: CellType::LIQUID, temperature: 20 }
    }
}

} // verus!
