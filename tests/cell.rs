use rhysix::cell::{Cell, CellType, Material};

#[test]
fn constructors_have_canonical_values() {
    let o = Cell::oob();
    assert_eq!((o.material, o.weight, o.cell_type, o.temperature), (Material::OOB, 999, CellType::NOTHING, 0));
    let a = Cell::air();
    assert_eq!((a.material, a.weight, a.cell_type, a.temperature), (Material::AIR, 0, CellType::NOTHING, 0));
    let s = Cell::sand();
    assert_eq!((s.material, s.weight, s.cell_type, s.temperature), (Material::SAND, 2, CellType::SOLID, 20));
    let t = Cell::stone();
    assert_eq!((t.material, t.weight, t.cell_type, t.temperature), (Material::STONE, 2, CellType::SOLID, 20));
    let w = Cell::water();
    assert_eq!((w.material, w.weight, w.cell_type, w.temperature), (Material::WATER, 1, CellType::LIQUID, 20));
}

#[test]
fn sentinel_outweighs_every_material() {
    for c in [Cell::air(), Cell::sand(), Cell::stone(), Cell::water()] {
        assert!(c.weight < Cell::oob().weight);
    }
}
