use iso_picking::geometry::{locate, CellCoord, CoordinateSystem, GridGeometry, Placement, WorldPoint};
use iso_picking::grid::{ConfigError, GridInstance, TileHit};
use iso_picking::pointer::{get_tile_on_mouse_position, update_cursor_pos, CursorPos};
use iso_picking::registry::{OccupantRegistry, OutOfBounds};

fn geometry(system: CoordinateSystem) -> GridGeometry {
    GridGeometry { width: 8, height: 8, cell_width: 16, cell_height: 8, system }
}

fn filled(placement: Placement, system: CoordinateSystem) -> GridInstance {
    let mut g = GridInstance::new(placement, geometry(system)).unwrap();
    for x in 0..8u16 {
        for y in 0..8u16 {
            g.set(CellCoord { x, y }, 100 + (y as u64) * 8 + x as u64).unwrap();
        }
    }
    g
}

fn turned() -> Placement {
    // a quarter turn with scale 2, then a shift
    Placement { m00: 0, m01: -2, m10: 2, m11: 0, tx: -64, ty: 30 }
}

#[test]
fn end_to_end_diamond_scenario() {
    let mut g = filled(Placement::identity(), CoordinateSystem::IsometricDiamond);
    let c = CellCoord { x: 3, y: 4 };
    let center = g.cell_center(c);
    assert_eq!(center, WorldPoint { x: 112, y: 8, w: 2 });
    assert_eq!(g.locate(&center), Some(c));
    assert_eq!(g.resolve(&center), Some(100 + 4 * 8 + 3));
    assert_eq!(g.resolve(&WorldPoint::new(10000, 10000)), None);
    g.set(c, 7).unwrap();
    assert_eq!(g.resolve(&center), Some(7));
}

#[test]
fn centers_round_trip_orthogonal() {
    for placement in [Placement::identity(), turned(), Placement::translation(5, -7)] {
        let g = filled(placement, CoordinateSystem::Orthogonal);
        for x in 0..8u16 {
            for y in 0..8u16 {
                let c = CellCoord { x, y };
                let p = g.cell_center(c);
                assert_eq!(g.locate(&p), Some(c));
                assert_eq!(g.resolve(&p), Some(100 + (y as u64) * 8 + x as u64));
            }
        }
    }
}

#[test]
fn centers_round_trip_diamond() {
    for placement in [Placement::identity(), turned(), Placement::translation(5, -7)] {
        let g = filled(placement, CoordinateSystem::IsometricDiamond);
        for x in 0..8u16 {
            for y in 0..8u16 {
                let c = CellCoord { x, y };
                let p = g.cell_center(c);
                assert_eq!(g.locate(&p), Some(c));
                assert_eq!(g.resolve(&p), Some(100 + (y as u64) * 8 + x as u64));
            }
        }
    }
}

#[test]
fn cell_center_values() {
    let ortho = GridInstance::new(Placement::identity(), geometry(CoordinateSystem::Orthogonal)).unwrap();
    assert_eq!(ortho.cell_center(CellCoord { x: 2, y: 3 }), WorldPoint { x: 80, y: 56, w: 2 });
    let turned_grid = GridInstance::new(turned(), geometry(CoordinateSystem::Orthogonal)).unwrap();
    // local centre (40, 28) turned and doubled is (-56, 80), then shifted by (-64, 30)
    assert_eq!(turned_grid.cell_center(CellCoord { x: 2, y: 3 }), WorldPoint { x: -240, y: 220, w: 2 });
}

#[test]
fn boundary_goes_to_higher_cell_orthogonal() {
    let g = GridInstance::new(Placement::identity(), geometry(CoordinateSystem::Orthogonal)).unwrap();
    assert_eq!(g.locate(&WorldPoint::new(16, 0)), Some(CellCoord { x: 1, y: 0 }));
    assert_eq!(g.locate(&WorldPoint::new(15, 7)), Some(CellCoord { x: 0, y: 0 }));
    assert_eq!(g.locate(&WorldPoint::new(15, 8)), Some(CellCoord { x: 0, y: 1 }));
    assert_eq!(g.locate(&WorldPoint::new(0, 0)), Some(CellCoord { x: 0, y: 0 }));
}

#[test]
fn boundary_goes_to_higher_cell_diamond() {
    let g = GridInstance::new(Placement::identity(), geometry(CoordinateSystem::IsometricDiamond)).unwrap();
    // midpoint of the edge shared by (0, 0) and (1, 0)
    assert_eq!(g.locate(&WorldPoint::new(4, -2)), Some(CellCoord { x: 1, y: 0 }));
    // midpoint of the edge shared by (0, 0) and (0, 1)
    assert_eq!(g.locate(&WorldPoint::new(4, 2)), Some(CellCoord { x: 0, y: 1 }));
    // just inside (0, 0)
    assert_eq!(g.locate(&WorldPoint { x: 7, y: -3, w: 2 }), Some(CellCoord { x: 0, y: 0 }));
}

#[test]
fn out_of_range_is_none() {
    let g = filled(Placement::identity(), CoordinateSystem::Orthogonal);
    assert_eq!(g.resolve(&WorldPoint::new(-1, 0)), None);
    assert_eq!(g.resolve(&WorldPoint::new(0, -1)), None);
    assert_eq!(g.resolve(&WorldPoint::new(128, 0)), None);
    assert_eq!(g.resolve(&WorldPoint::new(0, 64)), None);
    assert_eq!(g.resolve(&WorldPoint::new(127, 63)), Some(100 + 7 * 8 + 7));
    assert_eq!(g.resolve(&WorldPoint { x: 5, y: 5, w: 0 }), None);
    let d = filled(Placement::identity(), CoordinateSystem::IsometricDiamond);
    // the left vertex of (0, 0) is its lowest corner on both axes, so it belongs to it;
    // a point just beyond it lies in (-1, -1)
    assert_eq!(d.resolve(&WorldPoint::new(-8, 0)), Some(100));
    assert_eq!(d.resolve(&WorldPoint::new(-9, 0)), None);
    assert_eq!(d.resolve(&WorldPoint::new(i64::MIN, i64::MAX)), None);
}

#[test]
fn empty_slot_then_set() {
    let mut g = GridInstance::new(turned(), geometry(CoordinateSystem::IsometricDiamond)).unwrap();
    let c = CellCoord { x: 5, y: 2 };
    let p = g.cell_center(c);
    assert_eq!(g.resolve(&p), None);
    assert_eq!(g.tile_at(&p), None);
    assert_eq!(g.set(c, 42), Ok(()));
    assert_eq!(g.resolve(&p), Some(42));
    assert_eq!(g.tile_at(&p), Some(TileHit { cell: c, occupant: 42 }));
    assert_eq!(g.set(c, 43), Ok(()));
    assert_eq!(g.get(c), Some(43));
    assert_eq!(g.get(CellCoord { x: 2, y: 5 }), None);
}

#[test]
fn resolve_is_repeatable() {
    let g = filled(turned(), CoordinateSystem::IsometricDiamond);
    let p = WorldPoint::new(-70, 100);
    let first = g.resolve(&p);
    for _ in 0..5 {
        assert_eq!(g.resolve(&p), first);
    }
}

#[test]
fn sentinel_before_any_event() {
    let cursor = CursorPos::default();
    assert_eq!(cursor.current(), WorldPoint::new(-1000, -1000));
    let g = filled(Placement::translation(-64, 0), CoordinateSystem::IsometricDiamond);
    assert_eq!(g.resolve(&cursor.current()), None);
    let o = filled(Placement::identity(), CoordinateSystem::Orthogonal);
    assert_eq!(o.resolve(&cursor.current()), None);
}

#[test]
fn last_projection_wins() {
    let mut cursor = CursorPos::new(WorldPoint::new(1, 1));
    update_cursor_pos(&mut cursor, &vec![None, None]);
    assert_eq!(cursor.current(), WorldPoint::new(1, 1));
    update_cursor_pos(&mut cursor, &vec![Some(WorldPoint::new(5, 6)), None, Some(WorldPoint::new(7, 8)), None]);
    assert_eq!(cursor.current(), WorldPoint::new(7, 8));
    update_cursor_pos(&mut cursor, &vec![]);
    assert_eq!(cursor.current(), WorldPoint::new(7, 8));
    cursor.update(None);
    assert_eq!(cursor.current(), WorldPoint::new(7, 8));
    cursor.update(Some(WorldPoint::new(-3, 2)));
    assert_eq!(cursor.current(), WorldPoint::new(-3, 2));
}

#[test]
fn every_grid_is_queried() {
    let a = filled(Placement::identity(), CoordinateSystem::IsometricDiamond);
    let b = GridInstance::new(Placement::translation(0, -4), geometry(CoordinateSystem::IsometricDiamond)).unwrap();
    let c = filled(Placement::translation(5000, 0), CoordinateSystem::Orthogonal);
    let cursor = CursorPos(WorldPoint { x: 112, y: 8, w: 2 });
    let hits = get_tile_on_mouse_position(&cursor, &vec![a, b, c]);
    assert_eq!(hits, vec![Some(TileHit { cell: CellCoord { x: 3, y: 4 }, occupant: 100 + 4 * 8 + 3 }), None, None]);
}

#[test]
fn configuration_errors() {
    let mut g = geometry(CoordinateSystem::Orthogonal);
    g.width = 0;
    assert_eq!(GridInstance::new(Placement::identity(), g).err(), Some(ConfigError::EmptyGrid));
    let mut g = geometry(CoordinateSystem::Orthogonal);
    g.cell_height = 0;
    assert_eq!(GridInstance::new(Placement::identity(), g).err(), Some(ConfigError::EmptyCell));
    let flat = Placement { m00: 2, m01: 4, m10: 1, m11: 2, tx: 0, ty: 0 };
    assert_eq!(
        GridInstance::new(flat, geometry(CoordinateSystem::IsometricDiamond)).err(),
        Some(ConfigError::DegeneratePlacement)
    );
}

#[test]
fn set_outside_is_reported() {
    let mut g = GridInstance::new(Placement::identity(), geometry(CoordinateSystem::Orthogonal)).unwrap();
    assert_eq!(g.set(CellCoord { x: 8, y: 0 }, 1), Err(OutOfBounds { x: 8, y: 0 }));
    assert_eq!(g.set(CellCoord { x: 0, y: 8 }, 1), Err(OutOfBounds { x: 0, y: 8 }));
    assert_eq!(g.get(CellCoord { x: 8, y: 0 }), None);
    let mut r = OccupantRegistry::empty(3, 2);
    assert_eq!(r.get(CellCoord { x: 2, y: 1 }), None);
    assert_eq!(r.set(CellCoord { x: 2, y: 1 }, 9), Ok(()));
    assert_eq!(r.get(CellCoord { x: 2, y: 1 }), Some(9));
    assert_eq!(r.get(CellCoord { x: 1, y: 2 }), None);
    assert_eq!(r.set(CellCoord { x: 3, y: 0 }, 9), Err(OutOfBounds { x: 3, y: 0 }));
}

#[test]
fn free_locate_matches_grid() {
    let geo = geometry(CoordinateSystem::IsometricDiamond);
    let p = turned();
    let g = GridInstance::new(p, geo).unwrap();
    for x in -300..300i64 {
        let pt = WorldPoint { x, y: 3 * x / 2, w: 3 };
        assert_eq!(locate(&geo, &p, &pt), g.locate(&pt));
    }
}
