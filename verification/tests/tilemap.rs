use tango_driver::tilemap::{
    compute_tiles, lamppost_side, pavement_layout, select_pavement, straight_tile_pieces,
    LamppostSide, Neighbors, PavementLayout, PieceKind, TileType,
};

#[test]
fn tile_codes() {
    assert_eq!(TileType::try_from_code(0), Some(TileType::Grass));
    assert_eq!(TileType::try_from_code(1), Some(TileType::Grass));
    assert_eq!(TileType::try_from_code(2), Some(TileType::Road));
    assert_eq!(TileType::try_from_code(3), Some(TileType::Building));
    assert_eq!(TileType::try_from_code(4), None);
    assert_eq!(TileType::try_from_code(-1), None);
}

#[test]
fn neighbors_round_trip() {
    let arr = [true, false, true, false];
    let n = Neighbors::from_array(arr);
    assert_eq!(n.as_array(), arr);
}

#[test]
fn rotate_once_ccw() {
    let n = Neighbors::from_array([true, false, false, false]);
    // One quarter turn counterclockwise: the north flag moves to the west slot.
    assert_eq!(n.rotate_ccw(1).as_array(), [false, false, false, true]);
}

#[test]
fn rotate_wraps_and_reverses() {
    let n = Neighbors::from_array([true, false, true, true]);
    assert_eq!(n.rotate_ccw(4).as_array(), n.as_array());
    assert_eq!(n.rotate_ccw(5).as_array(), n.rotate_ccw(1).as_array());
    assert_eq!(n.rotate_ccw(-1).as_array(), n.rotate_ccw(3).as_array());
    assert_eq!(n.rotate_ccw(-7).as_array(), n.rotate_ccw(1).as_array());
}

#[test]
fn pavement_patterns() {
    let layout = |a: [bool; 4]| pavement_layout(&Neighbors::from_array(a));
    assert_eq!(layout([true, true, true, true]), Some(PavementLayout::Cross));
    assert_eq!(layout([false, true, true, true]), Some(PavementLayout::TJunction));
    assert_eq!(layout([false, false, true, false]), Some(PavementLayout::Straight));
    assert_eq!(layout([true, false, true, false]), Some(PavementLayout::Straight));
    assert_eq!(layout([false, true, true, false]), Some(PavementLayout::Turn));
    assert_eq!(layout([false, false, false, false]), None);
    assert_eq!(layout([true, true, false, true]), None);
}

#[test]
fn pavement_search_prefers_least_rotation() {
    let all = Neighbors::from_array([true, true, true, true]);
    assert_eq!(select_pavement(&all), Some((0, PavementLayout::Cross)));

    // A corner opening north and west fits the turn pattern after two
    // quarter turns clockwise.
    let corner = Neighbors::from_array([true, false, false, true]);
    assert_eq!(select_pavement(&corner), Some((2, PavementLayout::Turn)));

    let none = Neighbors::from_array([false, false, false, false]);
    assert_eq!(select_pavement(&none), None);
}

#[test]
fn lamppost_alternates_by_parity() {
    assert_eq!(lamppost_side(0, 0), LamppostSide::East);
    assert_eq!(lamppost_side(2, 1), LamppostSide::West);
    assert_eq!(lamppost_side(3, 1), LamppostSide::East);
}

#[test]
fn tiles_of_a_small_grid() {
    let map = vec![
        vec![TileType::Grass, TileType::Road, TileType::Road],
        vec![TileType::Grass, TileType::Grass, TileType::Building],
    ];
    let tiles = compute_tiles(&map);
    assert_eq!(tiles.len(), 6);

    let t = &tiles[0];
    assert_eq!((t.tp, t.x, t.y), (TileType::Grass, 0, 0));
    assert_eq!(t.neighbors.as_array(), [true, false, false, false]);

    let t = &tiles[1];
    assert_eq!((t.tp, t.x, t.y), (TileType::Road, 1, 0));
    assert_eq!(t.neighbors.as_array(), [false, true, false, false]);

    let t = &tiles[5];
    assert_eq!((t.tp, t.x, t.y), (TileType::Building, 2, 1));
    assert_eq!(t.neighbors.as_array(), [false, false, false, false]);
}

#[test]
fn tiles_of_an_empty_grid() {
    let map: Vec<Vec<TileType>> = Vec::new();
    assert_eq!(compute_tiles(&map).len(), 0);
}

#[test]
fn straight_tiles_lay_out_their_pieces() {
    let pieces = straight_tile_pieces(0, 0);
    assert_eq!(pieces.len(), 16);
    // Each strip: pavement, then sidewalk and curb on both sides.
    assert_eq!((pieces[0].kind, pieces[0].dx_thirds, pieces[0].dy_thirds), (PieceKind::Pavement, 0, -1));
    assert_eq!((pieces[2].kind, pieces[2].quarter_turns), (PieceKind::Curb, 1));
    assert_eq!((pieces[4].kind, pieces[4].quarter_turns), (PieceKind::Curb, -1));
    assert_eq!(pieces[5].dy_thirds, 0);
    assert_eq!(pieces[10].dy_thirds, 1);
    // Even cells put the lamppost east, odd cells west and turned around.
    let east = pieces[15];
    assert_eq!((east.kind, east.dx_thirds, east.quarter_turns), (PieceKind::Lamppost, 1, 0));
    let west = straight_tile_pieces(1, 0)[15];
    assert_eq!((west.kind, west.dx_thirds, west.quarter_turns), (PieceKind::Lamppost, -1, 2));
}
