//! The tile grid of the city: tile kinds, the neighbour flags of each tile,
//! and the construction of the grid from a rectangular map of tile kinds.

use vstd::prelude::*;

verus! {

/// The kind of a map tile. Map cells carry a numeric code; codes 0 and 1
/// both stand for grass, 2 for road and 3 for a building.
#[derive(PartialEq, Eq, Structural, Debug, Clone, Copy)]
pub enum TileType {
    Empty,
    Grass,
    Road,
    Building,
}

impl View for TileType {
    type V = TileType;

    open spec fn view(&self) -> TileType {
        *self
    }
}

impl DeepView for TileType {
    type V = TileType;

    open spec fn deep_view(&self) -> TileType {
        *self
    }
}

impl TileType {
    /// The tile kind a numeric map code stands for, or `None` for a code
    /// outside the map format.
    pub fn try_from_code(value: i32) -> (t: Option<TileType>)
        ensures
            t == TileType::spec_from_code(value),
    {
        match value {
            0 => Some(TileType::Grass),
            1 => Some(TileType::Grass),
            2 => Some(TileType::Road),
            3 => Some(TileType::Building),
            _ => None,
        }
    }

    /// The meaning of each numeric map code.
    pub open spec fn spec_from_code(value: i32) -> Option<TileType> {
        if value == 0 || value == 1 {
            Some(TileType::Grass)
        } else if value == 2 {
            Some(TileType::Road)
        } else if value == 3 {
            Some(TileType::Building)
        } else {
            None
        }
    }
}

/// For one tile, whether the tile in each cardinal direction has the same
/// kind as this tile.
#[derive(PartialEq, Eq, Structural, Debug, Clone, Copy)]
pub struct Neighbors {
    north: bool,
    east: bool,
    south: bool,
    west: bool,
}

impl Neighbors {
    /// The four flags in the fixed order north, east, south, west.
    pub closed spec fn spec_as_seq(self) -> Seq<bool> {
        seq![self.north, self.east, self.south, self.west]
    }

    pub fn from_array(arr: [bool; 4]) -> (n: Neighbors)
        ensures
            n.spec_as_seq() == arr@,
    {
        let n = Neighbors { north: arr[0], east: arr[1], south: arr[2], west: arr[3] };
        proof {
            assert(n.spec_as_seq() =~= arr@);
        }
        n
    }

    pub fn as_array(&self) -> (arr: [bool; 4])
        ensures
            arr@ == self.spec_as_seq(),
    {
        let arr = [self.north, self.east, self.south, self.west];
        proof {
            assert(arr@ =~= self.spec_as_seq());
        }
        arr
    }

    /// Rotates the flags a quarter turn counterclockwise `count` times; a
    /// negative count turns clockwise.
    pub fn rotate_ccw(&self, count: i32) -> (r: Neighbors)
        ensures
            r.spec_as_seq() == flags_rotated_ccw(self.spec_as_seq(), count as int),
    {
        let c: i32 = count.checked_rem_euclid(4).unwrap();
        let r = if c == 0 {
            *self
        } else if c == 1 {
            Neighbors { north: self.east, east: self.south, south: self.west, west: self.north }
        } else if c == 2 {
            Neighbors { north: self.south, east: self.west, south: self.north, west: self.east }
        } else {
            Neighbors { north: self.west, east: self.north, south: self.east, west: self.south }
        };
        proof {
            assert(r.spec_as_seq() =~= flags_rotated_ccw(self.spec_as_seq(), count as int));
        }
        r
    }
}

/// The neighbour flags after `count` quarter turns counterclockwise: position
/// `k` of the result holds the flag that sat `count` places further along,
/// wrapping around.
pub open spec fn flags_rotated_ccw(flags: Seq<bool>, count: int) -> Seq<bool> {
    let c = count % 4;
    if c == 0 {
        flags
    } else if c == 1 {
        seq![flags[1], flags[2], flags[3], flags[0]]
    } else if c == 2 {
        seq![flags[2], flags[3], flags[0], flags[1]]
    } else {
        seq![flags[3], flags[0], flags[1], flags[2]]
    }
}

/// Quarter turns compose: rotating by `a` and then by `b` is rotating by
/// `a + b`, so four turns in either direction come back to the start.
pub proof fn lemma_rotation_composes(flags: Seq<bool>, a: int, b: int)
    requires
        flags.len() == 4,
    ensures
        flags_rotated_ccw(flags_rotated_ccw(flags, a), b) == flags_rotated_ccw(flags, a + b),
{
    vstd::arithmetic::div_mod::lemma_add_mod_noop(a, b, 4);
    assert(flags_rotated_ccw(flags_rotated_ccw(flags, a), b) =~= flags_rotated_ccw(
        flags,
        a + b,
    ));
}

/// Every `Neighbors` value carries exactly the four cardinal flags.
pub proof fn lemma_neighbors_seq_len(n: Neighbors)
    ensures
        n.spec_as_seq().len() == 4,
{
}

/// How a road tile is paved, chosen from its neighbour flags.
#[derive(PartialEq, Eq, Structural, Debug, Clone, Copy)]
pub enum PavementLayout {
    /// Road on all four sides: a crossing.
    Cross,
    /// Road on every side but the north: a T junction.
    TJunction,
    /// Road to the south but to neither side: a straight segment.
    Straight,
    /// Road to the east and south only: a corner.
    Turn,
}

/// The layout a set of neighbour flags (north, east, south, west) calls
/// for, or `None` when no pattern fits this orientation.
pub open spec fn pavement_layout_spec(flags: Seq<bool>) -> Option<PavementLayout> {
    if flags[0] && flags[1] && flags[2] && flags[3] {
        Some(PavementLayout::Cross)
    } else if !flags[0] && flags[1] && flags[2] && flags[3] {
        Some(PavementLayout::TJunction)
    } else if !flags[1] && flags[2] && !flags[3] {
        Some(PavementLayout::Straight)
    } else if !flags[0] && flags[1] && flags[2] && !flags[3] {
        Some(PavementLayout::Turn)
    } else {
        None
    }
}

/// Picks the pavement pattern that the neighbour flags call for in their
/// given orientation.
pub fn pavement_layout(n: &Neighbors) -> (r: Option<PavementLayout>)
    ensures
        r == pavement_layout_spec(n.spec_as_seq()),
{
    let arr = n.as_array();
    if arr[0] && arr[1] && arr[2] && arr[3] {
        Some(PavementLayout::Cross)
    } else if !arr[0] && arr[1] && arr[2] && arr[3] {
        Some(PavementLayout::TJunction)
    } else if !arr[1] && arr[2] && !arr[3] {
        Some(PavementLayout::Straight)
    } else if !arr[0] && arr[1] && arr[2] && !arr[3] {
        Some(PavementLayout::Turn)
    } else {
        None
    }
}

/// The neighbour flags as they look after turning the tile `rot` quarter
/// turns clockwise.
pub open spec fn flags_rotated_cw(flags: Seq<bool>, rot: int) -> Seq<bool> {
    flags_rotated_ccw(flags, -rot)
}

/// Searches the four orientations of a road tile, least rotation first, for
/// one whose neighbour flags fit a pavement pattern. Returns the rotation
/// count (quarter turns clockwise) together with the pattern, or `None` when
/// no orientation fits.
pub fn select_pavement(n: &Neighbors) -> (r: Option<(u32, PavementLayout)>)
    ensures
        match r {
            Some((rot, layout)) => {
                &&& rot < 4
                &&& pavement_layout_spec(flags_rotated_cw(n.spec_as_seq(), rot as int)) == Some(
                    layout,
                )
                &&& forall|p: int|
                    0 <= p < rot ==> pavement_layout_spec(
                        #[trigger] flags_rotated_cw(n.spec_as_seq(), p),
                    ) is None
            },
            None => forall|p: int|
                0 <= p < 4 ==> pavement_layout_spec(
                    #[trigger] flags_rotated_cw(n.spec_as_seq(), p),
                ) is None,
        },
{
    let rotated0 = n.rotate_ccw(0);
    proof {
        assert(rotated0.spec_as_seq() == flags_rotated_cw(n.spec_as_seq(), 0));
    }
    if let Some(layout) = pavement_layout(&rotated0) {
        return Some((0, layout));
    }
    let rotated1 = n.rotate_ccw(-1);
    proof {
        assert(rotated1.spec_as_seq() == flags_rotated_cw(n.spec_as_seq(), 1));
    }
    if let Some(layout) = pavement_layout(&rotated1) {
        return Some((1, layout));
    }
    let rotated2 = n.rotate_ccw(-2);
    proof {
        assert(rotated2.spec_as_seq() == flags_rotated_cw(n.spec_as_seq(), 2));
    }
    if let Some(layout) = pavement_layout(&rotated2) {
        return Some((2, layout));
    }
    let rotated3 = n.rotate_ccw(-3);
    proof {
        assert(rotated3.spec_as_seq() == flags_rotated_cw(n.spec_as_seq(), 3));
    }
    if let Some(layout) = pavement_layout(&rotated3) {
        return Some((3, layout));
    }
    None
}

/// Which side of a straight pavement segment gets the lamppost. Tiles
/// alternate by the parity of the sum of their grid coordinates.
#[derive(PartialEq, Eq, Structural, Debug, Clone, Copy)]
pub enum LamppostSide {
    East,
    West,
}

/// The lamppost stands east on tiles whose coordinates sum to an even
/// number, west on the others.
pub fn lamppost_side(x: usize, y: usize) -> (s: LamppostSide)
    ensures
        s == (if (x + y) % 2 == 0 {
            LamppostSide::East
        } else {
            LamppostSide::West
        }),
{
    let p = (x % 2 + y % 2) % 2;
    proof {
        vstd::arithmetic::div_mod::lemma_add_mod_noop(x as int, y as int, 2);
    }
    if p == 0 {
        LamppostSide::East
    } else {
        LamppostSide::West
    }
}

/// A decoration piece of a straight pavement tile.
#[derive(PartialEq, Eq, Structural, Debug, Clone, Copy)]
pub enum PieceKind {
    Pavement,
    Sidewalk,
    Curb,
    Lamppost,
}

/// Where a piece stands on its tile and how it is turned: offsets in thirds
/// of a tile from the tile's centre, and quarter turns counterclockwise.
#[derive(PartialEq, Eq, Structural, Debug, Clone, Copy)]
pub struct PiecePlacement {
    pub kind: PieceKind,
    pub dx_thirds: i8,
    pub dy_thirds: i8,
    pub quarter_turns: i8,
}

/// The pieces of a straight pavement tile: three pavement strips across the
/// tile, a sidewalk and a curb on both sides of each strip with the curbs
/// turned to face the road, and one lamppost — on the east side when
/// `lamppost_east` holds, turned around on the west side otherwise.
pub open spec fn straight_piece_seq(lamppost_east: bool) -> Seq<PiecePlacement> {
    let strips = seq![
        straight_strip(-1i8),
        straight_strip(0i8),
        straight_strip(1i8),
    ].flatten();
    let lamppost = if lamppost_east {
        PiecePlacement { kind: PieceKind::Lamppost, dx_thirds: 1, dy_thirds: 0, quarter_turns: 0 }
    } else {
        PiecePlacement { kind: PieceKind::Lamppost, dx_thirds: -1i8, dy_thirds: 0, quarter_turns: 2 }
    };
    strips.push(lamppost)
}

/// One strip of a straight pavement tile: the pavement itself, then the
/// sidewalk and curb of each side. The west curb turns a quarter left, the
/// east curb a quarter right.
pub open spec fn straight_strip(dy: i8) -> Seq<PiecePlacement> {
    seq![
        PiecePlacement { kind: PieceKind::Pavement, dx_thirds: 0, dy_thirds: dy, quarter_turns: 0 },
        PiecePlacement { kind: PieceKind::Sidewalk, dx_thirds: -1i8, dy_thirds: dy, quarter_turns: 0 },
        PiecePlacement { kind: PieceKind::Curb, dx_thirds: -1i8, dy_thirds: dy, quarter_turns: 1 },
        PiecePlacement { kind: PieceKind::Sidewalk, dx_thirds: 1, dy_thirds: dy, quarter_turns: 0 },
        PiecePlacement { kind: PieceKind::Curb, dx_thirds: 1, dy_thirds: dy, quarter_turns: -1i8 },
    ]
}

/// Lays out a straight pavement tile at grid cell (`x`, `y`): the three
/// strips with their sidewalks and curbs, and the lamppost on the side the
/// cell's parity picks.
pub fn straight_tile_pieces(x: usize, y: usize) -> (r: Vec<PiecePlacement>)
    ensures
        r@ == straight_piece_seq((x + y) % 2 == 0),
{
    let mut r: Vec<PiecePlacement> = Vec::new();
    let mut strip: i8 = -1;
    while strip <= 1
        invariant
            -1 <= strip <= 2,
            r@ == seq![
                straight_strip(-1i8),
                straight_strip(0i8),
                straight_strip(1i8),
            ].take(strip + 1).flatten(),
        decreases 2 - strip,
    {
        r.push(
            PiecePlacement {
                kind: PieceKind::Pavement,
                dx_thirds: 0,
                dy_thirds: strip,
                quarter_turns: 0,
            },
        );
        r.push(
            PiecePlacement {
                kind: PieceKind::Sidewalk,
                dx_thirds: -1,
                dy_thirds: strip,
                quarter_turns: 0,
            },
        );
        r.push(
            PiecePlacement { kind: PieceKind::Curb, dx_thirds: -1, dy_thirds: strip, quarter_turns: 1 },
        );
        r.push(
            PiecePlacement {
                kind: PieceKind::Sidewalk,
                dx_thirds: 1,
                dy_thirds: strip,
                quarter_turns: 0,
            },
        );
        r.push(
            PiecePlacement { kind: PieceKind::Curb, dx_thirds: 1, dy_thirds: strip, quarter_turns: -1 },
        );
        proof {
            let all = seq![straight_strip(-1i8), straight_strip(0i8), straight_strip(1)];
            assert(all.take(strip + 2) =~= all.take(strip + 1).push(straight_strip(strip)));
            all.take(strip + 1).lemma_flatten_push(straight_strip(strip));
            assert(r@ =~= all.take(strip + 2).flatten());
        }
        strip += 1;
    }
    let side = lamppost_side(x, y);
    let lamppost = match side {
        LamppostSide::East => PiecePlacement {
            kind: PieceKind::Lamppost,
            dx_thirds: 1,
            dy_thirds: 0,
            quarter_turns: 0,
        },
        LamppostSide::West => PiecePlacement {
            kind: PieceKind::Lamppost,
            dx_thirds: -1,
            dy_thirds: 0,
            quarter_turns: 2,
        },
    };
    r.push(lamppost);
    proof {
        let all = seq![straight_strip(-1i8), straight_strip(0i8), straight_strip(1)];
        assert(all.take(3) =~= all);
        assert(r@ =~= straight_piece_seq((x + y) % 2 == 0));
    }
    r
}

/// One cell of the generated city: its kind, its grid coordinates
/// (`x` counts columns, `y` counts rows from the bottom), and whether each
/// cardinal neighbour shares its kind.
#[derive(PartialEq, Eq, Structural, Debug, Clone, Copy)]
pub struct Tile {
    pub tp: TileType,
    pub x: usize,
    pub y: usize,
    pub neighbors: Neighbors,
}

/// The common row length of a rectangular map, 0 for an empty map.
pub open spec fn grid_cols(map: Seq<Vec<TileType>>) -> int {
    if map.len() == 0 {
        0
    } else {
        map[0]@.len() as int
    }
}

/// Every row has the common length.
pub open spec fn grid_rectangular(map: Seq<Vec<TileType>>) -> bool {
    forall|r: int| 0 <= r < map.len() ==> (#[trigger] map[r]@.len()) == grid_cols(map)
}

/// The neighbour flags of cell (`i`, `j`): north, east, south, west, each
/// true when that neighbouring cell exists and has the same kind.
pub open spec fn grid_neighbor_flags(map: Seq<Vec<TileType>>, i: int, j: int) -> Seq<bool> {
    let tp = map[i]@[j];
    seq![
        i + 1 < map.len() && map[i + 1]@[j] == tp,
        j + 1 < map[i]@.len() && map[i]@[j + 1] == tp,
        i > 0 && map[i - 1]@[j] == tp,
        j > 0 && map[i]@[j - 1] == tp,
    ]
}

/// `t` is the tile that cell (`i`, `j`) of `map` generates.
pub open spec fn tile_matches_grid(map: Seq<Vec<TileType>>, t: Tile, i: int, j: int) -> bool {
    &&& t.tp == map[i]@[j]
    &&& t.x == j
    &&& t.y == i
    &&& t.neighbors.spec_as_seq() == grid_neighbor_flags(map, i, j)
}

proof fn lemma_flat_index_lt(r: int, c: int, i: int, j: int, cols: int)
    requires
        0 <= c < cols,
        0 <= r,
        0 <= j,
        r < i || (r == i && c < j),
    ensures
        r * cols + c < i * cols + j,
{
    if r < i {
        assert(r * cols + cols <= i * cols) by (nonlinear_arith)
            requires
                r < i,
                cols > 0,
        ;
    }
}

/// Builds the tile list of a rectangular map in row-major order: the tile of
/// cell (`i`, `j`) stands at index `i * cols + j`, carries the cell's kind and
/// coordinates, and its neighbour flags compare the cell with the four
/// adjacent cells.
pub fn compute_tiles(map: &Vec<Vec<TileType>>) -> (tiles: Vec<Tile>)
    requires
        grid_rectangular(map@),
    ensures
        tiles@.len() == map@.len() * grid_cols(map@),
        forall|i: int, j: int|
            0 <= i < map@.len() && 0 <= j < grid_cols(map@) ==> tile_matches_grid(
                map@,
                #[trigger] (tiles@[i * grid_cols(map@) + j]),
                i,
                j,
            ),
{
    let rows = map.len();
    let cols = if rows == 0 {
        0
    } else {
        map[0].len()
    };
    let mut tiles: Vec<Tile> = Vec::new();
    let mut i: usize = 0;
    while i < rows
        invariant
            grid_rectangular(map@),
            rows == map@.len(),
            cols == grid_cols(map@),
            i <= rows,
            tiles@.len() == i * cols,
            forall|r: int, c: int|
                0 <= r < i && 0 <= c < cols ==> tile_matches_grid(
                    map@,
                    #[trigger] (tiles@[r * cols + c]),
                    r,
                    c,
                ),
        decreases rows - i,
    {
        let mut j: usize = 0;
        while j < cols
            invariant
                grid_rectangular(map@),
                rows == map@.len(),
                cols == grid_cols(map@),
                i < rows,
                j <= cols,
                tiles@.len() == i * cols + j,
                forall|r: int, c: int|
                    0 <= r <= i && 0 <= c < cols && (r < i || c < j) ==> tile_matches_grid(
                        map@,
                        #[trigger] (tiles@[r * cols + c]),
                        r,
                        c,
                    ),
            decreases cols - j,
        {
            let tp = map[i][j];
            let north = i + 1 < rows && map[i + 1][j] == tp;
            let east = j + 1 < cols && map[i][j + 1] == tp;
            let south = i > 0 && map[i - 1][j] == tp;
            let west = j > 0 && map[i][j - 1] == tp;
            let neighbors = Neighbors::from_array([north, east, south, west]);
            proof {
                assert(neighbors.spec_as_seq() =~= grid_neighbor_flags(map@, i as int, j as int));
            }
            let tile = Tile { tp, x: j, y: i, neighbors };
            tiles.push(tile);
            proof {
                assert forall|r: int, c: int|
                    0 <= r <= i && 0 <= c < cols && (r < i || c < j + 1) implies tile_matches_grid(
                    map@,
                    #[trigger] (tiles@[r * cols + c]),
                    r,
                    c,
                ) by {
                    if r < i || c < j {
                        lemma_flat_index_lt(r, c, i as int, j as int, cols as int);
                    }
                }
            }
            j += 1;
        }
        proof {
            assert(i * cols + cols == (i + 1) * cols) by (nonlinear_arith);
        }
        i += 1;
    }
    tiles
}

} // verus!
