//! Hex geometry, tile algebra, and the board/game state they act on.
//!
//! The board is a 7x7 grid clipped to a hexagon; tiles carry one of four
//! fixed connection permutations over the six hex-edge directions and may be
//! rotated in 60-degree steps.
use vstd::prelude::*;
use vstd::string::StringExecFns;

verus! {

broadcast use vstd::array::group_array_axioms;

/// A rotation of the hex grid in 60-degree steps, clockwise.
/// Valid rotations are 0 through 5; 1 is 60 degrees clockwise.
#[derive(Clone, Copy, PartialEq, Eq, Structural, Debug, Hash)]
pub struct Rotation(pub u8);

pub open spec fn rotation_valid(r: Rotation) -> bool {
    r.0 < 6
}

/// The rotation reached by composing `a` and `b` (addition mod 6).
pub open spec fn spec_rot_plus(a: Rotation, b: Rotation) -> Rotation {
    Rotation(((a.0 + b.0) % 6) as u8)
}

/// The rotation that undoes `r` (negation mod 6).
pub open spec fn spec_rot_reversed(r: Rotation) -> Rotation {
    Rotation(((6 - r.0 as int) % 6) as u8)
}

impl Rotation {
    /// The rotation that undoes this one: rotating by `self` and then by
    /// `self.reversed()` is the identity.
    pub fn reversed(&self) -> (r: Rotation)
        requires
            rotation_valid(*self),
        ensures
            r == spec_rot_reversed(*self),
            rotation_valid(r),
    {
        Rotation((6 - self.0) % 6)
    }

    /// Composition of two rotations (addition mod 6).
    pub fn plus(self, rhs: Rotation) -> (r: Rotation)
        requires
            rotation_valid(self),
            rotation_valid(rhs),
        ensures
            r == spec_rot_plus(self, rhs),
            rotation_valid(r),
    {
        Rotation((self.0 + rhs.0) % 6)
    }
}

/// Positions with coordinates this far from the origin are always safe to
/// offset by a handful of unit steps without arithmetic overflow.
pub const POS_LIMIT: i32 = 1000000;

/// A position on (or near) the board grid: row 0 is the bottom row.
#[derive(Clone, Copy, PartialEq, Eq, Structural, PartialOrd, Ord, Debug, Hash)]
pub struct TilePos {
    pub row: i32,
    pub col: i32,
}

impl TilePos {
    pub fn new(row: i32, col: i32) -> (p: TilePos)
        ensures
            p.row == row,
            p.col == col,
    {
        TilePos { row, col }
    }

    /// Whether both coordinates are small enough for safe neighbour arithmetic.
    pub open spec fn near(self) -> bool {
        -POS_LIMIT <= self.row <= POS_LIMIT && -POS_LIMIT <= self.col <= POS_LIMIT
    }

    /// The position offset by a grid vector.
    pub fn plus(self, rhs: TileVec) -> (p: TilePos)
        requires
            self.near(),
            rhs.small(),
        ensures
            p == spec_pos_plus(self, rhs),
    {
        TilePos { row: self.row + rhs.row, col: self.col + rhs.col }
    }

    /// The vector from `rhs` to `self`.
    pub fn minus(self, rhs: TilePos) -> (v: TileVec)
        requires
            self.near(),
            rhs.near(),
        ensures
            v.row == self.row - rhs.row,
            v.col == self.col - rhs.col,
    {
        TileVec { row: self.row - rhs.row, col: self.col - rhs.col }
    }
}

pub open spec fn spec_pos_plus(p: TilePos, v: TileVec) -> TilePos {
    TilePos { row: (p.row + v.row) as i32, col: (p.col + v.col) as i32 }
}

/// A displacement between two grid positions.
#[derive(Clone, Copy, PartialEq, Eq, Structural, Debug)]
pub struct TileVec {
    pub row: i32,
    pub col: i32,
}

/// Rotating the vector `v` by `r` around the origin, in the skewed axial
/// coordinates of the hex grid.
pub open spec fn spec_vec_rotate(v: TileVec, r: Rotation) -> TileVec {
    let row = v.row as int;
    let col = v.col as int;
    if r.0 == 0 {
        TileVec { row: row as i32, col: col as i32 }
    } else if r.0 == 1 {
        TileVec { row: (row - col) as i32, col: row as i32 }
    } else if r.0 == 2 {
        TileVec { row: (-col) as i32, col: (row - col) as i32 }
    } else if r.0 == 3 {
        TileVec { row: (-row) as i32, col: (-col) as i32 }
    } else if r.0 == 4 {
        TileVec { row: (col - row) as i32, col: (-row) as i32 }
    } else {
        TileVec { row: col as i32, col: (col - row) as i32 }
    }
}

impl TileVec {
    pub fn new(row: i32, col: i32) -> (v: TileVec)
        ensures
            v.row == row,
            v.col == col,
    {
        TileVec { row, col }
    }

    /// Whether both components are small enough for safe arithmetic.
    pub open spec fn small(self) -> bool {
        -POS_LIMIT <= self.row <= POS_LIMIT && -POS_LIMIT <= self.col <= POS_LIMIT
    }

    /// Rotate this vector by the given rotation around the origin.
    /// The six cases are the precomputed rotation matrices of the hex grid.
    pub fn rotate(self, rotation: Rotation) -> (v: TileVec)
        requires
            self.small(),
            rotation_valid(rotation),
        ensures
            v == spec_vec_rotate(self, rotation),
    {
        if rotation.0 == 0 {
            TileVec { row: self.row, col: self.col }
        } else if rotation.0 == 1 {
            TileVec { row: self.row - self.col, col: self.row }
        } else if rotation.0 == 2 {
            TileVec { row: -self.col, col: self.row - self.col }
        } else if rotation.0 == 3 {
            TileVec { row: -self.row, col: -self.col }
        } else if rotation.0 == 4 {
            TileVec { row: self.col - self.row, col: -self.row }
        } else {
            TileVec { row: self.col, col: self.col - self.row }
        }
    }

    pub fn neg(self) -> (v: TileVec)
        requires
            self.small(),
        ensures
            v.row == -self.row,
            v.col == -self.col,
    {
        TileVec { row: -self.row, col: -self.col }
    }
}

/// The six hex-edge directions, in the fixed order that matches rotations
/// 0 through 5.
#[derive(Clone, Copy, PartialEq, Eq, Structural, PartialOrd, Ord, Debug, Hash)]
pub enum Direction {
    SouthWest,
    West,
    NorthWest,
    NorthEast,
    East,
    SouthEast,
}

pub open spec fn dir_index(d: Direction) -> int {
    match d {
        Direction::SouthWest => 0,
        Direction::West => 1,
        Direction::NorthWest => 2,
        Direction::NorthEast => 3,
        Direction::East => 4,
        Direction::SouthEast => 5,
    }
}

pub open spec fn dir_of_index(i: int) -> Direction {
    if i == 0 {
        Direction::SouthWest
    } else if i == 1 {
        Direction::West
    } else if i == 2 {
        Direction::NorthWest
    } else if i == 3 {
        Direction::NorthEast
    } else if i == 4 {
        Direction::East
    } else {
        Direction::SouthEast
    }
}

/// The direction reached from `d` by rotating `r` steps clockwise.
pub open spec fn spec_dir_rotate(d: Direction, r: Rotation) -> Direction {
    dir_of_index((dir_index(d) + r.0) % 6)
}

/// The direction opposite `d` (rotation by 3 steps, 180 degrees).
pub open spec fn spec_dir_reversed(d: Direction) -> Direction {
    dir_of_index((dir_index(d) + 3) % 6)
}

/// The (row delta, column delta) leading to the neighbouring hex in
/// direction `d`.
pub open spec fn spec_dir_vec(d: Direction) -> TileVec {
    match d {
        Direction::SouthWest => TileVec { row: (-1) as i32, col: (-1) as i32 },
        Direction::West => TileVec { row: 0 as i32, col: (-1) as i32 },
        Direction::NorthWest => TileVec { row: 1 as i32, col: 0 as i32 },
        Direction::NorthEast => TileVec { row: 1 as i32, col: 1 as i32 },
        Direction::East => TileVec { row: 0 as i32, col: 1 as i32 },
        Direction::SouthEast => TileVec { row: (-1) as i32, col: 0 as i32 },
    }
}

impl Direction {
    /// The index of this direction in the fixed rotation order.
    pub fn as_index(&self) -> (i: u8)
        ensures
            i == dir_index(*self),
    {
        match self {
            Direction::SouthWest => 0,
            Direction::West => 1,
            Direction::NorthWest => 2,
            Direction::NorthEast => 3,
            Direction::East => 4,
            Direction::SouthEast => 5,
        }
    }

    /// The direction whose index equals the given rotation.
    pub fn from_rotation(rotation: Rotation) -> (d: Direction)
        requires
            rotation_valid(rotation),
        ensures
            d == dir_of_index(rotation.0 as int),
            dir_index(d) == rotation.0,
    {
        match rotation.0 {
            0 => Direction::SouthWest,
            1 => Direction::West,
            2 => Direction::NorthWest,
            3 => Direction::NorthEast,
            4 => Direction::East,
            _ => Direction::SouthEast,
        }
    }

    /// Rotate this direction clockwise by the given rotation.
    pub fn rotate(&self, rotation: Rotation) -> (d: Direction)
        requires
            rotation_valid(rotation),
        ensures
            d == spec_dir_rotate(*self, rotation),
    {
        Direction::from_rotation(Rotation((self.as_index() + rotation.0) % 6))
    }

    /// The opposite direction.
    pub fn reversed(&self) -> (d: Direction)
        ensures
            d == spec_dir_reversed(*self),
    {
        self.rotate(Rotation(3))
    }

    /// All six directions, in index order.
    pub fn all_directions() -> (ds: Vec<Direction>)
        ensures
            ds@.len() == 6,
            forall|i: int| 0 <= i < 6 ==> ds@[i] == dir_of_index(i),
    {
        let mut ds: Vec<Direction> = Vec::new();
        ds.push(Direction::SouthWest);
        ds.push(Direction::West);
        ds.push(Direction::NorthWest);
        ds.push(Direction::NorthEast);
        ds.push(Direction::East);
        ds.push(Direction::SouthEast);
        ds
    }

    /// The vector to the neighbouring hex in this direction.
    pub fn tile_vec(&self) -> (v: TileVec)
        ensures
            v == spec_dir_vec(*self),
            v.small(),
    {
        match self {
            Direction::SouthWest => TileVec { row: -1, col: -1 },
            Direction::West => TileVec { row: 0, col: -1 },
            Direction::NorthWest => TileVec { row: 1, col: 0 },
            Direction::NorthEast => TileVec { row: 1, col: 1 },
            Direction::East => TileVec { row: 0, col: 1 },
            Direction::SouthEast => TileVec { row: -1, col: 0 },
        }
    }
}

/// The four tile shapes, named for how many sharp (adjacent-edge) bends
/// they contain.
#[derive(Clone, Copy, PartialEq, Eq, Structural, PartialOrd, Ord, Debug, Hash)]
pub enum TileType {
    NoSharps,
    OneSharp,
    TwoSharps,
    ThreeSharps,
}

pub open spec fn spec_num_sharps(t: TileType) -> int {
    match t {
        TileType::NoSharps => 0,
        TileType::OneSharp => 1,
        TileType::TwoSharps => 2,
        TileType::ThreeSharps => 3,
    }
}

/// The fixed connection permutation of an unrotated tile: which edge a path
/// entering at `entrance` leaves through. Each permutation is self-inverse
/// with no fixed point: three disjoint entrance/exit pairs.
pub open spec fn spec_tile_exit(t: TileType, entrance: Direction) -> Direction {
    match t {
        TileType::NoSharps => match entrance {
            Direction::SouthWest => Direction::NorthWest,
            Direction::West => Direction::East,
            Direction::NorthWest => Direction::SouthWest,
            Direction::NorthEast => Direction::SouthEast,
            Direction::East => Direction::West,
            Direction::SouthEast => Direction::NorthEast,
        },
        TileType::OneSharp => match entrance {
            Direction::SouthWest => Direction::SouthEast,
            Direction::West => Direction::NorthEast,
            Direction::NorthWest => Direction::East,
            Direction::NorthEast => Direction::West,
            Direction::East => Direction::NorthWest,
            Direction::SouthEast => Direction::SouthWest,
        },
        TileType::TwoSharps => match entrance {
            Direction::SouthWest => Direction::SouthEast,
            Direction::West => Direction::East,
            Direction::NorthWest => Direction::NorthEast,
            Direction::NorthEast => Direction::NorthWest,
            Direction::East => Direction::West,
            Direction::SouthEast => Direction::SouthWest,
        },
        TileType::ThreeSharps => match entrance {
            Direction::SouthWest => Direction::SouthEast,
            Direction::West => Direction::NorthWest,
            Direction::NorthWest => Direction::West,
            Direction::NorthEast => Direction::East,
            Direction::East => Direction::NorthEast,
            Direction::SouthEast => Direction::SouthWest,
        },
    }
}

/// The three entrance/exit pairs of an unrotated tile, smaller direction
/// first, with the straight west-east segment (when present) last.
pub open spec fn spec_tile_flows(t: TileType) -> Seq<(Direction, Direction)> {
    match t {
        TileType::NoSharps => seq![
            (Direction::SouthWest, Direction::NorthWest),
            (Direction::NorthEast, Direction::SouthEast),
            (Direction::West, Direction::East),
        ],
        TileType::OneSharp => seq![
            (Direction::SouthWest, Direction::SouthEast),
            (Direction::NorthWest, Direction::East),
            (Direction::West, Direction::NorthEast),
        ],
        TileType::TwoSharps => seq![
            (Direction::SouthWest, Direction::SouthEast),
            (Direction::NorthWest, Direction::NorthEast),
            (Direction::West, Direction::East),
        ],
        TileType::ThreeSharps => seq![
            (Direction::SouthWest, Direction::SouthEast),
            (Direction::NorthEast, Direction::East),
            (Direction::West, Direction::NorthWest),
        ],
    }
}

impl TileType {
    /// How many sharp bends this tile shape has (also its numeric code).
    pub fn num_sharps(&self) -> (n: usize)
        ensures
            n == spec_num_sharps(*self),
    {
        match self {
            TileType::NoSharps => 0,
            TileType::OneSharp => 1,
            TileType::TwoSharps => 2,
            TileType::ThreeSharps => 3,
        }
    }

    /// The tile shape with the given number of sharp bends.
    pub fn from_num_sharps(n: usize) -> (t: TileType)
        requires
            n < 4,
        ensures
            spec_num_sharps(t) == n,
    {
        match n {
            0 => TileType::NoSharps,
            1 => TileType::OneSharp,
            2 => TileType::TwoSharps,
            _ => TileType::ThreeSharps,
        }
    }

    /// Which edge a path entering this (unrotated) tile at `entrance`
    /// leaves through.
    pub fn exit_from_entrance(&self, entrance: Direction) -> (exit: Direction)
        ensures
            exit == spec_tile_exit(*self, entrance),
    {
        match self {
            TileType::NoSharps => match entrance {
                Direction::SouthWest => Direction::NorthWest,
                Direction::West => Direction::East,
                Direction::NorthWest => Direction::SouthWest,
                Direction::NorthEast => Direction::SouthEast,
                Direction::East => Direction::West,
                Direction::SouthEast => Direction::NorthEast,
            },
            TileType::OneSharp => match entrance {
                Direction::SouthWest => Direction::SouthEast,
                Direction::West => Direction::NorthEast,
                Direction::NorthWest => Direction::East,
                Direction::NorthEast => Direction::West,
                Direction::East => Direction::NorthWest,
                Direction::SouthEast => Direction::SouthWest,
            },
            TileType::TwoSharps => match entrance {
                Direction::SouthWest => Direction::SouthEast,
                Direction::West => Direction::East,
                Direction::NorthWest => Direction::NorthEast,
                Direction::NorthEast => Direction::NorthWest,
                Direction::East => Direction::West,
                Direction::SouthEast => Direction::SouthWest,
            },
            TileType::ThreeSharps => match entrance {
                Direction::SouthWest => Direction::SouthEast,
                Direction::West => Direction::NorthWest,
                Direction::NorthWest => Direction::West,
                Direction::NorthEast => Direction::East,
                Direction::East => Direction::NorthEast,
                Direction::SouthEast => Direction::SouthWest,
            },
        }
    }

    /// The three entrance/exit pairs of this (unrotated) tile, smaller
    /// direction first, straight segment (if any) last.
    pub fn all_flows(&self) -> (flows: [(Direction, Direction); 3])
        ensures
            flows@ =~= spec_tile_flows(*self),
    {
        match self {
            TileType::NoSharps => [
                (Direction::SouthWest, Direction::NorthWest),
                (Direction::NorthEast, Direction::SouthEast),
                (Direction::West, Direction::East),
            ],
            TileType::OneSharp => [
                (Direction::SouthWest, Direction::SouthEast),
                (Direction::NorthWest, Direction::East),
                (Direction::West, Direction::NorthEast),
            ],
            TileType::TwoSharps => [
                (Direction::SouthWest, Direction::SouthEast),
                (Direction::NorthWest, Direction::NorthEast),
                (Direction::West, Direction::East),
            ],
            TileType::ThreeSharps => [
                (Direction::SouthWest, Direction::SouthEast),
                (Direction::NorthEast, Direction::East),
                (Direction::West, Direction::NorthWest),
            ],
        }
    }

    /// The rotations that give pairwise distinct connection patterns for
    /// this tile shape (keeping the first rotation of each pattern): the
    /// more symmetric shapes repeat after two or three steps.
    pub fn get_unique_rotations(tile: TileType) -> (rs: Vec<Rotation>)
        ensures
            rs@ == spec_unique_rotations(tile),
            forall|i: int| 0 <= i < rs@.len() ==> rotation_valid(#[trigger] rs@[i]),
    {
        let mut rs: Vec<Rotation> = Vec::new();
        match tile {
            TileType::NoSharps | TileType::TwoSharps => {
                rs.push(Rotation(0));
                rs.push(Rotation(1));
                rs.push(Rotation(2));
            },
            TileType::OneSharp => {
                rs.push(Rotation(0));
                rs.push(Rotation(1));
                rs.push(Rotation(2));
                rs.push(Rotation(3));
                rs.push(Rotation(4));
                rs.push(Rotation(5));
            },
            TileType::ThreeSharps => {
                rs.push(Rotation(0));
                rs.push(Rotation(1));
            },
        }
        proof {
            assert(rs@ =~= spec_unique_rotations(tile));
        }
        rs
    }
}

pub open spec fn spec_unique_rotations(t: TileType) -> Seq<Rotation> {
    match t {
        TileType::NoSharps => seq![Rotation(0), Rotation(1), Rotation(2)],
        TileType::OneSharp => seq![
            Rotation(0),
            Rotation(1),
            Rotation(2),
            Rotation(3),
            Rotation(4),
            Rotation(5),
        ],
        TileType::TwoSharps => seq![Rotation(0), Rotation(1), Rotation(2)],
        TileType::ThreeSharps => seq![Rotation(0), Rotation(1)],
    }
}

/// A player's index in the turn order.
pub type Player = usize;

/// Which edge a path entering a rotated tile of type `t` at `entrance`
/// leaves through: unrotate the entrance, look it up in the base
/// permutation, and rotate the exit back.
pub open spec fn spec_placed_exit(t: TileType, rot: Rotation, entrance: Direction) -> Direction {
    spec_dir_rotate(spec_tile_exit(t, spec_dir_rotate(entrance, spec_rot_reversed(rot))), rot)
}

/// The three entrance/exit pairs of a rotated tile (the base pairs, each
/// direction rotated; not renormalised).
pub open spec fn spec_placed_flows(t: TileType, rot: Rotation) -> Seq<(Direction, Direction)> {
    spec_tile_flows(t).map_values(
        |p: (Direction, Direction)| (spec_dir_rotate(p.0, rot), spec_dir_rotate(p.1, rot)),
    )
}

/// A tile placed on the board: a shape, a rotation, and the cached per-edge
/// flow colouring (which player's flow currently crosses each edge).
#[derive(Clone, Copy, PartialEq, Eq, Debug)]
pub struct PlacedTile {
    pub(crate) type_: TileType,
    pub(crate) rotation: Rotation,
    pub(crate) flow_cache: [Option<Player>; 6],
}

impl PlacedTile {
    pub open(crate) spec fn spec_type(self) -> TileType {
        self.type_
    }

    pub open(crate) spec fn spec_rotation(self) -> Rotation {
        self.rotation
    }

    pub open(crate) spec fn spec_cache(self) -> Seq<Option<Player>> {
        self.flow_cache@
    }

    /// A placed tile is well formed when its rotation is a valid rotation.
    pub open(crate) spec fn wf(self) -> bool {
        rotation_valid(self.rotation)
    }

    pub fn new(type_: TileType, rotation: Rotation) -> (t: PlacedTile)
        requires
            rotation_valid(rotation),
        ensures
            t.spec_type() == type_,
            t.spec_rotation() == rotation,
            t.spec_cache() =~= seq![None::<Player>; 6],
            t.wf(),
    {
        PlacedTile { type_, rotation, flow_cache: [None, None, None, None, None, None] }
    }

    pub fn type_(&self) -> (t: TileType)
        ensures
            t == self.spec_type(),
    {
        self.type_
    }

    pub fn rotation(&self) -> (r: Rotation)
        ensures
            r == self.spec_rotation(),
    {
        self.rotation
    }

    /// Which edge a path entering this tile at `entrance` leaves through,
    /// honouring the tile's rotation.
    pub fn exit_from_entrance(&self, entrance: Direction) -> (exit: Direction)
        requires
            self.wf(),
        ensures
            exit == spec_placed_exit(self.spec_type(), self.spec_rotation(), entrance),
    {
        self.type_.exit_from_entrance(entrance.rotate(self.rotation.reversed())).rotate(
            self.rotation,
        )
    }

    /// The three entrance/exit pairs of this tile, rotated into place.
    pub fn all_flows(&self) -> (flows: [(Direction, Direction); 3])
        requires
            self.wf(),
        ensures
            flows@ =~= spec_placed_flows(self.spec_type(), self.spec_rotation()),
    {
        let base = self.type_.all_flows();
        let r = [
            (base[0].0.rotate(self.rotation), base[0].1.rotate(self.rotation)),
            (base[1].0.rotate(self.rotation), base[1].1.rotate(self.rotation)),
            (base[2].0.rotate(self.rotation), base[2].1.rotate(self.rotation)),
        ];
        r
    }

    /// The cached flow colour on the given edge.
    pub fn flow_cache(&self, direction: Direction) -> (p: Option<Player>)
        ensures
            p == self.spec_cache()[dir_index(direction)],
    {
        self.flow_cache[direction.as_index() as usize]
    }

    /// Overwrite the cached flow colour on the given edge.
    pub fn set_flow_cache(&mut self, direction: Direction, player: Option<Player>)
        ensures
            final(self).spec_type() == old(self).spec_type(),
            final(self).spec_rotation() == old(self).spec_rotation(),
            final(self).spec_cache() == old(self).spec_cache().update(
                dir_index(direction),
                player,
            ),
            final(self).wf() == old(self).wf(),
    {
        self.flow_cache[direction.as_index() as usize] = player;
    }
}


/// What a board cell holds: off-board filler, an empty playable hex, or a
/// placed tile.
#[derive(Clone, Copy, PartialEq, Eq, Debug)]
pub enum Tile {
    NotOnBoard,
    Empty,
    Placed(PlacedTile),
}

pub open spec fn tile_wf(t: Tile) -> bool {
    match t {
        Tile::Placed(p) => p.wf(),
        _ => true,
    }
}

/// What lies across one edge of a hex: the board edge, or another cell.
#[derive(Clone, Copy, PartialEq, Eq, Debug)]
pub enum AdjacentTile {
    BoardEdge(Direction),
    Tile(TilePos),
}

/// Who is looking at a game: a seated player, a spectator, or an
/// all-seeing administrator.
#[derive(Clone, Copy, Debug)]
pub enum GameViewer {
    Player(Player),
    Spectator,
    Admin,
}

/// Fixed parameters chosen when a game is created.
#[derive(Clone, Copy, Debug)]
pub struct GameSettings {
    pub num_players: usize,
    pub version: usize,
}

/// The settings a game can actually be created with.
pub open spec fn settings_valid(s: GameSettings) -> bool {
    s.version == 0 && 2 <= s.num_players <= 3
}

/// One entry of a game's action history.
#[derive(Clone, Copy, Debug)]
pub enum Action {
    InitializeGame(GameSettings),
    DrawTile { player: Player, tile: TileType },
    RevealTile { player: Player, tile: TileType },
    PlaceTile { player: Player, tile: TileType, pos: TilePos, rotation: Rotation },
}

impl Action {
    /// Whether this action is visible to the given viewer: everything is
    /// public except a drawn (still hidden) tile, which only its owner and
    /// the administrator can see.
    pub fn visible(&self, game_viewer: GameViewer) -> (v: bool)
        ensures
            v == spec_action_visible(*self, game_viewer),
    {
        match self {
            Action::InitializeGame(_) | Action::RevealTile { .. } | Action::PlaceTile { .. } => {
                true
            },
            Action::DrawTile { player, .. } => match game_viewer {
                GameViewer::Player(viewing_player) => *player == viewing_player,
                GameViewer::Spectator => false,
                GameViewer::Admin => true,
            },
        }
    }

    /// Whether the viewer is in principle allowed to perform this action;
    /// the game itself checks whether it is legal in context.
    pub fn performable(&self, game_viewer: GameViewer) -> (v: bool)
        ensures
            v == spec_action_performable(*self, game_viewer),
    {
        match game_viewer {
            GameViewer::Spectator => false,
            GameViewer::Admin => true,
            GameViewer::Player(viewing_player) => match self {
                Action::InitializeGame(_) | Action::DrawTile { .. } => false,
                Action::PlaceTile { player, .. } | Action::RevealTile { player, .. } => {
                    *player == viewing_player
                },
            },
        }
    }
}

pub open spec fn spec_action_visible(a: Action, viewer: GameViewer) -> bool {
    match a {
        Action::DrawTile { player, .. } => match viewer {
            GameViewer::Player(viewing_player) => player == viewing_player,
            GameViewer::Spectator => false,
            GameViewer::Admin => true,
        },
        _ => true,
    }
}

pub open spec fn spec_action_performable(a: Action, viewer: GameViewer) -> bool {
    match viewer {
        GameViewer::Spectator => false,
        GameViewer::Admin => true,
        GameViewer::Player(viewing_player) => match a {
            Action::InitializeGame(_) | Action::DrawTile { .. } => false,
            Action::PlaceTile { player, .. } => player == viewing_player,
            Action::RevealTile { player, .. } => player == viewing_player,
        },
    }
}

/// How a finished game ended: the list of winners, ascending, without
/// repetition (simultaneous and shared wins are allowed).
#[derive(Clone, PartialEq, Eq, Debug)]
pub enum GameOutcome {
    Victory(Vec<Player>),
}

/// The mathematical value of a game state: every field of `Game`, with
/// sequences in place of vectors and arrays.
pub ghost struct GameV {
    pub settings: GameSettings,
    pub sides: Seq<Option<Player>>,
    pub remaining: Seq<u8>,
    pub hands: Seq<Option<TileType>>,
    pub board: Seq<Tile>,
    pub history: Seq<Action>,
    pub current: Player,
    pub outcome: Option<Seq<Player>>,
}

pub open spec fn spec_outcome_model(o: Option<GameOutcome>) -> Option<Seq<Player>> {
    match o {
        None => None,
        Some(GameOutcome::Victory(w)) => Some(w@),
    }
}

/// A game state is well formed when its collections have the fixed board
/// sizes, its settings are valid, the seat of the current player exists,
/// and every placed tile carries a valid rotation.
pub open spec fn game_wf(m: GameV) -> bool {
    &&& settings_valid(m.settings)
    &&& m.sides.len() == 6
    &&& m.remaining.len() == 4
    &&& m.hands.len() == m.settings.num_players
    &&& m.board.len() == 49
    &&& m.current < m.settings.num_players
    &&& forall|i: int| 0 <= i < 49 ==> tile_wf(#[trigger] m.board[i])
}

/// Whether position `p` lies on the 7x7 grid that stores the board.
pub open spec fn on_grid(p: TilePos) -> bool {
    0 <= p.row < 7 && 0 <= p.col < 7
}

/// The index of a grid position in the row-major board sequence.
pub open spec fn pos_index(p: TilePos) -> int {
    p.row * 7 + p.col
}

/// The tile at `p`: positions outside the grid read the fixed off-board
/// corner cell, exactly as the lookup does.
pub open spec fn spec_tile_at(board: Seq<Tile>, p: TilePos) -> Tile {
    if on_grid(p) {
        board[pos_index(p)]
    } else {
        board[42]
    }
}

/// Grid cells cut away to clip the square into a hexagon: those whose row
/// and column differ by four or more.
pub open spec fn clipped(r: int, c: int) -> bool {
    r - c >= 4 || c - r >= 4
}

/// The starting board: empty playable hexes, with the two clipped corners
/// marked off-board.
pub open spec fn spec_init_board() -> Seq<Tile> {
    Seq::new(
        49,
        |i: int|
            if clipped(i / 7, i % 7) {
                Tile::NotOnBoard
            } else {
                Tile::Empty
            },
    )
}

/// The starting ownership of the six board sides: player 0 on side 0,
/// player 1 on side 2, and player 2 on side 4 in a three-player game.
pub open spec fn spec_init_sides(num_players: int) -> Seq<Option<Player>> {
    seq![
        Some(0usize),
        None,
        Some(1usize),
        None,
        if num_players == 3 {
            Some(2usize)
        } else {
            None
        },
        None,
    ]
}

/// A full game: board, side ownership, tile supply and hands, history,
/// turn order, and the cached outcome.
pub struct Game {
    pub(crate) settings: GameSettings,
    pub(crate) sides: [Option<Player>; 6],
    pub(crate) remaining_tiles: [u8; 4],
    pub(crate) tiles_in_hand: Vec<Option<TileType>>,
    pub(crate) board: Vec<Tile>,
    pub(crate) action_history: Vec<Action>,
    pub(crate) current_player: Player,
    pub(crate) outcome: Option<GameOutcome>,
}

impl Game {
    /// The mathematical value of this game state.
    pub open(crate) spec fn model(self) -> GameV {
        GameV {
            settings: self.settings,
            sides: self.sides@,
            remaining: self.remaining_tiles@,
            hands: self.tiles_in_hand@,
            board: self.board@,
            history: self.action_history@,
            current: self.current_player,
            outcome: spec_outcome_model(self.outcome),
        }
    }

    pub open(crate) spec fn wf(self) -> bool {
        game_wf(self.model())
    }

    /// Create a fresh game for the given settings: a clipped empty board,
    /// ten tiles of each type in the supply, empty hands, player 0 to move,
    /// and a history holding only the initialization action.
    pub fn new(settings: GameSettings) -> (g: Game)
        requires
            settings_valid(settings),
        ensures
            g.wf(),
            g.model().settings == settings,
            g.model().sides =~= spec_init_sides(settings.num_players as int),
            g.model().remaining =~= seq![10u8, 10u8, 10u8, 10u8],
            g.model().hands.len() == settings.num_players,
            forall|i: int| 0 <= i < settings.num_players ==> g.model().hands[i] is None,
            g.model().board =~= spec_init_board(),
            g.model().history =~= seq![Action::InitializeGame(settings)],
            g.model().current == 0,
            g.model().outcome is None,
    {
        let mut board: Vec<Tile> = Vec::new();
        let mut k: usize = 0;
        while k < 49
            invariant
                k <= 49,
                board@.len() == k,
                forall|i: int| 0 <= i < k ==> board@[i] == spec_init_board()[i],
            decreases 49 - k,
        {
            let r = k / 7;
            let c = k % 7;
            if r >= c + 4 || c >= r + 4 {
                board.push(Tile::NotOnBoard);
            } else {
                board.push(Tile::Empty);
            }
            k = k + 1;
        }

        let mut sides: [Option<Player>; 6] = [None, None, None, None, None, None];
        sides[0] = Some(0);
        sides[2] = Some(1);
        if settings.num_players == 3 {
            sides[4] = Some(2);
        }

        let mut tiles_in_hand: Vec<Option<TileType>> = Vec::new();
        let mut p: usize = 0;
        while p < settings.num_players
            invariant
                p <= settings.num_players,
                tiles_in_hand@.len() == p,
                forall|i: int| 0 <= i < p ==> tiles_in_hand@[i] is None,
            decreases settings.num_players - p,
        {
            tiles_in_hand.push(None);
            p = p + 1;
        }

        let mut action_history: Vec<Action> = Vec::new();
        action_history.push(Action::InitializeGame(settings));

        let g = Game {
            settings,
            sides,
            remaining_tiles: [10, 10, 10, 10],
            tiles_in_hand,
            board,
            action_history,
            current_player: 0,
            outcome: None,
        };
        proof {
            assert(g.model().sides =~= spec_init_sides(settings.num_players as int));
            assert(g.model().board =~= spec_init_board());
        }
        g
    }

    /// The tile position at the centre of the board.
    pub fn center_pos(&self) -> (p: TilePos)
        ensures
            p == (TilePos { row: 3, col: 3 }),
    {
        TilePos { row: 3, col: 3 }
    }

    pub fn num_players(&self) -> (n: usize)
        ensures
            n == self.model().settings.num_players,
    {
        self.settings.num_players
    }

    pub fn current_player(&self) -> (p: Player)
        ensures
            p == self.model().current,
    {
        self.current_player
    }

    /// Move the turn to an arbitrary seated player, bypassing the normal
    /// rotation; meant for setting up test positions.
    pub fn set_current_player_for_testing(&mut self, player: Player)
        requires
            old(self).wf(),
            player < old(self).model().settings.num_players,
        ensures
            final(self).wf(),
            final(self).model() == (GameV { current: player, ..old(self).model() }),
    {
        self.current_player = player;
    }

    pub fn outcome(&self) -> (o: &Option<GameOutcome>)
        ensures
            spec_outcome_model(*o) == self.model().outcome,
            (*o is Some) <==> (self.model().outcome is Some),
    {
        &self.outcome
    }

    /// The player owning the board side at the given rotation from the top.
    pub fn player_on_side(&self, rotation: Rotation) -> (p: Option<Player>)
        requires
            rotation_valid(rotation),
        ensures
            p == self.model().sides[rotation.0 as int],
    {
        self.sides[rotation.0 as usize]
    }

    /// The tile currently held by the given player, if any.
    pub fn tile_in_hand(&self, player: Player) -> (t: Option<TileType>)
        requires
            self.wf(),
            player < self.model().settings.num_players,
        ensures
            t == self.model().hands[player as int],
    {
        self.tiles_in_hand[player]
    }

    /// The tile at `pos`; any position outside the stored grid reads as
    /// the fixed off-board corner cell.
    pub fn tile(&self, pos: TilePos) -> (t: &Tile)
        requires
            self.wf(),
        ensures
            *t == spec_tile_at(self.model().board, pos),
    {
        if pos.row < 0 || pos.col < 0 || pos.row >= 7 || pos.col >= 7 {
            return &self.board[42];
        }
        &self.board[(pos.row as usize) * 7 + (pos.col as usize)]
    }

    /// Replace the tile at `pos`, if the position is on the stored grid;
    /// reports whether anything was written.
    pub fn set_tile(&mut self, pos: TilePos, t: Tile) -> (written: bool)
        requires
            old(self).wf(),
            tile_wf(t),
        ensures
            final(self).wf(),
            written == on_grid(pos),
            on_grid(pos) ==> final(self).model() == (GameV {
                board: old(self).model().board.update(pos_index(pos), t),
                ..old(self).model()
            }),
            !on_grid(pos) ==> final(self).model() == old(self).model(),
    {
        if pos.row < 0 || pos.col < 0 || pos.row >= 7 || pos.col >= 7 {
            return false;
        }
        self.board[(pos.row as usize) * 7 + (pos.col as usize)] = t;
        true
    }

    /// What lies across the edge of `pos` in direction `direction`: the
    /// board edge if the neighbouring cell is off board, else that cell.
    pub fn adjacent_tile(&self, pos: TilePos, direction: Direction) -> (a: AdjacentTile)
        requires
            self.wf(),
            pos.near(),
        ensures
            a == spec_adjacent(self.model().board, pos, direction),
    {
        let neighbor = pos.plus(direction.tile_vec());
        if let Tile::NotOnBoard = *self.tile(neighbor) {
            AdjacentTile::BoardEdge(direction)
        } else {
            AdjacentTile::Tile(neighbor)
        }
    }

    /// The neighbouring position in the given direction, unless it is off
    /// the board.
    pub fn get_neighbor_pos(&self, pos: TilePos, direction: Direction) -> (n: Option<TilePos>)
        requires
            self.wf(),
            pos.near(),
        ensures
            n == spec_neighbor(self.model().board, pos, direction),
    {
        let neighbor = pos.plus(direction.tile_vec());
        if let Tile::NotOnBoard = *self.tile(neighbor) {
            None
        } else {
            Some(neighbor)
        }
    }

    /// The direction leading from `from` to the adjacent position `to`,
    /// if they are indeed adjacent.
    pub fn get_direction_towards(&self, from: TilePos, to: TilePos) -> (d: Option<Direction>)
        requires
            from.near(),
            to.near(),
        ensures
            d == spec_dir_towards(from, to),
    {
        let dr = to.row - from.row;
        let dc = to.col - from.col;
        if dr == -1 && dc == -1 {
            Some(Direction::SouthWest)
        } else if dr == 0 && dc == -1 {
            Some(Direction::West)
        } else if dr == 1 && dc == 0 {
            Some(Direction::NorthWest)
        } else if dr == 1 && dc == 1 {
            Some(Direction::NorthEast)
        } else if dr == 0 && dc == 1 {
            Some(Direction::East)
        } else if dr == -1 && dc == 0 {
            Some(Direction::SouthEast)
        } else {
            None
        }
    }

    /// Whether the edge of `pos` in direction `dir` lies on the border of
    /// the playable board.
    pub fn is_border_edge(&self, pos: TilePos, dir: Direction) -> (b: bool)
        requires
            self.wf(),
            pos.near(),
        ensures
            b == (spec_tile_at(
                self.model().board,
                spec_pos_plus(pos, spec_dir_vec(dir)),
            ) is NotOnBoard),
    {
        let neighbor = pos.plus(dir.tile_vec());
        matches!(*self.tile(neighbor), Tile::NotOnBoard)
    }

    /// The seven ordered (hex, outward direction) boundary slots of the
    /// board side at the given rotation, produced by rotating the fixed
    /// bottom-side template around the centre.
    pub fn edges_on_board_edge(&self, rotation: Rotation) -> (edges: Vec<(TilePos, Direction)>)
        requires
            rotation_valid(rotation),
        ensures
            edges@ =~= spec_edges(rotation),
    {
        let center = TilePos { row: 3, col: 3 };
        let mut edges: Vec<(TilePos, Direction)> = Vec::new();
        edges.push(rotated_slot(TilePos { row: 0, col: 0 }, Direction::SouthEast, rotation));
        edges.push(rotated_slot(TilePos { row: 0, col: 1 }, Direction::SouthWest, rotation));
        edges.push(rotated_slot(TilePos { row: 0, col: 1 }, Direction::SouthEast, rotation));
        edges.push(rotated_slot(TilePos { row: 0, col: 2 }, Direction::SouthWest, rotation));
        edges.push(rotated_slot(TilePos { row: 0, col: 2 }, Direction::SouthEast, rotation));
        edges.push(rotated_slot(TilePos { row: 0, col: 3 }, Direction::SouthWest, rotation));
        edges.push(rotated_slot(TilePos { row: 0, col: 3 }, Direction::SouthEast, rotation));
        proof {
            assert forall|j: int| 0 <= j < 7 implies edges@[j] == spec_edge_slot(rotation, j) by {
                assert(spec_base_slots()[j] == edges_template(j));
            }
        }
        edges
    }
}

/// Template slot `j`, written out so each index computes directly.
pub open spec fn edges_template(j: int) -> (TilePos, Direction) {
    if j == 0 {
        (TilePos { row: 0, col: 0 }, Direction::SouthEast)
    } else if j == 1 {
        (TilePos { row: 0, col: 1 }, Direction::SouthWest)
    } else if j == 2 {
        (TilePos { row: 0, col: 1 }, Direction::SouthEast)
    } else if j == 3 {
        (TilePos { row: 0, col: 2 }, Direction::SouthWest)
    } else if j == 4 {
        (TilePos { row: 0, col: 2 }, Direction::SouthEast)
    } else if j == 5 {
        (TilePos { row: 0, col: 3 }, Direction::SouthWest)
    } else {
        (TilePos { row: 0, col: 3 }, Direction::SouthEast)
    }
}

/// One template slot rotated around the board centre.
fn rotated_slot(pos: TilePos, dir: Direction, rotation: Rotation) -> (s: (TilePos, Direction))
    requires
        -1000 <= pos.row <= 1000,
        -1000 <= pos.col <= 1000,
        rotation_valid(rotation),
    ensures
        s.0 == spec_pos_plus(
            TilePos { row: 3, col: 3 },
            spec_vec_rotate(spec_pos_minus(pos, TilePos { row: 3, col: 3 }), rotation),
        ),
        s.1 == spec_dir_rotate(dir, rotation),
{
    let center = TilePos { row: 3, col: 3 };
    (center.plus(pos.minus(center).rotate(rotation)), dir.rotate(rotation))
}

/// The fixed boundary-slot template of the bottom board side.
pub open spec fn spec_base_slots() -> Seq<(TilePos, Direction)> {
    seq![
        (TilePos { row: 0, col: 0 }, Direction::SouthEast),
        (TilePos { row: 0, col: 1 }, Direction::SouthWest),
        (TilePos { row: 0, col: 1 }, Direction::SouthEast),
        (TilePos { row: 0, col: 2 }, Direction::SouthWest),
        (TilePos { row: 0, col: 2 }, Direction::SouthEast),
        (TilePos { row: 0, col: 3 }, Direction::SouthWest),
        (TilePos { row: 0, col: 3 }, Direction::SouthEast),
    ]
}

pub open spec fn spec_pos_minus(a: TilePos, b: TilePos) -> TileVec {
    TileVec { row: (a.row - b.row) as i32, col: (a.col - b.col) as i32 }
}

/// Boundary slot `i` of the side at rotation `rot`: the template slot
/// rotated around the board centre.
pub open spec fn spec_edge_slot(rot: Rotation, i: int) -> (TilePos, Direction) {
    let center = TilePos { row: 3, col: 3 };
    let base = spec_base_slots()[i];
    (
        spec_pos_plus(center, spec_vec_rotate(spec_pos_minus(base.0, center), rot)),
        spec_dir_rotate(base.1, rot),
    )
}

/// The seven boundary slots of the side at rotation `rot`, in order.
pub open spec fn spec_edges(rot: Rotation) -> Seq<(TilePos, Direction)> {
    Seq::new(7, |i: int| spec_edge_slot(rot, i))
}

/// What lies across the edge of `pos` in direction `d` on the given board.
pub open spec fn spec_adjacent(board: Seq<Tile>, pos: TilePos, d: Direction) -> AdjacentTile {
    let np = spec_pos_plus(pos, spec_dir_vec(d));
    if spec_tile_at(board, np) is NotOnBoard {
        AdjacentTile::BoardEdge(d)
    } else {
        AdjacentTile::Tile(np)
    }
}

/// The neighbouring position of `pos` in direction `d`, unless off board.
pub open spec fn spec_neighbor(board: Seq<Tile>, pos: TilePos, d: Direction) -> Option<TilePos> {
    let np = spec_pos_plus(pos, spec_dir_vec(d));
    if spec_tile_at(board, np) is NotOnBoard {
        None
    } else {
        Some(np)
    }
}

/// The direction from `from` to the adjacent position `to`, if any.
pub open spec fn spec_dir_towards(from: TilePos, to: TilePos) -> Option<Direction> {
    let dr = to.row - from.row;
    let dc = to.col - from.col;
    if dr == -1 && dc == -1 {
        Some(Direction::SouthWest)
    } else if dr == 0 && dc == -1 {
        Some(Direction::West)
    } else if dr == 1 && dc == 0 {
        Some(Direction::NorthWest)
    } else if dr == 1 && dc == 1 {
        Some(Direction::NorthEast)
    } else if dr == 0 && dc == 1 {
        Some(Direction::East)
    } else if dr == -1 && dc == 0 {
        Some(Direction::SouthEast)
    } else {
        None
    }
}



/// Upper bound on flood-fill steps: far more than the board's 49 cells
/// times its 6 edges, so a walk is never cut short.
pub const FLOOD_FUEL: u32 = 1000;

/// The given placed tile with its whole flow cache cleared.
pub open(crate) spec fn spec_tile_cleared(p: PlacedTile) -> PlacedTile {
    PlacedTile {
        type_: p.type_,
        rotation: p.rotation,
        flow_cache: vstd::array::spec_array_fill_for_copy_type::<Option<Player>, 6>(None),
    }
}

/// The given placed tile with the cache entry of one edge overwritten.
pub open(crate) spec fn spec_tile_marked(p: PlacedTile, d: Direction, v: Option<Player>) -> PlacedTile {
    PlacedTile {
        type_: p.type_,
        rotation: p.rotation,
        flow_cache: vstd::array::spec_array_update(p.flow_cache, dir_index(d), v),
    }
}

/// The board with every flow cache cleared. Two boards with the same
/// cleared form carry the same placements, so all flow data is a function
/// of this value and the side ownership alone.
pub open(crate) spec fn clear_caches(board: Seq<Tile>) -> Seq<Tile> {
    board.map_values(
        |t: Tile|
            match t {
                Tile::Placed(p) => Tile::Placed(spec_tile_cleared(p)),
                other => other,
            },
    )
}

/// One flood-fill walk: while the current hex holds a placed tile, colour
/// the entry edge and the tile's forced exit edge with `player`, then step
/// to the neighbour across the exit; stop at an empty hex, off the grid,
/// or at the board edge.
pub open(crate) spec fn spec_flood(
    board: Seq<Tile>,
    player: Player,
    pos: TilePos,
    dir: Direction,
    fuel: nat,
) -> Seq<Tile>
    decreases fuel,
{
    if fuel == 0 {
        board
    } else if !on_grid(pos) {
        board
    } else {
        match board[pos_index(pos)] {
            Tile::Placed(tile) => {
                let exit = spec_placed_exit(tile.type_, tile.rotation, dir);
                let marked = board.update(
                    pos_index(pos),
                    Tile::Placed(
                        spec_tile_marked(
                            spec_tile_marked(tile, dir, Some(player)),
                            exit,
                            Some(player),
                        ),
                    ),
                );
                let np = spec_pos_plus(pos, spec_dir_vec(exit));
                if spec_tile_at(marked, np) is NotOnBoard {
                    marked
                } else {
                    spec_flood(marked, player, np, spec_dir_reversed(exit), (fuel - 1) as nat)
                }
            },
            _ => board,
        }
    }
}

/// Flood-fill from boundary slots `i..7` of the side at rotation `rot`,
/// in slot order.
pub open(crate) spec fn spec_flood_side(
    board: Seq<Tile>,
    player: Player,
    rot: Rotation,
    i: int,
) -> Seq<Tile>
    decreases 7 - i,
{
    if i < 0 || i >= 7 {
        board
    } else {
        let slot = spec_edge_slot(rot, i);
        spec_flood_side(
            spec_flood(board, player, slot.0, slot.1, FLOOD_FUEL as nat),
            player,
            rot,
            i + 1,
        )
    }
}

/// Flood-fill every owned side from `side` upward, in side order.
pub open(crate) spec fn spec_flood_all(
    board: Seq<Tile>,
    sides: Seq<Option<Player>>,
    side: int,
) -> Seq<Tile>
    decreases 6 - side,
{
    if side < 0 || side >= 6 {
        board
    } else {
        let b2 = match sides[side] {
            None => board,
            Some(p) => spec_flood_side(board, p, Rotation(side as u8), 0),
        };
        spec_flood_all(b2, sides, side + 1)
    }
}

/// The flow caches recomputed from scratch: clear everything, then flood
/// every owned side. A pure function of the placements and side ownership.
pub open(crate) spec fn spec_recompute_board(
    board: Seq<Tile>,
    sides: Seq<Option<Player>>,
) -> Seq<Tile> {
    spec_flood_all(clear_caches(board), sides, 0)
}

/// Whether boundary slot `i` of the side opposite `side` carries the flow
/// colour `p`.
pub open(crate) spec fn spec_slot_colored(board: Seq<Tile>, side: int, i: int, p: Player) -> bool {
    let slot = spec_edge_slot(Rotation((((side + 3) % 6)) as u8), i);
    match spec_tile_at(board, slot.0) {
        Tile::Placed(t) => t.flow_cache@[dir_index(slot.1)] == Some(p),
        _ => false,
    }
}

/// Whether the player owning `side` has a flow reaching some boundary
/// slot of the opposite (goal) side.
pub open(crate) spec fn spec_side_reaches(
    board: Seq<Tile>,
    sides: Seq<Option<Player>>,
    side: int,
) -> bool {
    sides[side] is Some && exists|i: int|
        0 <= i < 7 && #[trigger] spec_slot_colored(board, side, i, sides[side]->0)
}

/// Whether `q` is among the winners: some owned side's flow reaches its
/// goal side, and `q` either owns that side or owns the goal side (a
/// teammate shares the win).
pub open(crate) spec fn spec_is_winner(
    board: Seq<Tile>,
    sides: Seq<Option<Player>>,
    q: Player,
) -> bool {
    exists|side: int|
        0 <= side < 6 && sides[side] is Some && spec_side_reaches(board, sides, side) && (
        sides[side] == Some(q) || sides[(side + 3) % 6] == Some(q))
}

/// The winners in canonical form: ascending and without repetition.
pub open(crate) spec fn spec_winners(board: Seq<Tile>, sides: Seq<Option<Player>>) -> Seq<Player> {
    (if spec_is_winner(board, sides, 0) {
        seq![0usize]
    } else {
        Seq::empty()
    }) + (if spec_is_winner(board, sides, 1) {
        seq![1usize]
    } else {
        Seq::empty()
    }) + (if spec_is_winner(board, sides, 2) {
        seq![2usize]
    } else {
        Seq::empty()
    })
}

/// The recorded outcome after a recomputation: a recorded victory is
/// sticky; otherwise victory is recorded exactly when some player's flow
/// reaches their goal side.
pub open(crate) spec fn spec_outcome_after(
    board: Seq<Tile>,
    sides: Seq<Option<Player>>,
    old_outcome: Option<Seq<Player>>,
) -> Option<Seq<Player>> {
    if old_outcome is Some {
        old_outcome
    } else {
        let w = spec_winners(board, sides);
        if w.len() == 0 {
            None
        } else {
            Some(w)
        }
    }
}

/// The whole game state after `recompute_flows`: fresh flow caches and the
/// outcome that follows from them; nothing else changes.
pub open(crate) spec fn spec_recompute_model(m: GameV) -> GameV {
    let b = spec_recompute_board(m.board, m.sides);
    GameV { board: b, outcome: spec_outcome_after(b, m.sides, m.outcome), ..m }
}

impl Game {
    /// One flood-fill walk with bounded fuel; the bound is far beyond any
    /// reachable walk length, so it never cuts a walk short.
    fn flood_steps(&mut self, player: Player, pos: TilePos, dir: Direction, fuel: u32)
        requires
            old(self).wf(),
        ensures
            final(self).wf(),
            final(self).model() == (GameV {
                board: spec_flood(old(self).model().board, player, pos, dir, fuel as nat),
                ..old(self).model()
            }),
        decreases fuel,
    {
        if fuel == 0 {
            return ;
        }
        if pos.row < 0 || pos.col < 0 || pos.row >= 7 || pos.col >= 7 {
            return ;
        }
        let tile = *self.tile(pos);
        match tile {
            Tile::Placed(placed) => {
                assert(tile_wf(self.model().board[pos_index(pos)]));
                let exit_dir = placed.exit_from_entrance(dir);
                let mut marked = placed;
                marked.set_flow_cache(dir, Some(player));
                marked.set_flow_cache(exit_dir, Some(player));
                proof {
                    let target = spec_tile_marked(
                        spec_tile_marked(placed, dir, Some(player)),
                        exit_dir,
                        Some(player),
                    );
                    assert(marked.flow_cache@ =~= target.flow_cache@);
                    assert(marked.flow_cache =~= target.flow_cache);
                    assert(marked == target);
                }
                self.set_tile(pos, Tile::Placed(marked));
                match self.adjacent_tile(pos, exit_dir) {
                    AdjacentTile::BoardEdge(_) => {},
                    AdjacentTile::Tile(next_pos) => {
                        self.flood_steps(player, next_pos, exit_dir.reversed(), fuel - 1);
                    },
                }
            },
            _ => {},
        }
    }

    /// Flood-fill one path of `player`'s colour, starting at the board
    /// edge of `pos` named by `dir` and following forced tile connections
    /// until an empty hex or the board edge.
    pub fn floodfill_path(&mut self, player: Player, pos: TilePos, dir: Direction)
        requires
            old(self).wf(),
        ensures
            final(self).wf(),
            final(self).model() == (GameV {
                board: spec_flood(
                    old(self).model().board,
                    player,
                    pos,
                    dir,
                    FLOOD_FUEL as nat,
                ),
                ..old(self).model()
            }),
    {
        self.flood_steps(player, pos, dir, FLOOD_FUEL);
    }

    /// Recompute every flow cache from scratch — clear them all, flood
    /// from each owned side's boundary slots — and update the outcome.
    /// Must run after every board mutation; idempotent, since the result
    /// is a function of the placements and side ownership alone.
    pub fn recompute_flows(&mut self)
        requires
            old(self).wf(),
        ensures
            final(self).wf(),
            final(self).model() == spec_recompute_model(old(self).model()),
    {
        let ghost m0 = self.model();
        // Clear all caches.
        let mut k: usize = 0;
        while k < 49
            invariant
                self.wf(),
                game_wf(m0),
                k <= 49,
                self.settings == m0.settings,
                self.sides@ == m0.sides,
                self.remaining_tiles@ == m0.remaining,
                self.tiles_in_hand@ == m0.hands,
                self.action_history@ == m0.history,
                self.current_player == m0.current,
                spec_outcome_model(self.outcome) == m0.outcome,
                self.board@.len() == 49,
                forall|i: int| 0 <= i < k ==> self.board@[i] == clear_caches(m0.board)[i],
                forall|i: int| k <= i < 49 ==> self.board@[i] == m0.board[i],
            decreases 49 - k,
        {
            let t = self.board[k];
            match t {
                Tile::Placed(p) => {
                    let cleared = PlacedTile::new(p.type_(), p.rotation());
                    proof {
                        assert(cleared.flow_cache@ =~= spec_tile_cleared(p).flow_cache@);
                        assert(cleared.flow_cache =~= spec_tile_cleared(p).flow_cache);
                        assert(cleared == spec_tile_cleared(p));
                    }
                    self.board[k] = Tile::Placed(cleared);
                },
                _ => {},
            }
            k = k + 1;
        }
        proof {
            assert(self.board@ =~= clear_caches(m0.board));
        }

        // Flood from every owned side.
        let ghost cleared_board = self.board@;
        let mut side: usize = 0;
        while side < 6
            invariant
                self.wf(),
                game_wf(m0),
                side <= 6,
                self.settings == m0.settings,
                self.sides@ == m0.sides,
                self.remaining_tiles@ == m0.remaining,
                self.tiles_in_hand@ == m0.hands,
                self.action_history@ == m0.history,
                self.current_player == m0.current,
                spec_outcome_model(self.outcome) == m0.outcome,
                spec_flood_all(self.board@, m0.sides, side as int) == spec_flood_all(
                    cleared_board,
                    m0.sides,
                    0,
                ),
            decreases 6 - side,
        {
            match self.sides[side] {
                None => {},
                Some(player) => {
                    let ghost entry_board = self.board@;
                    let edges = self.edges_on_board_edge(Rotation(side as u8));
                    let mut i: usize = 0;
                    while i < 7
                        invariant
                            self.wf(),
                            i <= 7,
                            side < 6,
                            edges@ =~= spec_edges(Rotation(side as u8)),
                            self.settings == m0.settings,
                            self.sides@ == m0.sides,
                            self.remaining_tiles@ == m0.remaining,
                            self.tiles_in_hand@ == m0.hands,
                            self.action_history@ == m0.history,
                            self.current_player == m0.current,
                            spec_outcome_model(self.outcome) == m0.outcome,
                            spec_flood_side(self.board@, player, Rotation(side as u8), i as int)
                                == spec_flood_side(entry_board, player, Rotation(side as u8), 0),
                        decreases 7 - i,
                    {
                        let (pos, dir) = edges[i];
                        self.floodfill_path(player, pos, dir);
                        i = i + 1;
                    }
                    proof {
                        assert(self.board@ == spec_flood_side(
                            entry_board,
                            player,
                            Rotation(side as u8),
                            0,
                        ));
                    }
                },
            }
            side = side + 1;
        }
        proof {
            assert(self.board@ == spec_recompute_board(m0.board, m0.sides));
        }

        self.update_outcome();
    }

    /// Record a victory when some player's flow reaches their goal side.
    /// A recorded victory is sticky; simultaneous winners (and a teammate
    /// owning the goal side) are all recorded, ascending and without
    /// repetition.
    pub fn update_outcome(&mut self)
        requires
            old(self).wf(),
        ensures
            final(self).wf(),
            final(self).model() == (GameV {
                outcome: spec_outcome_after(
                    old(self).model().board,
                    old(self).model().sides,
                    old(self).model().outcome,
                ),
                ..old(self).model()
            }),
    {
        if self.outcome.is_some() {
            return ;
        }

        let ghost m = self.model();
        let mut has0: bool = false;
        let mut has1: bool = false;
        let mut has2: bool = false;
        let mut side: usize = 0;
        while side < 6
            invariant
                self.wf(),
                self == old(self),
                side <= 6,
                m == self.model(),
                has0 == spec_winner_upto(m.board, m.sides, 0, side as int),
                has1 == spec_winner_upto(m.board, m.sides, 1, side as int),
                has2 == spec_winner_upto(m.board, m.sides, 2, side as int),
            decreases 6 - side,
        {
            match self.sides[side] {
                None => {},
                Some(player) => {
                    let opposite: usize = (side + 3) % 6;
                    let slots = self.edges_on_board_edge(Rotation(opposite as u8));
                    let mut reached: bool = false;
                    let mut i: usize = 0;
                    while i < 7
                        invariant
                            self.wf(),
                            self == old(self),
                            i <= 7,
                            side < 6,
                            m == self.model(),
                            opposite == (side + 3) % 6,
                            m.sides[side as int] == Some(player),
                            slots@ =~= spec_edges(Rotation(opposite as u8)),
                            reached == exists|j: int|
                                0 <= j < i && spec_slot_colored(m.board, side as int, j, player),
                        decreases 7 - i,
                    {
                        let (pos, dir) = slots[i];
                        match *self.tile(pos) {
                            Tile::Placed(t) => {
                                match t.flow_cache(dir) {
                                    Some(q) => {
                                        if q == player {
                                            reached = true;
                                            proof {
                                                assert(spec_slot_colored(
                                                    m.board,
                                                    side as int,
                                                    i as int,
                                                    player,
                                                ));
                                            }
                                        }
                                    },
                                    None => {},
                                }
                            },
                            _ => {},
                        }
                        i = i + 1;
                    }
                    if reached {
                        proof {
                            assert(spec_side_reaches(m.board, m.sides, side as int));
                        }
                        if player == 0 {
                            has0 = true;
                        } else if player == 1 {
                            has1 = true;
                        } else if player == 2 {
                            has2 = true;
                        }
                        match self.sides[opposite] {
                            None => {},
                            Some(teammate) => {
                                if teammate == 0 {
                                    has0 = true;
                                } else if teammate == 1 {
                                    has1 = true;
                                } else if teammate == 2 {
                                    has2 = true;
                                }
                            },
                        }
                    }
                },
            }
            side = side + 1;
        }

        if has0 || has1 || has2 {
            let mut winners: Vec<Player> = Vec::new();
            if has0 {
                winners.push(0);
            }
            if has1 {
                winners.push(1);
            }
            if has2 {
                winners.push(2);
            }
            proof {
                assert(winners@ =~= spec_winners(m.board, m.sides));
            }
            self.outcome = Some(GameOutcome::Victory(winners));
        } else {
            proof {
                assert(spec_winners(m.board, m.sides) =~= Seq::<Player>::empty());
            }
        }
    }
}

/// Whether `q` wins through some side with index below `upto`.
pub open(crate) spec fn spec_winner_upto(
    board: Seq<Tile>,
    sides: Seq<Option<Player>>,
    q: Player,
    upto: int,
) -> bool {
    exists|side: int|
        0 <= side < upto && sides[side] is Some && spec_side_reaches(board, sides, side) && (
        sides[side] == Some(q) || sides[(side + 3) % 6] == Some(q))
}



/// A fresh game's mathematical value.
pub open spec fn spec_new_game(settings: GameSettings) -> GameV {
    GameV {
        settings,
        sides: spec_init_sides(settings.num_players as int),
        remaining: seq![10u8, 10u8, 10u8, 10u8],
        hands: Seq::new(settings.num_players as nat, |i: int| None),
        board: spec_init_board(),
        history: seq![Action::InitializeGame(settings)],
        current: 0,
        outcome: None,
    }
}

/// Why an action is refused.
pub ghost enum ApplyError {
    /// A second initialization action.
    AlreadyInitialized,
    /// Drawing while already holding a tile.
    HandFull,
    /// Drawing a type with no tiles remaining.
    NoneRemaining,
    /// Revealing a tile other than the one held.
    RevealMismatch,
    /// Placing after the game has ended.
    GameOver,
    /// Placing a tile other than the one held.
    NotHandTile,
    /// Placing on anything but an empty hex.
    NotEmpty,
    /// Placing out of turn.
    WrongTurn,
    /// A placement the legality validator rejects.
    Illegal,
}

/// An action the engine can process without tripping machine limits: the
/// acting player is seated and a placement's rotation is valid.
pub open spec fn action_wf(a: Action, num_players: int) -> bool {
    match a {
        Action::InitializeGame(_) => true,
        Action::DrawTile { player, .. } => player < num_players,
        Action::RevealTile { player, .. } => player < num_players,
        Action::PlaceTile { player, rotation, .. } => player < num_players && rotation_valid(
            rotation,
        ),
    }
}

/// The next game state and verdict for one action: the exact rules of the
/// engine. On an error the state is unchanged; on success the action is
/// appended to the history.
pub open(crate) spec fn spec_apply_action(m: GameV, a: Action) -> (GameV, Option<ApplyError>) {
    match a {
        Action::InitializeGame(_) => (m, Some(ApplyError::AlreadyInitialized)),
        Action::DrawTile { player, tile } => {
            if m.hands[player as int] is Some {
                (m, Some(ApplyError::HandFull))
            } else if m.remaining[spec_num_sharps(tile)] == 0 {
                (m, Some(ApplyError::NoneRemaining))
            } else {
                (
                    GameV {
                        hands: m.hands.update(player as int, Some(tile)),
                        remaining: m.remaining.update(
                            spec_num_sharps(tile),
                            (m.remaining[spec_num_sharps(tile)] - 1) as u8,
                        ),
                        history: m.history.push(a),
                        ..m
                    },
                    None,
                )
            }
        },
        Action::RevealTile { player, tile } => {
            if m.hands[player as int] is Some && m.hands[player as int] != Some(tile) {
                (m, Some(ApplyError::RevealMismatch))
            } else {
                (
                    GameV {
                        hands: m.hands.update(player as int, Some(tile)),
                        history: m.history.push(a),
                        ..m
                    },
                    None,
                )
            }
        },
        Action::PlaceTile { player, tile, pos, rotation } => {
            if m.outcome is Some {
                (m, Some(ApplyError::GameOver))
            } else if m.hands[player as int] is Some && m.hands[player as int] != Some(tile) {
                (m, Some(ApplyError::NotHandTile))
            } else if !(spec_tile_at(m.board, pos) is Empty) {
                (m, Some(ApplyError::NotEmpty))
            } else if m.current != player {
                (m, Some(ApplyError::WrongTurn))
            } else {
                let placed = spec_place_tile(m, tile, pos, rotation);
                let checked = spec_recompute_model(placed);
                if crate::legality::spec_is_move_legal(checked) is Err {
                    (m, Some(ApplyError::Illegal))
                } else {
                    let committed = spec_recompute_model(
                        GameV {
                            hands: m.hands.update(player as int, None),
                            ..spec_place_tile(m, tile, pos, rotation)
                        },
                    );
                    let advanced = GameV {
                        current: if committed.outcome is None {
                            ((committed.current + 1) % (committed.settings.num_players as int)) as usize
                        } else {
                            committed.current
                        },
                        history: committed.history.push(a),
                        ..committed
                    };
                    (advanced, None)
                }
            }
        },
    }
}

/// The model with a fresh tile of the given shape and rotation written at
/// `pos` (flows not yet recomputed).
pub open(crate) spec fn spec_place_tile(
    m: GameV,
    tile: TileType,
    pos: TilePos,
    rotation: Rotation,
) -> GameV {
    GameV {
        board: m.board.update(
            pos_index(pos),
            Tile::Placed(
                PlacedTile {
                    type_: tile,
                    rotation,
                    flow_cache: vstd::array::spec_array_fill_for_copy_type::<Option<Player>, 6>(
                        None,
                    ),
                },
            ),
        ),
        ..m
    }
}

/// Replaying a history from index `i`: stop at the first refused action.
pub open(crate) spec fn spec_replay_from(m: GameV, h: Seq<Action>, i: int) -> Result<
    GameV,
    ApplyError,
>
    decreases h.len() - i,
{
    if i < 0 || i >= h.len() {
        Ok(m)
    } else {
        let step = spec_apply_action(m, h[i]);
        match step.1 {
            None => spec_replay_from(step.0, h, i + 1),
            Some(e) => Err(e),
        }
    }
}

/// Flood-filling never writes the off-board corner cell the out-of-grid
/// reads come from.
proof fn lemma_flood_preserves_edge(
    board: Seq<Tile>,
    player: Player,
    pos: TilePos,
    dir: Direction,
    fuel: nat,
)
    requires
        board.len() == 49,
        board[42] is NotOnBoard,
    ensures
        spec_flood(board, player, pos, dir, fuel).len() == 49,
        spec_flood(board, player, pos, dir, fuel)[42] is NotOnBoard,
    decreases fuel,
{
    if fuel == 0 || !on_grid(pos) {
    } else {
        match board[pos_index(pos)] {
            Tile::Placed(tile) => {
                let exit = spec_placed_exit(tile.type_, tile.rotation, dir);
                let marked = board.update(
                    pos_index(pos),
                    Tile::Placed(
                        spec_tile_marked(
                            spec_tile_marked(tile, dir, Some(player)),
                            exit,
                            Some(player),
                        ),
                    ),
                );
                assert(pos_index(pos) != 42);
                assert(marked[42] is NotOnBoard);
                let np = spec_pos_plus(pos, spec_dir_vec(exit));
                if spec_tile_at(marked, np) is NotOnBoard {
                } else {
                    lemma_flood_preserves_edge(
                        marked,
                        player,
                        np,
                        spec_dir_reversed(exit),
                        (fuel - 1) as nat,
                    );
                }
            },
            _ => {},
        }
    }
}

/// Flooding a whole side keeps the off-board corner cell off board.
proof fn lemma_flood_side_preserves_edge(board: Seq<Tile>, player: Player, rot: Rotation, i: int)
    requires
        board.len() == 49,
        board[42] is NotOnBoard,
    ensures
        spec_flood_side(board, player, rot, i).len() == 49,
        spec_flood_side(board, player, rot, i)[42] is NotOnBoard,
    decreases 7 - i,
{
    if i < 0 || i >= 7 {
    } else {
        let slot = spec_edge_slot(rot, i);
        lemma_flood_preserves_edge(board, player, slot.0, slot.1, FLOOD_FUEL as nat);
        lemma_flood_side_preserves_edge(
            spec_flood(board, player, slot.0, slot.1, FLOOD_FUEL as nat),
            player,
            rot,
            i + 1,
        );
    }
}

/// Flooding all sides keeps the off-board corner cell off board.
proof fn lemma_flood_all_preserves_edge(board: Seq<Tile>, sides: Seq<Option<Player>>, side: int)
    requires
        board.len() == 49,
        board[42] is NotOnBoard,
    ensures
        spec_flood_all(board, sides, side).len() == 49,
        spec_flood_all(board, sides, side)[42] is NotOnBoard,
    decreases 6 - side,
{
    if side < 0 || side >= 6 {
    } else {
        match sides[side] {
            None => {
                lemma_flood_all_preserves_edge(board, sides, side + 1);
            },
            Some(p) => {
                lemma_flood_side_preserves_edge(board, p, Rotation(side as u8), 0);
                lemma_flood_all_preserves_edge(
                    spec_flood_side(board, p, Rotation(side as u8), 0),
                    sides,
                    side + 1,
                );
            },
        }
    }
}

/// A full recomputation keeps the off-board corner cell off board.
pub proof fn lemma_recompute_preserves_edge(board: Seq<Tile>, sides: Seq<Option<Player>>)
    requires
        board.len() == 49,
        board[42] is NotOnBoard,
    ensures
        spec_recompute_board(board, sides).len() == 49,
        spec_recompute_board(board, sides)[42] is NotOnBoard,
{
    assert(clear_caches(board).len() == 49);
    assert(clear_caches(board)[42] is NotOnBoard);
    lemma_flood_all_preserves_edge(clear_caches(board), sides, 0);
}

/// Copy a vector of plain values.
fn copy_vec<T: Copy>(v: &Vec<T>) -> (r: Vec<T>)
    ensures
        r@ == v@,
{
    let mut r: Vec<T> = Vec::new();
    let mut i: usize = 0;
    while i < v.len()
        invariant
            i <= v@.len(),
            r@ == v@.subrange(0, i as int),
        decreases v@.len() - i,
    {
        r.push(v[i]);
        proof {
            assert(r@ =~= v@.subrange(0, i + 1));
        }
        i = i + 1;
    }
    proof {
        assert(r@ =~= v@);
    }
    r
}

impl Clone for Game {
    /// An exact copy: the clone has the same mathematical value, so
    /// candidate moves can be tested on a copy without touching the
    /// original.
    fn clone(&self) -> (res: Game)
        ensures
            res.model() == self.model(),
    {
        let res = Game {
            settings: self.settings,
            sides: self.sides,
            remaining_tiles: self.remaining_tiles,
            tiles_in_hand: copy_vec(&self.tiles_in_hand),
            board: copy_vec(&self.board),
            action_history: copy_vec(&self.action_history),
            current_player: self.current_player,
            outcome: match &self.outcome {
                None => None,
                Some(GameOutcome::Victory(w)) => Some(GameOutcome::Victory(copy_vec(w))),
            },
        };
        res
    }
}

impl Game {
    /// The full action history.
    pub fn action_history_vec(&self) -> (h: &Vec<Action>)
        ensures
            h@ == self.model().history,
    {
        &self.action_history
    }

    /// The full action history (alias kept for callers that only read it).
    pub fn action_history(&self) -> (h: &Vec<Action>)
        ensures
            h@ == self.model().history,
    {
        &self.action_history
    }

    /// The actions the given viewer is allowed to see, in order.
    pub fn actions_for_viewer(&self, viewer: GameViewer) -> (r: Vec<Action>)
        ensures
            r@ == spec_visible_from(self.model().history, viewer, 0),
    {
        let ghost h = self.model().history;
        let mut r: Vec<Action> = Vec::new();
        let mut i: usize = 0;
        while i < self.action_history.len()
            invariant
                i <= h.len(),
                h == self.model().history,
                self.action_history@ == h,
                spec_visible_from(h, viewer, 0) == r@ + spec_visible_from(h, viewer, i as int),
            decreases h.len() - i,
        {
            let ghost r0 = r@;
            let a = self.action_history[i];
            if a.visible(viewer) {
                r.push(a);
                proof {
                    assert(r@ =~= r0 + seq![h[i as int]]);
                    assert(r0 + (seq![h[i as int]] + spec_visible_from(h, viewer, i + 1)) =~= r@
                        + spec_visible_from(h, viewer, i + 1));
                    assert(spec_visible_from(h, viewer, 0) =~= r@ + spec_visible_from(
                        h,
                        viewer,
                        i + 1,
                    ));
                }
            } else {
                proof {
                    assert(Seq::<Action>::empty() + spec_visible_from(h, viewer, i + 1)
                        =~= spec_visible_from(h, viewer, i + 1));
                }
            }
            i = i + 1;
        }
        proof {
            assert(spec_visible_from(h, viewer, h.len() as int) =~= Seq::<Action>::empty());
            assert(spec_visible_from(h, viewer, 0) =~= r@);
        }
        r
    }

    /// A copy of the game with the tile written at the given position and
    /// the flows recomputed; no legality checking.
    pub fn with_tile_placed(&self, tile: TileType, pos: TilePos, rotation: Rotation) -> (g: Game)
        requires
            self.wf(),
            on_grid(pos),
            rotation_valid(rotation),
        ensures
            g.wf(),
            g.model() == spec_recompute_model(spec_place_tile(self.model(), tile, pos, rotation)),
    {
        let mut new_game = self.clone();
        let fresh = PlacedTile::new(tile, rotation);
        new_game.set_tile(pos, Tile::Placed(fresh));
        proof {
            let target = spec_place_tile(self.model(), tile, pos, rotation);
            let spec_fresh = PlacedTile {
                type_: tile,
                rotation,
                flow_cache: vstd::array::spec_array_fill_for_copy_type::<Option<Player>, 6>(None),
            };
            assert(fresh.flow_cache@ =~= spec_fresh.flow_cache@);
            assert(fresh.flow_cache =~= spec_fresh.flow_cache);
            assert(fresh == spec_fresh);
            assert(new_game.model().board =~= target.board);
            assert(new_game.model() == target);
        }
        new_game.recompute_flows();
        new_game
    }
}

/// The suffix of `h` from `i` on, restricted to what `viewer` can see.
pub open(crate) spec fn spec_visible_from(h: Seq<Action>, viewer: GameViewer, i: int) -> Seq<
    Action,
>
    decreases h.len() - i,
{
    if i < 0 || i >= h.len() {
        Seq::empty()
    } else {
        (if spec_action_visible(h[i], viewer) {
            seq![h[i]]
        } else {
            Seq::empty()
        }) + spec_visible_from(h, viewer, i + 1)
    }
}



/// A board whose off-grid reads come back off-board, as every board
/// reachable through the game API does; the engine and the legality
/// search rely on it to stay on the grid.
pub open(crate) spec fn board_edge_ok(m: GameV) -> bool {
    m.board[42] is NotOnBoard
}

/// The error text of each refusal.
pub open spec fn spec_err_msg(e: ApplyError) -> Seq<char> {
    match e {
        ApplyError::AlreadyInitialized => "Game initialized twice"@,
        ApplyError::HandFull => "Player already has a tile in hand"@,
        ApplyError::NoneRemaining => "No tiles remaining of drawn type"@,
        ApplyError::RevealMismatch => "Must reveal actual tile that player holds"@,
        ApplyError::GameOver => "Game is already over"@,
        ApplyError::NotHandTile => "Player must play the tile from their hand"@,
        ApplyError::NotEmpty => "Can only place tile on an empty space"@,
        ApplyError::WrongTurn => "Wrong player's turn"@,
        ApplyError::Illegal => "Illegal move: blocks another player"@,
    }
}

impl Game {
    /// Process one action: draw, reveal, or place a tile. Each refusal
    /// leaves the game unchanged; a placement is committed only if the
    /// legality validator accepts the resulting board or it produces an
    /// immediate victory, and then the flows are recomputed, the hand
    /// emptied, the turn advanced (unless the game ended) and the action
    /// recorded.
    #[verifier::rlimit(60)]
    pub fn apply_action(&mut self, action: Action) -> (r: Result<(), String>)
        requires
            old(self).wf(),
            board_edge_ok(old(self).model()),
            action_wf(action, old(self).model().settings.num_players as int),
        ensures
            final(self).wf(),
            board_edge_ok(final(self).model()),
            final(self).model() == spec_apply_action(old(self).model(), action).0,
            match spec_apply_action(old(self).model(), action).1 {
                None => r is Ok,
                Some(e) => r matches Err(msg) && msg@ == spec_err_msg(e),
            },
    {
        let ghost m0 = self.model();
        match action {
            Action::InitializeGame(_) => {
                return Err(String::from_str("Game initialized twice"));
            },
            Action::DrawTile { player, tile } => {
                if self.tiles_in_hand[player].is_some() {
                    return Err(String::from_str("Player already has a tile in hand"));
                }
                let sharps = tile.num_sharps();
                if self.remaining_tiles[sharps] == 0 {
                    return Err(String::from_str("No tiles remaining of drawn type"));
                }
                self.tiles_in_hand[player] = Some(tile);
                self.remaining_tiles[sharps] = self.remaining_tiles[sharps] - 1;
            },
            Action::RevealTile { player, tile } => {
                let held = self.tiles_in_hand[player];
                match held {
                    Some(t) => {
                        if t != tile {
                            return Err(
                                String::from_str("Must reveal actual tile that player holds"),
                            );
                        }
                    },
                    None => {},
                }
                self.tiles_in_hand[player] = Some(tile);
            },
            Action::PlaceTile { player, tile, pos, rotation } => {
                if self.outcome.is_some() {
                    return Err(String::from_str("Game is already over"));
                }
                let held = self.tiles_in_hand[player];
                match held {
                    Some(t) => {
                        if t != tile {
                            return Err(
                                String::from_str("Player must play the tile from their hand"),
                            );
                        }
                    },
                    None => {},
                }
                if !matches!(*self.tile(pos), Tile::Empty) {
                    return Err(String::from_str("Can only place tile on an empty space"));
                }
                if self.current_player != player {
                    return Err(String::from_str("Wrong player's turn"));
                }
                proof {
                    assert(on_grid(pos));
                    assert(pos_index(pos) != 42);
                }

                // Check legality on a copy holding the candidate board.
                let mut temp_game = self.clone();
                let fresh = PlacedTile::new(tile, rotation);
                temp_game.set_tile(pos, Tile::Placed(fresh));
                proof {
                    let target = spec_place_tile(m0, tile, pos, rotation);
                    let spec_fresh = PlacedTile {
                        type_: tile,
                        rotation,
                        flow_cache: vstd::array::spec_array_fill_for_copy_type::<
                            Option<Player>,
                            6,
                        >(None),
                    };
                    assert(fresh.flow_cache@ =~= spec_fresh.flow_cache@);
                    assert(fresh.flow_cache =~= spec_fresh.flow_cache);
                    assert(fresh == spec_fresh);
                    assert(temp_game.model().board =~= target.board);
                    assert(temp_game.model() == target);
                }
                temp_game.recompute_flows();
                proof {
                    let placed = spec_place_tile(m0, tile, pos, rotation);
                    lemma_recompute_preserves_edge(placed.board, placed.sides);
                }
                if crate::legality::is_move_legal(&temp_game).is_err() {
                    return Err(String::from_str("Illegal move: blocks another player"));
                }

                // Commit the placement to the actual game.
                let fresh2 = PlacedTile::new(tile, rotation);
                self.set_tile(pos, Tile::Placed(fresh2));
                self.tiles_in_hand[player] = None;
                proof {
                    let target = GameV {
                        hands: m0.hands.update(player as int, None),
                        ..spec_place_tile(m0, tile, pos, rotation)
                    };
                    let spec_fresh = PlacedTile {
                        type_: tile,
                        rotation,
                        flow_cache: vstd::array::spec_array_fill_for_copy_type::<
                            Option<Player>,
                            6,
                        >(None),
                    };
                    assert(fresh2.flow_cache@ =~= spec_fresh.flow_cache@);
                    assert(fresh2.flow_cache =~= spec_fresh.flow_cache);
                    assert(fresh2 == spec_fresh);
                    assert(self.model().board =~= target.board);
                    assert(self.model().hands =~= target.hands);
                    assert(self.model() == target);
                }
                self.recompute_flows();
                if self.outcome.is_none() {
                    self.current_player = (self.current_player + 1) % self.settings.num_players;
                }
            },
        }
        self.action_history.push(action);
        proof {
            assert(self.model().history =~= spec_apply_action(m0, action).0.history);
            assert(self.model() == spec_apply_action(m0, action).0);
        }
        Ok(())
    }

    /// Rebuild a game by replaying a recorded history, whose first entry
    /// must be the initialization action; stops at the first refused
    /// action and reports its error.
    pub fn from_actions(action_history: Vec<Action>) -> (r: Result<Game, String>)
        requires
            action_history@.len() >= 1,
            action_history@[0] matches Action::InitializeGame(s) && settings_valid(s),
            forall|i: int|
                1 <= i < action_history@.len() ==> action_wf(
                    #[trigger] action_history@[i],
                    spec_first_settings(action_history@).num_players as int,
                ),
        ensures
            match r {
                Ok(g) => {
                    &&& g.wf()
                    &&& board_edge_ok(g.model())
                    &&& spec_replay_from(
                        spec_new_game(spec_first_settings(action_history@)),
                        action_history@,
                        1,
                    ) == Ok::<GameV, ApplyError>(g.model())
                },
                Err(_) => spec_replay_from(
                    spec_new_game(spec_first_settings(action_history@)),
                    action_history@,
                    1,
                ) is Err,
            },
    {
        let ghost h = action_history@;
        let settings = match action_history[0] {
            Action::InitializeGame(s) => s,
            _ => {
                proof {
                    assert(false);
                }
                GameSettings { num_players: 2, version: 0 }
            },
        };
        let mut game = Game::new(settings);
        proof {
            assert(game.model().hands =~= spec_new_game(settings).hands);
            assert(game.model().sides =~= spec_new_game(settings).sides);
            assert(game.model().remaining =~= spec_new_game(settings).remaining);
            assert(game.model().board =~= spec_new_game(settings).board);
            assert(game.model().history =~= spec_new_game(settings).history);
            assert(game.model() == spec_new_game(settings));
            assert(spec_init_board()[42] is NotOnBoard);
        }
        let mut i: usize = 1;
        while i < action_history.len()
            invariant
                1 <= i <= h.len(),
                action_history@ == h,
                h[0] matches Action::InitializeGame(s) && s == settings,
                forall|j: int|
                    1 <= j < h.len() ==> action_wf(
                        #[trigger] h[j],
                        settings.num_players as int,
                    ),
                game.wf(),
                board_edge_ok(game.model()),
                game.model().settings == settings,
                spec_replay_from(spec_new_game(settings), h, 1) == spec_replay_from(
                    game.model(),
                    h,
                    i as int,
                ),
            decreases h.len() - i,
        {
            let a = action_history[i];
            match game.apply_action(a) {
                Ok(()) => {},
                Err(e) => {
                    return Err(e);
                },
            }
            i = i + 1;
        }
        Ok(game)
    }

    /// Select a tile type from the remaining supply, weighted by how many
    /// tiles of each type remain; the drawn type always has tiles left.
    /// Does not modify the game: drawing is recorded via the draw action.
    pub fn draw_random_tile(&self) -> (t: TileType)
        requires
            self.wf(),
            spec_remaining_total(self.model().remaining) > 0,
        ensures
            self.model().remaining[spec_num_sharps(t)] > 0,
    {
        let r0 = self.remaining_tiles[0];
        let r1 = self.remaining_tiles[1];
        let r2 = self.remaining_tiles[2];
        let r3 = self.remaining_tiles[3];
        let total: u32 = r0 as u32 + r1 as u32 + r2 as u32 + r3 as u32;
        let mut drawn: u32 = random_below(total);
        if drawn < r0 as u32 {
            return TileType::NoSharps;
        }
        drawn = drawn - r0 as u32;
        if drawn < r1 as u32 {
            return TileType::OneSharp;
        }
        drawn = drawn - r1 as u32;
        if drawn < r2 as u32 {
            return TileType::TwoSharps;
        }
        drawn = drawn - r2 as u32;
        proof {
            assert(drawn < r3 as u32);
        }
        TileType::ThreeSharps
    }

    /// Whether the current player has revealed their tile since they last
    /// drew one, judging from the recorded history.
    pub fn tile_is_revealed(&self) -> (b: bool)
        ensures
            b == spec_revealed_from(
                self.model().history,
                self.model().current,
                self.model().history.len() - 1,
            ),
    {
        let ghost h = self.model().history;
        let ghost cur = self.model().current;
        let mut i: usize = self.action_history.len();
        while i > 0
            invariant
                i <= h.len(),
                self.action_history@ == h,
                cur == self.model().current,
                spec_revealed_from(h, cur, h.len() - 1) == spec_revealed_from(h, cur, i - 1),
            decreases i,
        {
            let a = self.action_history[i - 1];
            match a {
                Action::InitializeGame(_) | Action::PlaceTile { .. } => {},
                Action::DrawTile { player, .. } => {
                    if player == self.current_player {
                        return false;
                    }
                },
                Action::RevealTile { player, .. } => {
                    if player == self.current_player {
                        return true;
                    }
                },
            }
            i = i - 1;
        }
        false
    }

    /// Perform the automatic actions: draw a tile for every player who
    /// needs one (starting from the current player) while the supply
    /// lasts, and reveal the current player's tile if it has not been
    /// revealed since they last drew. The board, sides, turn and outcome
    /// are untouched.
    /// The seat `j` steps after `start` in turn order.
    pub open spec fn spec_seat(start: int, n: int, j: int) -> int {
        (start + j) % n
    }

    /// Whether seat `p` is among the first `k` seats visited from `start`.
    pub open spec fn seat_visited(start: int, n: int, k: int, p: int) -> bool {
        exists|j: int| 0 <= j < k && p == #[trigger] Game::spec_seat(start, n, j)
    }

    pub fn do_automatic_actions(&mut self)
        requires
            old(self).wf(),
            board_edge_ok(old(self).model()),
        ensures
            final(self).wf(),
            board_edge_ok(final(self).model()),
            final(self).model().settings == old(self).model().settings,
            final(self).model().sides == old(self).model().sides,
            final(self).model().board == old(self).model().board,
            final(self).model().current == old(self).model().current,
            final(self).model().outcome == old(self).model().outcome,
            forall|p: int|
                #![trigger old(self).model().hands[p]]
                0 <= p < old(self).model().settings.num_players
                    && old(self).model().hands[p] is Some ==> final(self).model().hands[p]
                    == old(self).model().hands[p],
            spec_remaining_total(old(self).model().remaining)
                >= old(self).model().settings.num_players ==> forall|p: int|
                0 <= p < old(self).model().settings.num_players
                    ==> (#[trigger] final(self).model().hands[p]) is Some,
    {
        let ghost m0 = old(self).model();
        let n = self.num_players();
        let start = self.current_player();
        let mut k: usize = 0;
        while k < n
            invariant
                k <= n,
                self.wf(),
                board_edge_ok(self.model()),
                game_wf(m0),
                n == m0.settings.num_players,
                start == m0.current,
                start < n,
                self.model().settings == m0.settings,
                self.model().sides == m0.sides,
                self.model().board == m0.board,
                self.model().current == m0.current,
                self.model().outcome == m0.outcome,
                forall|p: int|
                    0 <= p < n && m0.hands[p] is Some ==> self.model().hands[p] == m0.hands[p],
                spec_remaining_total(self.model().remaining) >= spec_remaining_total(m0.remaining)
                    - k,
                forall|p: int|
                    0 <= p < n && Game::seat_visited(start as int, n as int, k as int, p) ==> (
                    spec_remaining_total(m0.remaining) >= n ==> (#[trigger] self.model().hands[p])
                        is Some),
            decreases n - k,
        {
            let player = (start + k) % n;
            let total: u32 = self.remaining_tiles[0] as u32 + self.remaining_tiles[1] as u32
                + self.remaining_tiles[2] as u32 + self.remaining_tiles[3] as u32;
            proof {
                assert(total == spec_remaining_total(self.model().remaining));
            }
            if self.tiles_in_hand[player].is_none() && total > 0 {
                let drawn_tile = self.draw_random_tile();
                let ghost before = self.model();
                let res = self.apply_action(Action::DrawTile { player, tile: drawn_tile });
                proof {
                    assert(spec_apply_action(before, Action::DrawTile { player, tile: drawn_tile }).1
                        is None);
                    assert(res is Ok);
                    assert(self.model().hands[player as int] is Some);
                    assert(spec_remaining_total(self.model().remaining)
                        == spec_remaining_total(before.remaining) - 1);
                }
            }
            proof {
                if spec_remaining_total(m0.remaining) >= n {
                    assert(self.model().hands[player as int] is Some);
                }
                assert forall|p: int|
                    0 <= p < n && Game::seat_visited(
                        start as int,
                        n as int,
                        k + 1,
                        p,
                    ) implies (spec_remaining_total(m0.remaining) >= n ==> (
                    #[trigger] self.model().hands[p]) is Some) by {
                    let j = choose|j: int|
                        0 <= j < k + 1 && p == #[trigger] Game::spec_seat(
                            start as int,
                            n as int,
                            j,
                        );
                    if j == k {
                        assert(p == player as int);
                    } else {
                        assert(Game::seat_visited(start as int, n as int, k as int, p));
                    }
                }
            }
            k = k + 1;
        }
        proof {
            if spec_remaining_total(m0.remaining) >= n {
                assert forall|p: int| 0 <= p < n implies (#[trigger] self.model().hands[p])
                    is Some by {
                    let j = if p >= start as int {
                        p - start
                    } else {
                        p + n - start
                    };
                    assert(0 <= j < n && p == Game::spec_seat(start as int, n as int, j))
                        by (nonlinear_arith)
                        requires
                            0 <= p < n,
                            0 <= start < n,
                            j == if p >= start as int {
                                p - start
                            } else {
                                p + n - start
                            },
                    ;
                    assert(Game::seat_visited(start as int, n as int, n as int, p));
                }
            }
        }

        if !self.tile_is_revealed() {
            let current = self.current_player();
            match self.tiles_in_hand[current] {
                Some(tile) => {
                    let ghost before = self.model();
                    let res = self.apply_action(Action::RevealTile { player: current, tile });
                    proof {
                        assert(spec_apply_action(
                            before,
                            Action::RevealTile { player: current, tile },
                        ).1 is None);
                        assert(res is Ok);
                    }
                },
                None => {},
            }
        }
    }
}

/// The settings named by a history's initialization action.
pub open spec fn spec_first_settings(h: Seq<Action>) -> GameSettings {
    match h[0] {
        Action::InitializeGame(s) => s,
        _ => GameSettings { num_players: 2, version: 0 },
    }
}

/// How many tiles remain in the whole supply.
pub open spec fn spec_remaining_total(remaining: Seq<u8>) -> int {
    remaining[0] + remaining[1] + remaining[2] + remaining[3]
}

/// Whether, scanning the history backwards from index `i`, the player
/// `cur` reveals a tile before drawing one.
pub open spec fn spec_revealed_from(h: Seq<Action>, cur: Player, i: int) -> bool
    decreases i + 1,
{
    if i < 0 || i >= h.len() {
        false
    } else {
        match h[i] {
            Action::DrawTile { player, .. } => if player == cur {
                false
            } else {
                spec_revealed_from(h, cur, i - 1)
            },
            Action::RevealTile { player, .. } => if player == cur {
                true
            } else {
                spec_revealed_from(h, cur, i - 1)
            },
            _ => spec_revealed_from(h, cur, i - 1),
        }
    }
}

/// Relies on rand::Rng::random_range over `0..total`: a draw from the
/// thread-local generator that always lies strictly below `total`.
#[verifier::external_body]
fn random_below(total: u32) -> (r: u32)
    requires
        total > 0,
    ensures
        r < total,
{
    rand::Rng::random_range(&mut rand::rng(), 0..total)
}



/// Whether the engine can process this action for a game of `num_players`
/// seats (the acting player exists and any rotation is valid).
pub fn check_action_wf(a: &Action, num_players: usize) -> (b: bool)
    ensures
        b == action_wf(*a, num_players as int),
{
    match a {
        Action::InitializeGame(_) => true,
        Action::DrawTile { player, .. } => *player < num_players,
        Action::RevealTile { player, .. } => *player < num_players,
        Action::PlaceTile { player, rotation, .. } => *player < num_players && rotation.0 < 6,
    }
}


} // verus!
