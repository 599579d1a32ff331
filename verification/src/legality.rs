//! The move-legality validator: before a placement is committed, prove that
//! no player has been left permanently unable to complete a path.
//!
//! A *potential path* for a player is a walk from one of their start
//! boundary slots to one of their goal boundary slots; through a placed hex
//! the walk is forced along the tile's connections, through an empty hex it
//! may use any entrance/exit pair but then demands that hex's eventual tile
//! support the connection. Players checked earlier claim inter-hex edges and
//! internal connections; later players must route around them, and a new
//! demand at a shared empty hex is allowed only if the union of demands is
//! still satisfiable by a single tile.
use crate::game::{
    board_edge_ok,
    dir_index, dir_of_index, rotation_valid, spec_dir_reversed, spec_dir_towards, spec_edge_slot,
    spec_neighbor, spec_num_sharps, spec_placed_exit, spec_placed_flows, spec_tile_at, on_grid,
    spec_base_slots, edges_template, spec_pos_plus, spec_dir_vec, spec_edges, Direction,
    Game, GameV, PlacedTile, Player, Rotation, Tile, TilePos, TileType,
};
use vstd::prelude::*;

verus! {

/// A pair of edge directions of one hex that must be connected.
pub type Connection = (Direction, Direction);

/// An inter-hex edge, the node of the path-finding graph: the two hexes it
/// connects (canonically ordered) and the direction from the first to the
/// second.
pub type Node = (TilePos, TilePos, Direction);

/// One internal-connection demand recorded against an empty hex.
pub type DemandEntry = (TilePos, Connection);

/// Why a candidate placement is rejected.
#[derive(Clone, Copy, PartialEq, Eq, Structural, Debug)]
pub enum LegalityError {
    /// The placement leaves this player without any potential path under
    /// either tried ordering.
    BlockedPlayer(Player),
}

/// Search fuel far beyond the number of canonical inter-hex edges, so the
/// breadth-first search is never cut short.
pub const BFS_FUEL: u32 = 100000;

/// A connection normalised to smaller direction first: connections are
/// symmetric, so each pair has one canonical spelling.
pub open spec fn spec_norm(c: Connection) -> Connection {
    if dir_index(c.0) > dir_index(c.1) {
        (c.1, c.0)
    } else {
        c
    }
}

/// The set of elements of a connection sequence.
pub open spec fn conns_of(s: Seq<Connection>) -> Set<Connection> {
    Set::new(|c: Connection| s.contains(c))
}

/// The set of elements of a node sequence.
pub open spec fn nodes_of(s: Seq<Node>) -> Set<Node> {
    Set::new(|n: Node| s.contains(n))
}

/// The normalised connection set provided by one tile configuration.
pub open spec fn spec_conn_set(t: TileType, rot: Rotation) -> Set<Connection> {
    Set::new(
        |c: Connection|
            exists|i: int| 0 <= i < 3 && c == spec_norm(#[trigger] spec_placed_flows(t, rot)[i]),
    )
}

/// Whether some single tile configuration (4 shapes times 6 rotations)
/// provides every demanded connection. The empty demand set is trivially
/// satisfiable, and so is any single demand.
pub open spec fn spec_satisfiable(demands: Set<Connection>) -> bool {
    exists|t: TileType, r: Rotation|
        rotation_valid(r) && demands.subset_of(#[trigger] spec_conn_set(t, r))
}

/// The demands recorded against one hex.
pub open spec fn demands_at(ds: Seq<DemandEntry>, pos: TilePos) -> Set<Connection> {
    Set::new(|c: Connection| ds.contains((pos, c)))
}

/// Whether the demands already at `pos`, together with the (normalised)
/// new demand `nd`, can still be met by a single tile.
pub open spec fn spec_demand_ok(ds: Seq<DemandEntry>, pos: TilePos, nd: Connection) -> bool {
    spec_satisfiable(demands_at(ds, pos).insert(nd))
}

/// Lexicographic order on positions, as the canonical-node ordering uses.
pub open spec fn spec_pos_lt(a: TilePos, b: TilePos) -> bool {
    a.row < b.row || (a.row == b.row && a.col < b.col)
}

/// The canonical spelling of the inter-hex edge between two adjacent
/// hexes: the lexicographically smaller hex first, with the direction
/// leading from it to the other. Both argument orders give the same node.
pub open spec fn spec_canonical_node(p1: TilePos, p2: TilePos) -> Node {
    match spec_dir_towards(p1, p2) {
        Some(d) => if spec_pos_lt(p1, p2) {
            (p1, p2, d)
        } else {
            (p2, p1, spec_dir_reversed(d))
        },
        None => (p1, p2, Direction::SouthWest),
    }
}

/// The start and goal sides of each player: the goal is always opposite
/// the start.
pub open spec fn spec_player_sides(player: Player) -> (Rotation, Rotation) {
    if player == 0 {
        (Rotation(0), Rotation(3))
    } else if player == 1 {
        (Rotation(2), Rotation(5))
    } else {
        (Rotation(4), Rotation(1))
    }
}

/// Whether the path now standing at `current` (having come from `prev`)
/// completes at the goal side: through a placed goal hex the forced exit
/// must land exactly on a goal boundary slot; through an empty goal hex
/// some goal slot's exit must still be jointly satisfiable with the
/// demands already at that hex.
pub open(crate) spec fn spec_goal_reached(
    m: GameV,
    player: Player,
    demands: Seq<DemandEntry>,
    current: TilePos,
    prev: TilePos,
) -> bool {
    let goal = spec_player_sides(player).1;
    (exists|i: int| 0 <= i < 7 && (#[trigger] spec_edge_slot(goal, i)).0 == current)
        && match spec_dir_towards(current, prev) {
        Some(entry) => match spec_tile_at(m.board, current) {
            Tile::Placed(t) => {
                let exit = spec_placed_exit(t.type_, t.rotation, entry);
                exists|i: int| 0 <= i < 7 && #[trigger] spec_edge_slot(goal, i) == (current, exit)
            },
            Tile::Empty => exists|i: int|
                0 <= i < 7 && (#[trigger] spec_edge_slot(goal, i)).0 == current && spec_demand_ok(
                    demands,
                    current,
                    spec_norm((entry, spec_edge_slot(goal, i).1)),
                ),
            Tile::NotOnBoard => false,
        },
        None => false,
    }
}

/// Expansion through an empty hex: try the six exit directions in index
/// order from `k` upward, enqueueing each admissible step and marking its
/// node visited. Returns the new queue entries and the grown visited set.
pub open(crate) spec fn spec_expand_empty(
    m: GameV,
    claimed: Set<Node>,
    demands: Seq<DemandEntry>,
    path: Seq<Node>,
    current: TilePos,
    prev: TilePos,
    visited: Set<Node>,
    k: int,
) -> (Seq<(Seq<Node>, TilePos)>, Set<Node>)
    decreases 6 - k,
{
    if k < 0 || k >= 6 {
        (Seq::empty(), visited)
    } else {
        let exit = dir_of_index(k);
        let step = match spec_neighbor(m.board, current, exit) {
            Some(np) => if np != prev {
                let node = spec_canonical_node(current, np);
                if !visited.contains(node) && !claimed.contains(node) {
                    match spec_dir_towards(current, prev) {
                        Some(entry) => if spec_demand_ok(
                            demands,
                            current,
                            spec_norm((entry, exit)),
                        ) {
                            Some((node, np))
                        } else {
                            None
                        },
                        None => None,
                    }
                } else {
                    None
                }
            } else {
                None
            },
            None => None,
        };
        match step {
            None => spec_expand_empty(m, claimed, demands, path, current, prev, visited, k + 1),
            Some((node, np)) => {
                let rest = spec_expand_empty(
                    m,
                    claimed,
                    demands,
                    path,
                    current,
                    prev,
                    visited.insert(node),
                    k + 1,
                );
                (seq![(path.push(node), np)] + rest.0, rest.1)
            },
        }
    }
}

/// Expansion of the head queue entry: forced through a placed hex, free
/// (but demand-checked) through an empty hex, nothing off board.
pub open(crate) spec fn spec_expand(
    m: GameV,
    claimed: Set<Node>,
    demands: Seq<DemandEntry>,
    path: Seq<Node>,
    current: TilePos,
    prev: TilePos,
    visited: Set<Node>,
) -> (Seq<(Seq<Node>, TilePos)>, Set<Node>) {
    match spec_tile_at(m.board, current) {
        Tile::Placed(t) => match spec_dir_towards(current, prev) {
            Some(entry) => {
                let exit = spec_placed_exit(t.type_, t.rotation, entry);
                match spec_neighbor(m.board, current, exit) {
                    Some(np) => {
                        let node = spec_canonical_node(current, np);
                        if !visited.contains(node) && !claimed.contains(node) {
                            (seq![(path.push(node), np)], visited.insert(node))
                        } else {
                            (Seq::empty(), visited)
                        }
                    },
                    None => (Seq::empty(), visited),
                }
            },
            None => (Seq::empty(), visited),
        },
        Tile::Empty => spec_expand_empty(m, claimed, demands, path, current, prev, visited, 0),
        Tile::NotOnBoard => (Seq::empty(), visited),
    }
}

/// The breadth-first search over canonical inter-hex edges: pop the head
/// path, succeed if it reaches the goal, otherwise enqueue its admissible
/// extensions and continue. `None` when the queue runs dry.
pub open(crate) spec fn spec_bfs(
    m: GameV,
    player: Player,
    claimed: Set<Node>,
    demands: Seq<DemandEntry>,
    queue: Seq<(Seq<Node>, TilePos)>,
    visited: Set<Node>,
    fuel: nat,
) -> Option<Seq<Node>>
    decreases fuel,
{
    if fuel == 0 || queue.len() == 0 {
        None
    } else {
        let path = queue[0].0;
        let current = queue[0].1;
        let rest = queue.drop_first();
        if path.len() == 0 {
            spec_bfs(m, player, claimed, demands, rest, visited, (fuel - 1) as nat)
        } else {
            let last = path.last();
            let prev = if last.0 == current {
                last.1
            } else {
                last.0
            };
            if spec_goal_reached(m, player, demands, current, prev) {
                Some(path)
            } else {
                let ex = spec_expand(m, claimed, demands, path, current, prev, visited);
                spec_bfs(m, player, claimed, demands, rest + ex.0, ex.1, (fuel - 1) as nat)
            }
        }
    }
}

/// The first steps out of one start boundary slot: a placed start hex
/// forces a single exit, an empty one allows all six (tried from direction
/// index `k` upward).
pub open(crate) spec fn spec_init_empty(
    m: GameV,
    claimed: Set<Node>,
    start_pos: TilePos,
    visited: Set<Node>,
    k: int,
) -> (Seq<(Seq<Node>, TilePos)>, Set<Node>)
    decreases 6 - k,
{
    if k < 0 || k >= 6 {
        (Seq::empty(), visited)
    } else {
        let exit = dir_of_index(k);
        let step = match spec_neighbor(m.board, start_pos, exit) {
            Some(np) => {
                let node = spec_canonical_node(start_pos, np);
                if !claimed.contains(node) && !visited.contains(node) {
                    Some((node, np))
                } else {
                    None
                }
            },
            None => None,
        };
        match step {
            None => spec_init_empty(m, claimed, start_pos, visited, k + 1),
            Some((node, np)) => {
                let rest = spec_init_empty(m, claimed, start_pos, visited.insert(node), k + 1);
                (seq![(seq![node], np)] + rest.0, rest.1)
            },
        }
    }
}

/// The initial queue: every valid first step out of the player's start
/// boundary slots, in slot order from `i` upward.
pub open(crate) spec fn spec_init_queue(
    m: GameV,
    player: Player,
    claimed: Set<Node>,
    i: int,
    visited: Set<Node>,
) -> (Seq<(Seq<Node>, TilePos)>, Set<Node>)
    decreases 7 - i,
{
    if i < 0 || i >= 7 {
        (Seq::empty(), visited)
    } else {
        let start = spec_player_sides(player).0;
        let slot = spec_edge_slot(start, i);
        let start_pos = slot.0;
        let entry_dir = slot.1;
        let here: (Seq<(Seq<Node>, TilePos)>, Set<Node>) = match spec_tile_at(m.board, start_pos) {
            Tile::Placed(t) => {
                let exit = spec_placed_exit(t.type_, t.rotation, entry_dir);
                match spec_neighbor(m.board, start_pos, exit) {
                    Some(np) => {
                        let node = spec_canonical_node(start_pos, np);
                        if !claimed.contains(node) && !visited.contains(node) {
                            (seq![(seq![node], np)], visited.insert(node))
                        } else {
                            (Seq::empty(), visited)
                        }
                    },
                    None => (Seq::empty(), visited),
                }
            },
            Tile::Empty => spec_init_empty(m, claimed, start_pos, visited, 0),
            Tile::NotOnBoard => (Seq::empty(), visited),
        };
        let rest = spec_init_queue(m, player, claimed, i + 1, here.1);
        (here.0 + rest.0, rest.1)
    }
}

/// One player's whole search for a potential path under the given
/// contention: `Some(path)` exactly when the breadth-first search finds
/// one, in its deterministic exploration order.
pub open(crate) spec fn spec_find_path(
    m: GameV,
    player: Player,
    claimed: Set<Node>,
    demands: Seq<DemandEntry>,
) -> Option<Seq<Node>> {
    let init = spec_init_queue(m, player, claimed, 0, Set::empty());
    spec_bfs(m, player, claimed, demands, init.0, init.1, BFS_FUEL as nat)
}

/// The internal demands a committed path adds: wherever the path turns
/// through an empty hex, the entry/exit connection of that hex is
/// demanded. Windows are scanned from index `w` upward.
pub open(crate) spec fn spec_claim_demands(board: Seq<Tile>, path: Seq<Node>, w: int) -> Seq<
    DemandEntry,
>
    decreases path.len() - w,
{
    if w < 0 || w + 1 >= path.len() {
        Seq::empty()
    } else {
        let a = path[w];
        let b = path[w + 1];
        let turn = if a.0 == b.0 || a.0 == b.1 {
            a.0
        } else {
            a.1
        };
        let here: Seq<DemandEntry> = if spec_tile_at(board, turn) is Empty {
            let prev = if a.0 == turn {
                a.1
            } else {
                a.0
            };
            let next = if b.0 == turn {
                b.1
            } else {
                b.0
            };
            match (spec_dir_towards(turn, prev), spec_dir_towards(turn, next)) {
                (Some(entry), Some(exit)) => seq![(turn, spec_norm((entry, exit)))],
                _ => Seq::empty(),
            }
        } else {
            Seq::empty()
        };
        here + spec_claim_demands(board, path, w + 1)
    }
}

/// Check the players in the given order from index `i`: each needs a
/// potential path under the contention accumulated by the earlier ones;
/// the first player without one is returned.
pub open(crate) spec fn spec_check_from(
    m: GameV,
    players: Seq<Player>,
    i: int,
    claimed: Seq<Node>,
    demands: Seq<DemandEntry>,
) -> Option<Player>
    decreases players.len() - i,
{
    if i < 0 || i >= players.len() {
        None
    } else {
        let p = players[i];
        match spec_find_path(m, p, nodes_of(claimed), demands) {
            None => Some(p),
            Some(path) => spec_check_from(
                m,
                players,
                i + 1,
                claimed + path,
                demands + spec_claim_demands(m.board, path, 0),
            ),
        }
    }
}

/// The players in default index order.
pub open spec fn spec_players_seq(n: int) -> Seq<Player> {
    Seq::new(n as nat, |i: int| i as usize)
}

/// The failing player moved to the front, the others keeping their
/// relative order (entries from index `i` upward).
pub open spec fn spec_others(players: Seq<Player>, fp: Player, i: int) -> Seq<Player>
    decreases players.len() - i,
{
    if i < 0 || i >= players.len() {
        Seq::empty()
    } else {
        (if players[i] != fp {
            seq![players[i]]
        } else {
            Seq::empty()
        }) + spec_others(players, fp, i + 1)
    }
}

/// The two-ordering heuristic: check the default order; on failure, retry
/// once with the failing player first. Only a second failure makes the
/// position illegal, blaming the player at which the retry failed.
pub open(crate) spec fn spec_has_distinct(m: GameV) -> Result<(), LegalityError> {
    let players = spec_players_seq(m.settings.num_players as int);
    match spec_check_from(m, players, 0, Seq::empty(), Seq::empty()) {
        None => Ok(()),
        Some(fp) => {
            let reordered = seq![fp] + spec_others(players, fp, 0);
            match spec_check_from(m, reordered, 0, Seq::empty(), Seq::empty()) {
                None => Ok(()),
                Some(q) => Err(LegalityError::BlockedPlayer(q)),
            }
        },
    }
}

/// The full legality answer: a position that already holds a recorded
/// win is always legal; otherwise the two-ordering potential-path search
/// decides, and a rejection names a blocked player.
pub open(crate) spec fn spec_is_move_legal(m: GameV) -> Result<(), LegalityError> {
    if m.outcome is Some {
        Ok(())
    } else {
        spec_has_distinct(m)
    }
}

/// Whether `v` holds the node `n`.
fn contains_node(v: &Vec<Node>, n: Node) -> (b: bool)
    ensures
        b == v@.contains(n),
{
    let mut i: usize = 0;
    while i < v.len()
        invariant
            i <= v@.len(),
            forall|j: int| 0 <= j < i ==> v@[j] != n,
    decreases v@.len() - i,
    {
        let c = v[i];
        if c.0 == n.0 && c.1 == n.1 && c.2 == n.2 {
            proof {
                assert(v@[i as int] == n);
            }
            return true;
        }
        i = i + 1;
    }
    false
}

/// Normalise a connection to smaller direction first.
fn norm_connection(c: Connection) -> (r: Connection)
    ensures
        r == spec_norm(c),
{
    if c.0.as_index() > c.1.as_index() {
        (c.1, c.0)
    } else {
        c
    }
}

/// Checks whether a set of required connections within a single hex can
/// all be fulfilled by one tile: brute-force over the 24 configurations
/// (4 shapes times 6 rotations), testing subset containment.
pub fn is_satisfiable(demands: &Vec<Connection>) -> (b: bool)
    ensures
        b == spec_satisfiable(conns_of(demands@)),
{
    let mut ti: usize = 0;
    while ti < 4
        invariant
            ti <= 4,
            forall|t: TileType, r: Rotation|
                rotation_valid(r) && spec_num_sharps(t) < ti ==> !conns_of(
                    demands@,
                ).subset_of(#[trigger] spec_conn_set(t, r)),
        decreases 4 - ti,
    {
        let t = TileType::from_num_sharps(ti);
        let mut ri: u8 = 0;
        while ri < 6
            invariant
                ti < 4,
                ri <= 6,
                spec_num_sharps(t) == ti,
                forall|r: Rotation|
                    r.0 < ri ==> !conns_of(demands@).subset_of(#[trigger] spec_conn_set(t, r)),
            decreases 6 - ri,
        {
            let rot = Rotation(ri);
            let placed = PlacedTile::new(t, rot);
            let flows = placed.all_flows();
            let c0 = norm_connection(flows[0]);
            let c1 = norm_connection(flows[1]);
            let c2 = norm_connection(flows[2]);
            let mut all_in: bool = true;
            let mut di: usize = 0;
            while di < demands.len()
                invariant
                    di <= demands@.len(),
                    c0 == spec_norm(spec_placed_flows(t, rot)[0]),
                    c1 == spec_norm(spec_placed_flows(t, rot)[1]),
                    c2 == spec_norm(spec_placed_flows(t, rot)[2]),
                    all_in == forall|j: int|
                        0 <= j < di ==> spec_conn_set(t, rot).contains(#[trigger] demands@[j]),
                decreases demands@.len() - di,
            {
                let d = demands[di];
                let hit = (d.0 == c0.0 && d.1 == c0.1) || (d.0 == c1.0 && d.1 == c1.1) || (d.0
                    == c2.0 && d.1 == c2.1);
                proof {
                    assert(hit == spec_conn_set(t, rot).contains(demands@[di as int]));
                }
                all_in = all_in && hit;
                di = di + 1;
            }
            if all_in {
                proof {
                    assert(conns_of(demands@).subset_of(spec_conn_set(t, rot)));
                }
                return true;
            }
            ri = ri + 1;
        }
        ti = ti + 1;
    }
    proof {
        assert forall|t: TileType, r: Rotation| rotation_valid(r) implies !conns_of(
            demands@,
        ).subset_of(#[trigger] spec_conn_set(t, r)) by {
            assert(spec_num_sharps(t) < 4);
        }
    }
    false
}

/// The connections already demanded at `pos`, gathered into one list.
fn demands_for(ds: &Vec<DemandEntry>, pos: TilePos) -> (r: Vec<Connection>)
    ensures
        conns_of(r@) == demands_at(ds@, pos),
{
    let mut r: Vec<Connection> = Vec::new();
    let mut i: usize = 0;
    while i < ds.len()
        invariant
            i <= ds@.len(),
            forall|j: int| 0 <= j < i && ds@[j].0 == pos ==> r@.contains(ds@[j].1),
            forall|k: int| 0 <= k < r@.len() ==> ds@.contains((pos, #[trigger] r@[k])),
        decreases ds@.len() - i,
    {
        let e = ds[i];
        if e.0 == pos {
            let ghost old_r = r@;
            r.push(e.1);
            proof {
                assert(ds@[i as int] == (pos, e.1));
                assert(r@[r@.len() - 1] == e.1);
                assert forall|j: int| 0 <= j < i && ds@[j].0 == pos implies r@.contains(
                    ds@[j].1,
                ) by {
                    let k = choose|k: int| 0 <= k < old_r.len() && old_r[k] == ds@[j].1;
                    assert(r@[k] == ds@[j].1);
                }
            }
        }
        i = i + 1;
    }
    proof {
        assert forall|c: Connection| demands_at(ds@, pos).contains(c) implies conns_of(
            r@,
        ).contains(c) by {
            let j = choose|j: int| 0 <= j < ds@.len() && ds@[j] == (pos, c);
            assert(ds@[j].0 == pos && ds@[j].1 == c);
        }
        assert(conns_of(r@) =~= demands_at(ds@, pos));
    }
    r
}

/// Whether the demands at `pos` plus the normalised new demand `nd` are
/// still satisfiable by one tile.
fn demand_satisfiable(ds: &Vec<DemandEntry>, pos: TilePos, nd: Connection) -> (b: bool)
    ensures
        b == spec_demand_ok(ds@, pos, nd),
{
    let mut all = demands_for(ds, pos);
    let ghost base = all@;
    all.push(nd);
    proof {
        assert forall|c: Connection| #[trigger] conns_of(all@).contains(c) implies demands_at(
            ds@,
            pos,
        ).insert(nd).contains(c) by {
            let k = choose|k: int| 0 <= k < all@.len() && all@[k] == c;
            if k < base.len() {
                assert(base[k] == c);
                assert(conns_of(base).contains(c));
            } else {
                assert(c == nd);
            }
        }
        assert forall|c: Connection| demands_at(ds@, pos).insert(nd).contains(c) implies conns_of(
            all@,
        ).contains(c) by {
            if c == nd {
                assert(all@[all@.len() - 1] == c);
            } else {
                assert(conns_of(base).contains(c));
                let k = choose|k: int| 0 <= k < base.len() && base[k] == c;
                assert(all@[k] == c);
            }
        }
        assert(conns_of(all@) =~= demands_at(ds@, pos).insert(nd));
    }
    is_satisfiable(&all)
}

/// The canonical spelling of the inter-hex edge between two adjacent
/// hexes; claiming it in one direction blocks reuse in both.
pub fn canonical_node(pos1: TilePos, pos2: TilePos, game: &Game) -> (n: Node)
    requires
        pos1.near(),
        pos2.near(),
        spec_dir_towards(pos1, pos2) is Some,
    ensures
        n == spec_canonical_node(pos1, pos2),
{
    let dir = match game.get_direction_towards(pos1, pos2) {
        Some(d) => d,
        None => Direction::SouthWest,
    };
    let smaller_first = pos1.row < pos2.row || (pos1.row == pos2.row && pos1.col < pos2.col);
    if smaller_first {
        (pos1, pos2, dir)
    } else {
        (pos2, pos1, dir.reversed())
    }
}

/// The start and goal sides of a player.
pub fn get_player_sides(player: Player) -> (r: (Rotation, Rotation))
    requires
        player < 3,
    ensures
        r == spec_player_sides(player),
        rotation_valid(r.0),
        rotation_valid(r.1),
{
    if player == 0 {
        (Rotation(0), Rotation(3))
    } else if player == 1 {
        (Rotation(2), Rotation(5))
    } else {
        (Rotation(4), Rotation(1))
    }
}


/// Paths and queue entries only ever hold on-grid hexes.
pub open spec fn path_ok(p: Seq<Node>) -> bool {
    forall|j: int| 0 <= j < p.len() ==> on_grid((#[trigger] p[j]).0) && on_grid(p[j].1)
}

pub open(crate) spec fn queue_ok(q: Seq<(Vec<Node>, TilePos)>) -> bool {
    forall|i: int|
        0 <= i < q.len() ==> on_grid((#[trigger] q[i]).1) && path_ok(q[i].0@) && q[i].0@.len() > 0
}

/// The mathematical value of an executable queue.
pub open(crate) spec fn queue_model(q: Seq<(Vec<Node>, TilePos)>) -> Seq<(Seq<Node>, TilePos)> {
    q.map_values(|e: (Vec<Node>, TilePos)| (e.0@, e.1))
}

/// The mathematical value of an optional executable path.
pub open(crate) spec fn path_opt_model(r: Option<Vec<Node>>) -> Option<Seq<Node>> {
    match r {
        None => None,
        Some(v) => Some(v@),
    }
}

/// An on-grid position is always near enough for neighbour arithmetic.
proof fn lemma_on_grid_near(p: TilePos)
    requires
        on_grid(p),
    ensures
        p.near(),
{
}

/// The neighbour of `p` in direction `d` lies back towards `d` from `p`.
proof fn lemma_towards_neighbor(p: TilePos, d: Direction)
    requires
        p.near(),
    ensures
        spec_dir_towards(p, spec_pos_plus(p, spec_dir_vec(d))) == Some(d),
{
}

/// A neighbour the board hands out is on the grid, given off-grid reads
/// come back off-board.
proof fn lemma_neighbor_on_grid(m: GameV, p: TilePos, d: Direction)
    requires
        board_edge_ok(m),
        spec_neighbor(m.board, p, d) is Some,
    ensures
        on_grid(spec_neighbor(m.board, p, d)->0),
{
}

/// Every boundary slot position is near the board.
pub proof fn lemma_edge_slot_near_pub(rot: Rotation, i: int)
    requires
        rotation_valid(rot),
        0 <= i < 7,
    ensures
        spec_edge_slot(rot, i).0.near(),
{
    lemma_edge_slot_near(rot, i);
}

/// Every boundary slot position is near the board.
proof fn lemma_edge_slot_near(rot: Rotation, i: int)
    requires
        rotation_valid(rot),
        0 <= i < 7,
    ensures
        spec_edge_slot(rot, i).0.near(),
{
    assert(spec_base_slots()[i] == edges_template(i));
}

/// Copy a path so it can be extended without giving up the original.
fn copy_nodes(v: &Vec<Node>) -> (r: Vec<Node>)
    ensures
        r@ == v@,
{
    let mut r: Vec<Node> = Vec::new();
    let mut i: usize = 0;
    while i < v.len()
        invariant
            i <= v@.len(),
            r@ == v@.subrange(0, i as int),
        decreases v@.len() - i,
    {
        r.push(v[i]);
        proof {
            assert(r@ =~= v@.subrange(0, i + 1));
        }
        i = i + 1;
    }
    proof {
        assert(r@ =~= v@);
    }
    r
}

/// Whether the head path has completed at the goal side.
#[verifier::rlimit(30)]
fn check_goal(
    game: &Game,
    player: Player,
    demands: &Vec<DemandEntry>,
    goal_edges: &Vec<(TilePos, Direction)>,
    current: TilePos,
    prev: TilePos,
) -> (b: bool)
    requires
        game.wf(),
        player < 3,
        current.near(),
        prev.near(),
        goal_edges@ =~= spec_edges(spec_player_sides(player).1),
    ensures
        b == spec_goal_reached(game.model(), player, demands@, current, prev),
{
    let ghost goal = spec_player_sides(player).1;
    let mut is_goal_hex: bool = false;
    let mut i: usize = 0;
    while i < 7
        invariant
            i <= 7,
            goal_edges@ =~= spec_edges(goal),
            is_goal_hex == exists|j: int|
                0 <= j < i && (#[trigger] spec_edge_slot(goal, j)).0 == current,
        decreases 7 - i,
    {
        let (pos, _) = goal_edges[i];
        if pos.row == current.row && pos.col == current.col {
            is_goal_hex = true;
            proof {
                assert(spec_edge_slot(goal, i as int).0 == current);
            }
        }
        i = i + 1;
    }
    if !is_goal_hex {
        return false;
    }

    let entry = match game.get_direction_towards(current, prev) {
        Some(d) => d,
        None => {
            return false;
        },
    };

    match *game.tile(current) {
        Tile::Placed(t) => {
            proof {
                assert(crate::game::tile_wf(spec_tile_at(game.model().board, current)));
            }
            let exit = t.exit_from_entrance(entry);
            let mut found: bool = false;
            let mut i: usize = 0;
            while i < 7
                invariant
                    i <= 7,
                    goal_edges@ =~= spec_edges(goal),
                    goal == spec_player_sides(player).1,
                    spec_dir_towards(current, prev) == Some(entry),
                    spec_tile_at(game.model().board, current) == Tile::Placed(t),
                    exit == spec_placed_exit(t.spec_type(), t.spec_rotation(), entry),
                    exists|j: int| 0 <= j < 7 && (#[trigger] spec_edge_slot(goal, j)).0 == current,
                    found == exists|j: int|
                        0 <= j < i && #[trigger] spec_edge_slot(goal, j) == (current, exit),
                decreases 7 - i,
            {
                let (pos, dir) = goal_edges[i];
                if pos.row == current.row && pos.col == current.col && dir.as_index()
                    == exit.as_index() {
                    found = true;
                    proof {
                        assert(spec_edge_slot(goal, i as int) == (current, exit));
                    }
                }
                i = i + 1;
            }
            found
        },
        Tile::Empty => {
            let mut i: usize = 0;
            while i < 7
                invariant
                    i <= 7,
                    game.wf(),
                    player < 3,
                    current.near(),
                    prev.near(),
                    goal_edges@ =~= spec_edges(goal),
                    goal == spec_player_sides(player).1,
                    spec_dir_towards(current, prev) == Some(entry),
                    spec_tile_at(game.model().board, current) is Empty,
                    exists|j: int| 0 <= j < 7 && (#[trigger] spec_edge_slot(goal, j)).0 == current,
                    forall|j: int|
                        0 <= j < i ==> !((#[trigger] spec_edge_slot(goal, j)).0 == current
                            && spec_demand_ok(
                            demands@,
                            current,
                            spec_norm((entry, spec_edge_slot(goal, j).1)),
                        )),
                decreases 7 - i,
            {
                let (pos, dir) = goal_edges[i];
                if pos.row == current.row && pos.col == current.col {
                    let nd = norm_connection((entry, dir));
                    if demand_satisfiable(demands, current, nd) {
                        proof {
                            assert(spec_edge_slot(goal, i as int).0 == current);
                            assert(spec_edge_slot(goal, i as int).1 == dir);
                            assert(spec_demand_ok(
                                demands@,
                                current,
                                spec_norm((entry, spec_edge_slot(goal, i as int).1)),
                            ));
                            assert(exists|j: int|
                                0 <= j < 7 && (#[trigger] spec_edge_slot(goal, j)).0 == current
                                    && spec_demand_ok(
                                    demands@,
                                    current,
                                    spec_norm((entry, spec_edge_slot(goal, j).1)),
                                ));
                            assert(spec_goal_reached(game.model(), player, demands@, current, prev));
                        }
                        return true;
                    }
                }
                i = i + 1;
            }
            false
        },
        Tile::NotOnBoard => false,
    }
}

/// Enqueue the admissible steps out of an empty hex, trying the six exit
/// directions from index `k` upward.
fn expand_empty(
    game: &Game,
    claimed: &Vec<Node>,
    demands: &Vec<DemandEntry>,
    path: &Vec<Node>,
    current: TilePos,
    prev: TilePos,
    queue: &mut Vec<(Vec<Node>, TilePos)>,
    visited: &mut Vec<Node>,
    k: u8,
)
    requires
        game.wf(),
        board_edge_ok(game.model()),
        on_grid(current),
        on_grid(prev),
        path_ok(path@),
        path@.len() > 0,
        queue_ok(old(queue)@),
        k <= 6,
    ensures
        ({
            let ex = spec_expand_empty(
                game.model(),
                nodes_of(claimed@),
                demands@,
                path@,
                current,
                prev,
                nodes_of(old(visited)@),
                k as int,
            );
            queue_model(final(queue)@) == queue_model(old(queue)@) + ex.0 && nodes_of(
                final(visited)@,
            ) == ex.1
        }),
        queue_ok(final(queue)@),
    decreases 6 - k,
{
    if k >= 6 {
        proof {
            assert(queue_model(queue@) =~= queue_model(queue@) + Seq::empty());
        }
        return ;
    }
    let exit = Direction::from_rotation(Rotation(k));
    proof {
        lemma_on_grid_near(current);
        lemma_on_grid_near(prev);
    }
    match game.get_neighbor_pos(current, exit) {
        Some(np) => {
            proof {
                lemma_neighbor_on_grid(game.model(), current, exit);
                lemma_towards_neighbor(current, exit);
            }
            if !(np.row == prev.row && np.col == prev.col) {
                let node = canonical_node(current, np, game);
                if !contains_node(visited, node) && !contains_node(claimed, node) {
                    match game.get_direction_towards(current, prev) {
                        Some(entry) => {
                            let nd = norm_connection((entry, exit));
                            if demand_satisfiable(demands, current, nd) {
                                let mut new_path = copy_nodes(path);
                                new_path.push(node);
                                let ghost qm0 = queue_model(queue@);
                                let ghost v0 = nodes_of(visited@);
                                let ghost ov = visited@;
                                queue.push((new_path, np));
                                visited.push(node);
                                proof {
                                    assert(queue_model(queue@) =~= qm0 + seq![
                                        (path@.push(node), np),
                                    ]);
                                    assert forall|n: Node| #[trigger]
                                        nodes_of(visited@).contains(n) implies v0.insert(
                                        node,
                                    ).contains(n) by {
                                        let j = choose|j: int|
                                            0 <= j < visited@.len() && visited@[j] == n;
                                        if j < ov.len() {
                                            assert(ov[j] == n);
                                        } else {
                                            assert(n == node);
                                        }
                                    }
                                    assert forall|n: Node| v0.insert(node).contains(
                                        n,
                                    ) implies #[trigger] nodes_of(visited@).contains(n) by {
                                        if n == node {
                                            assert(visited@[visited@.len() - 1] == n);
                                        } else {
                                            assert(v0.contains(n));
                                            let j = choose|j: int|
                                                0 <= j < ov.len() && ov[j] == n;
                                            assert(visited@[j] == n);
                                        }
                                    }
                                    assert(nodes_of(visited@) =~= v0.insert(node));
                                }
                            }
                        },
                        None => {},
                    }
                }
            }
        },
        None => {},
    }
    expand_empty(game, claimed, demands, path, current, prev, queue, visited, k + 1);
    proof {
        assert(queue_model(queue@) =~= queue_model(old(queue)@) + spec_expand_empty(
            game.model(),
            nodes_of(claimed@),
            demands@,
            path@,
            current,
            prev,
            nodes_of(old(visited)@),
            k as int,
        ).0);
    }
}



/// Append one extended path to the queue and mark its new node visited.
fn push_step(
    queue: &mut Vec<(Vec<Node>, TilePos)>,
    visited: &mut Vec<Node>,
    path: &Vec<Node>,
    node: Node,
    np: TilePos,
)
    requires
        queue_ok(old(queue)@),
        path_ok(path@),
        path@.len() > 0,
        on_grid(np),
        on_grid(node.0),
        on_grid(node.1),
    ensures
        queue_model(final(queue)@) == queue_model(old(queue)@) + seq![(path@.push(node), np)],
        nodes_of(final(visited)@) == nodes_of(old(visited)@).insert(node),
        queue_ok(final(queue)@),
{
    let mut new_path = copy_nodes(path);
    new_path.push(node);
    let ghost qm0 = queue_model(queue@);
    let ghost v0 = nodes_of(visited@);
    let ghost ov = visited@;
    queue.push((new_path, np));
    visited.push(node);
    proof {
        assert(queue_model(queue@) =~= qm0 + seq![(path@.push(node), np)]);
        assert forall|n: Node| #[trigger] nodes_of(visited@).contains(n) implies v0.insert(
            node,
        ).contains(n) by {
            let j = choose|j: int| 0 <= j < visited@.len() && visited@[j] == n;
            if j < ov.len() {
                assert(ov[j] == n);
            } else {
                assert(n == node);
            }
        }
        assert forall|n: Node| v0.insert(node).contains(n) implies #[trigger] nodes_of(
            visited@,
        ).contains(n) by {
            if n == node {
                assert(visited@[visited@.len() - 1] == n);
            } else {
                assert(v0.contains(n));
                let j = choose|j: int| 0 <= j < ov.len() && ov[j] == n;
                assert(visited@[j] == n);
            }
        }
        assert(nodes_of(visited@) =~= v0.insert(node));
    }
}

/// The breadth-first search loop, bounded by generous fuel.
#[verifier::rlimit(50)]
fn bfs_run(
    game: &Game,
    player: Player,
    claimed: &Vec<Node>,
    demands: &Vec<DemandEntry>,
    queue: Vec<(Vec<Node>, TilePos)>,
    visited: Vec<Node>,
    goal_edges: &Vec<(TilePos, Direction)>,
    fuel: u32,
) -> (r: Option<Vec<Node>>)
    requires
        game.wf(),
        board_edge_ok(game.model()),
        player < 3,
        goal_edges@ =~= spec_edges(spec_player_sides(player).1),
        queue_ok(queue@),
    ensures
        path_opt_model(r) == spec_bfs(
            game.model(),
            player,
            nodes_of(claimed@),
            demands@,
            queue_model(queue@),
            nodes_of(visited@),
            fuel as nat,
        ),
        r matches Some(v) ==> path_ok(v@) && v@.len() > 0,
    decreases fuel,
{
    if fuel == 0 {
        return None;
    }
    if queue.len() == 0 {
        proof {
            assert(queue_model(queue@).len() == 0);
        }
        return None;
    }
    let ghost q0 = queue_model(queue@);
    let ghost qv0 = queue@;
    let ghost v0 = nodes_of(visited@);
    let mut queue = queue;
    let (path, current) = queue.remove(0);
    proof {
        assert(queue@ =~= qv0.drop_first());
        assert(q0[0] == (path@, current));
        assert(queue_model(queue@) =~= q0.drop_first());
        assert forall|i: int| 0 <= i < queue@.len() implies on_grid(
            (#[trigger] queue@[i]).1,
        ) && path_ok(queue@[i].0@) && queue@[i].0@.len() > 0 by {
            assert(queue@[i] == qv0[i + 1]);
        }
        assert(path@.len() > 0);
    }
    let last = path[path.len() - 1];
    let prev = if last.0.row == current.row && last.0.col == current.col {
        last.1
    } else {
        last.0
    };
    proof {
        let sl = q0[0].0.last();
        assert(prev == if sl.0 == current {
            sl.1
        } else {
            sl.0
        });
        assert(on_grid(prev));
        lemma_on_grid_near(current);
        lemma_on_grid_near(prev);
    }
    if check_goal(game, player, demands, goal_edges, current, prev) {
        return Some(path);
    }

    let ghost q_rest = queue_model(queue@);
    let mut visited = visited;
    match *game.tile(current) {
        Tile::Placed(t) => {
            proof {
                assert(crate::game::tile_wf(spec_tile_at(game.model().board, current)));
            }
            match game.get_direction_towards(current, prev) {
                Some(entry) => {
                    let exit = t.exit_from_entrance(entry);
                    match game.get_neighbor_pos(current, exit) {
                        Some(np) => {
                            proof {
                                lemma_neighbor_on_grid(game.model(), current, exit);
                                lemma_towards_neighbor(current, exit);
                            }
                            let node = canonical_node(current, np, game);
                            if !contains_node(&visited, node) && !contains_node(claimed, node) {
                                push_step(&mut queue, &mut visited, &path, node, np);
                            } else {
                                proof {
                                    assert(queue_model(queue@) =~= q_rest + Seq::empty());
                                }
                            }
                        },
                        None => {
                            proof {
                                assert(queue_model(queue@) =~= q_rest + Seq::empty());
                            }
                        },
                    }
                },
                None => {
                    proof {
                        assert(queue_model(queue@) =~= q_rest + Seq::empty());
                    }
                },
            }
        },
        Tile::Empty => {
            expand_empty(game, claimed, demands, &path, current, prev, &mut queue, &mut visited, 0);
        },
        Tile::NotOnBoard => {
            proof {
                assert(queue_model(queue@) =~= q_rest + Seq::empty());
            }
        },
    }
    proof {
        let ex = spec_expand(
            game.model(),
            nodes_of(claimed@),
            demands@,
            path@,
            current,
            prev,
            v0,
        );
        assert(queue_model(queue@) == q_rest + ex.0);
        assert(nodes_of(visited@) == ex.1);
    }
        bfs_run(game, player, claimed, demands, queue, visited, goal_edges, fuel - 1)
}



/// Enqueue the first steps out of one empty start hex, trying the six
/// exit directions from index `k` upward.
fn init_empty_steps(
    game: &Game,
    claimed: &Vec<Node>,
    start_pos: TilePos,
    queue: &mut Vec<(Vec<Node>, TilePos)>,
    visited: &mut Vec<Node>,
    k: u8,
)
    requires
        game.wf(),
        board_edge_ok(game.model()),
        on_grid(start_pos),
        queue_ok(old(queue)@),
        k <= 6,
    ensures
        ({
            let init = spec_init_empty(
                game.model(),
                nodes_of(claimed@),
                start_pos,
                nodes_of(old(visited)@),
                k as int,
            );
            queue_model(final(queue)@) == queue_model(old(queue)@) + init.0 && nodes_of(
                final(visited)@,
            ) == init.1
        }),
        queue_ok(final(queue)@),
    decreases 6 - k,
{
    if k >= 6 {
        proof {
            assert(queue_model(queue@) =~= queue_model(queue@) + Seq::empty());
        }
        return ;
    }
    let exit = Direction::from_rotation(Rotation(k));
    proof {
        lemma_on_grid_near(start_pos);
    }
    match game.get_neighbor_pos(start_pos, exit) {
        Some(np) => {
            proof {
                lemma_neighbor_on_grid(game.model(), start_pos, exit);
                lemma_towards_neighbor(start_pos, exit);
            }
            let node = canonical_node(start_pos, np, game);
            if !contains_node(claimed, node) && !contains_node(visited, node) {
                push_single(queue, visited, node, np);
            }
        },
        None => {},
    }
    init_empty_steps(game, claimed, start_pos, queue, visited, k + 1);
    proof {
        assert(queue_model(queue@) =~= queue_model(old(queue)@) + spec_init_empty(
            game.model(),
            nodes_of(claimed@),
            start_pos,
            nodes_of(old(visited)@),
            k as int,
        ).0);
    }
}

/// Append a fresh single-node path to the queue and mark its node visited.
fn push_single(
    queue: &mut Vec<(Vec<Node>, TilePos)>,
    visited: &mut Vec<Node>,
    node: Node,
    np: TilePos,
)
    requires
        queue_ok(old(queue)@),
        on_grid(np),
        on_grid(node.0),
        on_grid(node.1),
    ensures
        queue_model(final(queue)@) == queue_model(old(queue)@) + seq![(seq![node], np)],
        nodes_of(final(visited)@) == nodes_of(old(visited)@).insert(node),
        queue_ok(final(queue)@),
{
    let mut single: Vec<Node> = Vec::new();
    single.push(node);
    let ghost qm0 = queue_model(queue@);
    let ghost v0 = nodes_of(visited@);
    let ghost ov = visited@;
    queue.push((single, np));
    visited.push(node);
    proof {
        assert(queue_model(queue@) =~= qm0 + seq![(seq![node], np)]);
        assert forall|n: Node| #[trigger] nodes_of(visited@).contains(n) implies v0.insert(
            node,
        ).contains(n) by {
            let j = choose|j: int| 0 <= j < visited@.len() && visited@[j] == n;
            if j < ov.len() {
                assert(ov[j] == n);
            } else {
                assert(n == node);
            }
        }
        assert forall|n: Node| v0.insert(node).contains(n) implies #[trigger] nodes_of(
            visited@,
        ).contains(n) by {
            if n == node {
                assert(visited@[visited@.len() - 1] == n);
            } else {
                assert(v0.contains(n));
                let j = choose|j: int| 0 <= j < ov.len() && ov[j] == n;
                assert(visited@[j] == n);
            }
        }
        assert(nodes_of(visited@) =~= v0.insert(node));
    }
}

/// Build the initial queue from the player's start boundary slots, from
/// slot `i` upward.
fn build_init_queue(
    game: &Game,
    player: Player,
    claimed: &Vec<Node>,
    start_edges: &Vec<(TilePos, Direction)>,
    queue: &mut Vec<(Vec<Node>, TilePos)>,
    visited: &mut Vec<Node>,
    i: u8,
)
    requires
        game.wf(),
        board_edge_ok(game.model()),
        player < 3,
        start_edges@ =~= spec_edges(spec_player_sides(player).0),
        queue_ok(old(queue)@),
        i <= 7,
    ensures
        ({
            let init = spec_init_queue(
                game.model(),
                player,
                nodes_of(claimed@),
                i as int,
                nodes_of(old(visited)@),
            );
            queue_model(final(queue)@) == queue_model(old(queue)@) + init.0 && nodes_of(
                final(visited)@,
            ) == init.1
        }),
        queue_ok(final(queue)@),
    decreases 7 - i,
{
    if i >= 7 {
        proof {
            assert(queue_model(queue@) =~= queue_model(queue@) + Seq::empty());
        }
        return ;
    }
    let (start_pos, border_dir) = start_edges[i as usize];
    proof {
        lemma_edge_slot_near(spec_player_sides(player).0, i as int);
    }
    let entry_dir = border_dir;
    match *game.tile(start_pos) {
        Tile::Placed(t) => {
            proof {
                assert(crate::game::tile_wf(spec_tile_at(game.model().board, start_pos)));
                assert(on_grid(start_pos));
            }
            let exit = t.exit_from_entrance(entry_dir);
            match game.get_neighbor_pos(start_pos, exit) {
                Some(np) => {
                    proof {
                        lemma_neighbor_on_grid(game.model(), start_pos, exit);
                        lemma_towards_neighbor(start_pos, exit);
                    }
                    let node = canonical_node(start_pos, np, game);
                    if !contains_node(claimed, node) && !contains_node(visited, node) {
                        push_single(queue, visited, node, np);
                    }
                },
                None => {},
            }
        },
        Tile::Empty => {
            proof {
                assert(on_grid(start_pos));
            }
            init_empty_steps(game, claimed, start_pos, queue, visited, 0);
        },
        Tile::NotOnBoard => {},
    }
    build_init_queue(game, player, claimed, start_edges, queue, visited, i + 1);
    proof {
        assert(queue_model(queue@) =~= queue_model(old(queue)@) + spec_init_queue(
            game.model(),
            player,
            nodes_of(claimed@),
            i as int,
            nodes_of(old(visited)@),
        ).0);
    }
}

/// One player's breadth-first search for a potential path from their
/// start side to their goal side, honouring claimed edges and recorded
/// internal demands. Returns the found path's canonical edges in order.
pub fn find_potential_path_for_team(
    player: Player,
    game: &Game,
    claimed: &Vec<Node>,
    demands: &Vec<DemandEntry>,
) -> (r: Option<Vec<Node>>)
    requires
        game.wf(),
        board_edge_ok(game.model()),
        player < 3,
    ensures
        path_opt_model(r) == spec_find_path(game.model(), player, nodes_of(claimed@), demands@),
        r matches Some(v) ==> path_ok(v@),
{
    let (start_side, goal_side) = get_player_sides(player);
    let start_edges = game.edges_on_board_edge(start_side);
    let goal_edges = game.edges_on_board_edge(goal_side);
    let mut queue: Vec<(Vec<Node>, TilePos)> = Vec::new();
    let mut visited: Vec<Node> = Vec::new();
    proof {
        assert(nodes_of(visited@) =~= Set::<Node>::empty());
    }
    build_init_queue(game, player, claimed, &start_edges, &mut queue, &mut visited, 0);
    proof {
        let init = spec_init_queue(
            game.model(),
            player,
            nodes_of(claimed@),
            0,
            Set::empty(),
        );
        assert(queue_model(queue@) =~= init.0);
    }
    bfs_run(game, player, claimed, demands, queue, visited, &goal_edges, BFS_FUEL)
}

/// Claim the resources a committed path uses: all its inter-hex edges,
/// and the internal connection of every empty hex it turns through.
pub fn claim_resources_for_path(
    path: &Vec<Node>,
    claimed: &mut Vec<Node>,
    demands: &mut Vec<DemandEntry>,
    game: &Game,
)
    requires
        game.wf(),
        path_ok(path@),
    ensures
        final(claimed)@ == old(claimed)@ + path@,
        final(demands)@ == old(demands)@ + spec_claim_demands(game.model().board, path@, 0),
{
    let mut i: usize = 0;
    while i < path.len()
        invariant
            i <= path@.len(),
            claimed@ == old(claimed)@ + path@.subrange(0, i as int),
        decreases path@.len() - i,
    {
        claimed.push(path[i]);
        proof {
            assert(claimed@ =~= old(claimed)@ + path@.subrange(0, i + 1));
        }
        i = i + 1;
    }
    proof {
        assert(path@.subrange(0, path@.len() as int) =~= path@);
    }

    let ghost d0 = demands@;
    let ghost board = game.model().board;
    if path.len() < 2 {
        proof {
            assert(demands@ =~= d0 + spec_claim_demands(board, path@, 0));
        }
        return ;
    }
    let mut w: usize = 0;
    while w < path.len() - 1
        invariant
            game.wf(),
            path_ok(path@),
            board == game.model().board,
            path@.len() >= 2,
            w <= path@.len() - 1,
            d0 + spec_claim_demands(board, path@, 0) == demands@ + spec_claim_demands(
                board,
                path@,
                w as int,
            ),
        decreases path@.len() - w,
    {
        let a = path[w];
        let b = path[w + 1];
        let turn = if (a.0.row == b.0.row && a.0.col == b.0.col) || (a.0.row == b.1.row && a.0.col
            == b.1.col) {
            a.0
        } else {
            a.1
        };
        let ghost dw = demands@;
        if matches!(*game.tile(turn), Tile::Empty) {
            let prev_hex = if a.0.row == turn.row && a.0.col == turn.col {
                a.1
            } else {
                a.0
            };
            let next_hex = if b.0.row == turn.row && b.0.col == turn.col {
                b.1
            } else {
                b.0
            };
            proof {
                lemma_on_grid_near(turn);
                lemma_on_grid_near(prev_hex);
                lemma_on_grid_near(next_hex);
            }
            match (
                game.get_direction_towards(turn, prev_hex),
                game.get_direction_towards(turn, next_hex),
            ) {
                (Some(entry), Some(exit_dir)) => {
                    let conn = norm_connection((entry, exit_dir));
                    demands.push((turn, conn));
                    proof {
                        assert(demands@ =~= dw + seq![(turn, conn)]);
                    }
                },
                _ => {
                    proof {
                        assert(demands@ =~= dw + Seq::<DemandEntry>::empty());
                    }
                },
            }
        } else {
            proof {
                assert(demands@ =~= dw + Seq::<DemandEntry>::empty());
            }
        }
        proof {
            let here = spec_claim_demands(board, path@, w as int).subrange(
                0,
                spec_claim_demands(board, path@, w as int).len() - spec_claim_demands(
                    board,
                    path@,
                    w as int + 1,
                ).len(),
            );
            assert(dw + spec_claim_demands(board, path@, w as int) =~= demands@
                + spec_claim_demands(board, path@, w as int + 1));
            assert(d0 + spec_claim_demands(board, path@, 0) =~= demands@ + spec_claim_demands(
                board,
                path@,
                w as int + 1,
            ));
        }
        w = w + 1;
    }
    proof {
        assert(demands@ =~= d0 + spec_claim_demands(board, path@, 0));
    }
}

/// Check the players in the given order from index `i`, accumulating the
/// claimed resources of each found path.
fn check_from(
    game: &Game,
    ordered: &Vec<Player>,
    i: usize,
    claimed: Vec<Node>,
    demands: Vec<DemandEntry>,
) -> (r: Option<Player>)
    requires
        game.wf(),
        board_edge_ok(game.model()),
        i <= ordered@.len(),
        forall|j: int| 0 <= j < ordered@.len() ==> #[trigger] ordered@[j] < 3,
    ensures
        r == spec_check_from(game.model(), ordered@, i as int, claimed@, demands@),
    decreases ordered@.len() - i,
{
    if i >= ordered.len() {
        return None;
    }
    let p = ordered[i];
    match find_potential_path_for_team(p, game, &claimed, &demands) {
        None => Some(p),
        Some(path) => {
            let mut claimed = claimed;
            let mut demands = demands;
            claim_resources_for_path(&path, &mut claimed, &mut demands, game);
            check_from(game, ordered, i + 1, claimed, demands)
        },
    }
}

/// Check every player in the given order: each needs one potential path
/// under the contention accumulated by the players before them. Returns
/// the first player left without one.
pub fn check_paths_for_ordering(ordered_players: &Vec<Player>, game: &Game) -> (r: Option<Player>)
    requires
        game.wf(),
        board_edge_ok(game.model()),
        forall|j: int| 0 <= j < ordered_players@.len() ==> #[trigger] ordered_players@[j] < 3,
    ensures
        r == spec_check_from(
            game.model(),
            ordered_players@,
            0,
            Seq::empty(),
            Seq::empty(),
        ),
{
    let claimed: Vec<Node> = Vec::new();
    let demands: Vec<DemandEntry> = Vec::new();
    check_from(game, ordered_players, 0, claimed, demands)
}


/// A failing player reported by the ordering check is one of the checked
/// players.
proof fn lemma_check_from_member(
    m: GameV,
    players: Seq<Player>,
    i: int,
    claimed: Seq<Node>,
    demands: Seq<DemandEntry>,
)
    requires
        spec_check_from(m, players, i, claimed, demands) is Some,
    ensures
        players.contains(spec_check_from(m, players, i, claimed, demands)->0),
    decreases players.len() - i,
{
    if i < 0 || i >= players.len() {
    } else {
        if spec_find_path(m, players[i], nodes_of(claimed), demands) is None {
            assert(players[i] == spec_check_from(m, players, i, claimed, demands)->0);
        } else {
            let path = spec_find_path(m, players[i], nodes_of(claimed), demands)->0;
            lemma_check_from_member(
                m,
                players,
                i + 1,
                claimed + path,
                demands + spec_claim_demands(m.board, path, 0),
            );
        }
    }
}

/// The two-ordering heuristic over all seated players: check the default
/// order; if some player fails, retry once with that player first. Only a
/// second failure makes the position illegal.
#[verifier::rlimit(60)]
pub fn has_distinct_potential_paths(game: &Game) -> (r: Result<(), LegalityError>)
    requires
        game.wf(),
        board_edge_ok(game.model()),
    ensures
        r == spec_has_distinct(game.model()),
{
    let n = game.num_players();
    let ghost pseq = spec_players_seq(n as int);
    let mut players: Vec<Player> = Vec::new();
    let mut i: usize = 0;
    while i < n
        invariant
            i <= n,
            n == game.model().settings.num_players,
            players@.len() == i,
            forall|j: int| 0 <= j < i ==> #[trigger] players@[j] == j,
        decreases n - i,
    {
        players.push(i);
        i = i + 1;
    }
    proof {
        assert(players@ =~= pseq);
        assert(game.wf());
        assert(n <= 3);
    }
    match check_paths_for_ordering(&players, game) {
        None => Ok(()),
        Some(fp) => {
            proof {
                lemma_check_from_member(
                    game.model(),
                    players@,
                    0,
                    Seq::empty(),
                    Seq::empty(),
                );
                assert(players@.contains(fp));
                let w = choose|w: int| 0 <= w < players@.len() && players@[w] == fp;
                assert(players@[w] < 3);
            }
            let mut reordered: Vec<Player> = Vec::new();
            reordered.push(fp);
            let mut j: usize = 0;
            while j < players.len()
                invariant
                    j <= players@.len(),
                    players@ == pseq,
                    fp < 3,
                    forall|k: int| 0 <= k < players@.len() ==> #[trigger] players@[k] < 3,
                    forall|k: int| 0 <= k < reordered@.len() ==> #[trigger] reordered@[k] < 3,
                    seq![fp] + spec_others(players@, fp, 0) == reordered@ + spec_others(
                        players@,
                        fp,
                        j as int,
                    ),
                decreases players@.len() - j,
            {
                let ghost r0 = reordered@;
                if players[j] != fp {
                    reordered.push(players[j]);
                    proof {
                        assert(reordered@ =~= r0 + seq![players@[j as int]]);
                        assert(r0 + (seq![players@[j as int]] + spec_others(
                            players@,
                            fp,
                            j as int + 1,
                        )) =~= reordered@ + spec_others(players@, fp, j as int + 1));
                        assert(seq![fp] + spec_others(players@, fp, 0) =~= reordered@
                            + spec_others(players@, fp, j as int + 1));
                    }
                } else {
                    proof {
                        assert(Seq::<Player>::empty() + spec_others(players@, fp, j as int + 1)
                            =~= spec_others(players@, fp, j as int + 1));
                        assert(seq![fp] + spec_others(players@, fp, 0) =~= reordered@
                            + spec_others(players@, fp, j as int + 1));
                    }
                }
                j = j + 1;
            }
            proof {
                assert(spec_others(players@, fp, players@.len() as int) =~= Seq::<
                    Player,
                >::empty());
                assert(reordered@ =~= seq![fp] + spec_others(pseq, fp, 0));
            }
            match check_paths_for_ordering(&reordered, game) {
                None => Ok(()),
                Some(q) => Err(LegalityError::BlockedPlayer(q)),
            }
        },
    }
}

/// Whether a candidate position is legal: a placement that triggered an
/// immediate win is always accepted; otherwise every player must keep a
/// potential path under the two-ordering heuristic, and a rejection
/// names a blocked player.
pub fn is_move_legal(game: &Game) -> (r: Result<(), LegalityError>)
    requires
        game.wf(),
        board_edge_ok(game.model()),
    ensures
        r == spec_is_move_legal(game.model()),
        game.model().outcome is Some ==> r is Ok,
{
    if game.outcome().is_some() {
        return Ok(());
    }
    has_distinct_potential_paths(game)
}


} // verus!
