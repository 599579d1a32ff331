//! Support for move-selecting collaborators: comparing actions, walking an
//! established flow, and enumerating every placement the engine accepts.
use crate::game::{
    board_edge_ok, on_grid, spec_apply_action, spec_dir_reversed, spec_neighbor,
    spec_placed_exit, spec_tile_at, spec_unique_rotations, tile_wf, Action, Game, GameV, Player,
    Rotation, Tile, TilePos, TileType, FLOOD_FUEL,
};
use vstd::prelude::*;

verus! {

/// Whether two actions name the same thing, field for field.
pub open spec fn spec_actions_equal(a1: Action, a2: Action) -> bool {
    match (a1, a2) {
        (
            Action::PlaceTile { player: p1, tile: t1, pos: pos1, rotation: r1 },
            Action::PlaceTile { player: p2, tile: t2, pos: pos2, rotation: r2 },
        ) => p1 == p2 && t1 == t2 && pos1 == pos2 && r1.0 == r2.0,
        (
            Action::DrawTile { player: p1, tile: t1 },
            Action::DrawTile { player: p2, tile: t2 },
        ) => p1 == p2 && t1 == t2,
        (
            Action::RevealTile { player: p1, tile: t1 },
            Action::RevealTile { player: p2, tile: t2 },
        ) => p1 == p2 && t1 == t2,
        (Action::InitializeGame(s1), Action::InitializeGame(s2)) => s1.num_players
            == s2.num_players && s1.version == s2.version,
        _ => false,
    }
}

/// Compare two actions for equality, field for field.
pub fn actions_equal(a1: &Action, a2: &Action) -> (r: bool)
    ensures
        r == spec_actions_equal(*a1, *a2),
{
    match (a1, a2) {
        (
            Action::PlaceTile { player: p1, tile: t1, pos: pos1, rotation: r1 },
            Action::PlaceTile { player: p2, tile: t2, pos: pos2, rotation: r2 },
        ) => p1 == p2 && t1 == t2 && pos1 == pos2 && r1.0 == r2.0,
        (
            Action::DrawTile { player: p1, tile: t1 },
            Action::DrawTile { player: p2, tile: t2 },
        ) => p1 == p2 && t1 == t2,
        (
            Action::RevealTile { player: p1, tile: t1 },
            Action::RevealTile { player: p2, tile: t2 },
        ) => p1 == p2 && t1 == t2,
        (Action::InitializeGame(s1), Action::InitializeGame(s2)) => s1.num_players
            == s2.num_players && s1.version == s2.version,
        _ => false,
    }
}

/// Scores positions by how far each player still is from completion.
pub struct PathLengthEvaluator;

/// Following one player's coloured flow from `(pos, dir)` until it ends:
/// the hex and edge where it stops.
pub open(crate) spec fn spec_follow_flow(
    board: Seq<Tile>,
    pos: TilePos,
    entry_dir: crate::game::Direction,
    player: Player,
    fuel: nat,
) -> (TilePos, crate::game::Direction)
    decreases fuel,
{
    if fuel == 0 {
        (pos, spec_dir_reversed(entry_dir))
    } else {
        match spec_tile_at(board, pos) {
            Tile::Placed(t) => {
                if t.flow_cache@[crate::game::dir_index(entry_dir)] == Some(player) {
                    let exit = spec_placed_exit(t.type_, t.rotation, entry_dir);
                    match spec_neighbor(board, pos, exit) {
                        Some(np) => spec_follow_flow(
                            board,
                            np,
                            spec_dir_reversed(exit),
                            player,
                            (fuel - 1) as nat,
                        ),
                        None => (pos, exit),
                    }
                } else {
                    (pos, spec_dir_reversed(entry_dir))
                }
            },
            _ => (pos, spec_dir_reversed(entry_dir)),
        }
    }
}

impl PathLengthEvaluator {
    pub fn new() -> (r: PathLengthEvaluator)
        ensures
            r == (PathLengthEvaluator {  }),
    {
        PathLengthEvaluator
    }

    /// Follow one player's coloured flow from a starting hex and entry
    /// edge until it reaches an empty hex, another colour, or the board
    /// edge; returns where it stopped and through which edge.
    pub fn follow_flow(
        &self,
        pos: TilePos,
        entry_dir: crate::game::Direction,
        player: Player,
        game: &Game,
    ) -> (r: (TilePos, crate::game::Direction))
        requires
            game.wf(),
            board_edge_ok(game.model()),
            pos.near(),
        ensures
            r == spec_follow_flow(game.model().board, pos, entry_dir, player, FLOOD_FUEL as nat),
            r.0.near(),
    {
        self.follow_steps(pos, entry_dir, player, game, FLOOD_FUEL)
    }

    /// One bounded step of the flow walk.
    fn follow_steps(
        &self,
        pos: TilePos,
        entry_dir: crate::game::Direction,
        player: Player,
        game: &Game,
        fuel: u32,
    ) -> (r: (TilePos, crate::game::Direction))
        requires
            game.wf(),
            board_edge_ok(game.model()),
            pos.near(),
        ensures
            r == spec_follow_flow(game.model().board, pos, entry_dir, player, fuel as nat),
            r.0.near(),
        decreases fuel,
    {
        if fuel == 0 {
            return (pos, entry_dir.reversed());
        }
        match *game.tile(pos) {
            Tile::Placed(t) => {
                proof {
                    assert(tile_wf(spec_tile_at(game.model().board, pos)));
                }
                let cached = t.flow_cache(entry_dir);
                let is_mine = match cached {
                    Some(q) => q == player,
                    None => false,
                };
                if is_mine {
                    let exit = t.exit_from_entrance(entry_dir);
                    match game.get_neighbor_pos(pos, exit) {
                        Some(np) => {
                            proof {
                                if !on_grid(np) {
                                    assert(spec_tile_at(game.model().board, np) is NotOnBoard);
                                }
                            }
                            self.follow_steps(np, exit.reversed(), player, game, fuel - 1)
                        },
                        None => (pos, exit),
                    }
                } else {
                    (pos, entry_dir.reversed())
                }
            },
            _ => (pos, entry_dir.reversed()),
        }
    }
}

/// The placements of `tile` by `player` that the engine would accept at
/// one cell, trying the tile's distinct rotations from index `k` upward.
pub open(crate) spec fn spec_moves_at(
    m: GameV,
    player: Player,
    tile: TileType,
    pos: TilePos,
    k: int,
) -> Seq<Action>
    decreases spec_unique_rotations(tile).len() - k,
{
    let rots = spec_unique_rotations(tile);
    if k < 0 || k >= rots.len() {
        Seq::empty()
    } else {
        let a = Action::PlaceTile { player, tile, pos, rotation: rots[k] };
        (if spec_apply_action(m, a).1 is None {
            seq![a]
        } else {
            Seq::empty()
        }) + spec_moves_at(m, player, tile, pos, k + 1)
    }
}

/// The placements of `tile` by `player` that the engine would accept,
/// scanning the grid row-major from cell `idx` upward.
pub open(crate) spec fn spec_legal_moves(m: GameV, player: Player, tile: TileType, idx: int) -> Seq<
    Action,
>
    decreases 49 - idx,
{
    if idx < 0 || idx >= 49 {
        Seq::empty()
    } else {
        let pos = TilePos { row: (idx / 7) as i32, col: (idx % 7) as i32 };
        (if spec_tile_at(m.board, pos) is Empty {
            spec_moves_at(m, player, tile, pos, 0)
        } else {
            Seq::empty()
        }) + spec_legal_moves(m, player, tile, idx + 1)
    }
}

/// Every placement of the given tile the engine accepts for this player,
/// in row-major cell order and rotation order, skipping rotations that
/// repeat a symmetric shape's pattern.
pub fn get_legal_moves(game: &Game, player: Player, tile: TileType) -> (moves: Vec<Action>)
    requires
        game.wf(),
        board_edge_ok(game.model()),
        player < game.model().settings.num_players,
    ensures
        moves@ == spec_legal_moves(game.model(), player, tile, 0),
{
    let ghost m = game.model();
    let mut moves: Vec<Action> = Vec::new();
    let mut idx: usize = 0;
    while idx < 49
        invariant
            idx <= 49,
            game.wf(),
            board_edge_ok(m),
            m == game.model(),
            player < m.settings.num_players,
            spec_legal_moves(m, player, tile, 0) == moves@ + spec_legal_moves(
                m,
                player,
                tile,
                idx as int,
            ),
        decreases 49 - idx,
    {
        let pos = TilePos { row: (idx / 7) as i32, col: (idx % 7) as i32 };
        let ghost before = moves@;
        if matches!(*game.tile(pos), Tile::Empty) {
            let unique_rotations = TileType::get_unique_rotations(tile);
            let mut k: usize = 0;
            while k < unique_rotations.len()
                invariant
                    k <= unique_rotations@.len(),
                    game.wf(),
                    board_edge_ok(m),
                    m == game.model(),
                    player < m.settings.num_players,
                    unique_rotations@ == spec_unique_rotations(tile),
                    forall|j: int|
                        0 <= j < unique_rotations@.len() ==> crate::game::rotation_valid(
                            #[trigger] unique_rotations@[j],
                        ),
                    moves@ + spec_moves_at(m, player, tile, pos, k as int) == before
                        + spec_moves_at(m, player, tile, pos, 0),
                decreases unique_rotations@.len() - k,
            {
                let rotation = unique_rotations[k];
                let action = Action::PlaceTile { player, tile, pos, rotation };
                let mut temp_game = game.clone();
                let ghost mv0 = moves@;
                let ok = match temp_game.apply_action(action) {
                    Ok(()) => true,
                    Err(_) => false,
                };
                if ok {
                    moves.push(action);
                    proof {
                        assert(moves@ =~= mv0 + seq![action]);
                        assert(mv0 + (seq![action] + spec_moves_at(
                            m,
                            player,
                            tile,
                            pos,
                            k as int + 1,
                        )) =~= moves@ + spec_moves_at(m, player, tile, pos, k as int + 1));
                        assert(moves@ + spec_moves_at(m, player, tile, pos, k as int + 1) =~= before
                            + spec_moves_at(m, player, tile, pos, 0));
                    }
                } else {
                    proof {
                        assert(Seq::<Action>::empty() + spec_moves_at(
                            m,
                            player,
                            tile,
                            pos,
                            k as int + 1,
                        ) =~= spec_moves_at(m, player, tile, pos, k as int + 1));
                        assert(moves@ + spec_moves_at(m, player, tile, pos, k as int + 1) =~= before
                            + spec_moves_at(m, player, tile, pos, 0));
                    }
                }
                k = k + 1;
            }
            proof {
                assert(spec_moves_at(m, player, tile, pos, unique_rotations@.len() as int) =~= Seq::<
                    Action,
                >::empty());
                assert(moves@ =~= before + spec_moves_at(m, player, tile, pos, 0));
            }
        } else {
            proof {
                assert(Seq::<Action>::empty() + spec_legal_moves(m, player, tile, idx as int + 1)
                    =~= spec_legal_moves(m, player, tile, idx as int + 1));
            }
        }
        proof {
            assert(spec_legal_moves(m, player, tile, 0) =~= moves@ + spec_legal_moves(
                m,
                player,
                tile,
                idx as int + 1,
            ));
        }
        idx = idx + 1;
    }
    proof {
        assert(spec_legal_moves(m, player, tile, 49) =~= Seq::<Action>::empty());
        assert(moves@ =~= spec_legal_moves(m, player, tile, 0));
    }
    moves
}


/// A cost table as an association list with unique keys: the recorded
/// cheapest known cost of reaching each hex.
pub type CostEntry = (TilePos, usize);

/// The recorded cost of `pos`, if any.
pub open(crate) spec fn spec_cost_get(costs: Seq<CostEntry>, pos: TilePos) -> Option<usize>
    decreases costs.len(),
{
    if costs.len() == 0 {
        None
    } else if costs[0].0 == pos {
        Some(costs[0].1)
    } else {
        spec_cost_get(costs.drop_first(), pos)
    }
}

/// The table with the cost of `pos` overwritten (or appended).
pub open(crate) spec fn spec_cost_set(costs: Seq<CostEntry>, pos: TilePos, c: usize) -> Seq<
    CostEntry,
>
    decreases costs.len(),
{
    if costs.len() == 0 {
        seq![(pos, c)]
    } else if costs[0].0 == pos {
        seq![(pos, c)] + costs.drop_first()
    } else {
        seq![costs[0]] + spec_cost_set(costs.drop_first(), pos, c)
    }
}

/// An in-place overwrite at the first matching key is exactly the
/// recursive overwrite.
proof fn lemma_cost_set_found(costs: Seq<CostEntry>, pos: TilePos, c: usize, i: int)
    requires
        0 <= i < costs.len(),
        costs[i].0 == pos,
        forall|j: int| 0 <= j < i ==> (#[trigger] costs[j]).0 != pos,
    ensures
        spec_cost_set(costs, pos, c) == costs.update(i, (pos, c)),
    decreases i,
{
    if i == 0 {
        assert(spec_cost_set(costs, pos, c) =~= costs.update(0, (pos, c)));
    } else {
        assert(costs[0].0 != pos);
        lemma_cost_set_found(costs.drop_first(), pos, c, i - 1);
        assert(spec_cost_set(costs, pos, c) =~= costs.update(i, (pos, c)));
    }
}

/// Appending a fresh key is exactly the recursive overwrite.
proof fn lemma_cost_set_missing(costs: Seq<CostEntry>, pos: TilePos, c: usize)
    requires
        forall|j: int| 0 <= j < costs.len() ==> (#[trigger] costs[j]).0 != pos,
    ensures
        spec_cost_set(costs, pos, c) == costs.push((pos, c)),
    decreases costs.len(),
{
    if costs.len() == 0 {
        assert(spec_cost_set(costs, pos, c) =~= costs.push((pos, c)));
    } else {
        lemma_cost_set_missing(costs.drop_first(), pos, c);
        assert(spec_cost_set(costs, pos, c) =~= costs.push((pos, c)));
    }
}

/// The first matching key decides a lookup.
proof fn lemma_cost_get_found(costs: Seq<CostEntry>, pos: TilePos, i: int)
    requires
        0 <= i < costs.len(),
        costs[i].0 == pos,
        forall|j: int| 0 <= j < i ==> (#[trigger] costs[j]).0 != pos,
    ensures
        spec_cost_get(costs, pos) == Some(costs[i].1),
    decreases i,
{
    if i == 0 {
    } else {
        lemma_cost_get_found(costs.drop_first(), pos, i - 1);
    }
}

/// A key that appears nowhere has no recorded cost.
proof fn lemma_cost_get_missing(costs: Seq<CostEntry>, pos: TilePos)
    requires
        forall|j: int| 0 <= j < costs.len() ==> (#[trigger] costs[j]).0 != pos,
    ensures
        spec_cost_get(costs, pos) is None,
    decreases costs.len(),
{
    if costs.len() == 0 {
    } else {
        lemma_cost_get_missing(costs.drop_first(), pos);
    }
}

/// Look up the recorded cost of `pos`.
fn cost_get(costs: &Vec<CostEntry>, pos: TilePos) -> (r: Option<usize>)
    ensures
        r == spec_cost_get(costs@, pos),
{
    let mut i: usize = 0;
    while i < costs.len()
        invariant
            i <= costs@.len(),
            forall|j: int| 0 <= j < i ==> (#[trigger] costs@[j]).0 != pos,
        decreases costs@.len() - i,
    {
        let e = costs[i];
        if e.0.row == pos.row && e.0.col == pos.col {
            proof {
                lemma_cost_get_found(costs@, pos, i as int);
            }
            return Some(e.1);
        }
        i = i + 1;
    }
    proof {
        lemma_cost_get_missing(costs@, pos);
    }
    None
}

/// Overwrite (or record) the cost of `pos`.
fn cost_set(costs: &mut Vec<CostEntry>, pos: TilePos, c: usize)
    ensures
        final(costs)@ == spec_cost_set(old(costs)@, pos, c),
{
    let mut i: usize = 0;
    while i < costs.len()
        invariant
            i <= costs@.len(),
            costs@ == old(costs)@,
            forall|j: int| 0 <= j < i ==> (#[trigger] costs@[j]).0 != pos,
        decreases costs@.len() - i,
    {
        let e = costs[i];
        if e.0.row == pos.row && e.0.col == pos.col {
            costs[i] = (pos, c);
            proof {
                lemma_cost_set_found(old(costs)@, pos, c, i as int);
            }
            return ;
        }
        i = i + 1;
    }
    costs.push((pos, c));
    proof {
        lemma_cost_set_missing(old(costs)@, pos, c);
    }
}



/// Search fuel far beyond any reachable number of cost improvements on
/// the 49-cell board.
pub const DIJ_FUEL: u32 = 100000;

/// The recorded cost, or the largest value when none is recorded.
pub open(crate) spec fn spec_cost_or_max(costs: Seq<CostEntry>, pos: TilePos) -> int {
    match spec_cost_get(costs, pos) {
        Some(c) => c as int,
        None => usize::MAX as int,
    }
}

/// Whether the path now standing at `pos` (having come from `prev`) can
/// finish at the goal side: `pos` is a goal hex and some goal slot's exit
/// is realisable together with the entry edge by a single tile.
pub open(crate) spec fn spec_dij_goal(m: GameV, player: Player, pos: TilePos, prev: TilePos) -> bool {
    let goal = crate::legality::spec_player_sides(player).1;
    (exists|i: int| 0 <= i < 7 && (#[trigger] crate::game::spec_edge_slot(goal, i)).0 == pos)
        && match crate::game::spec_dir_towards(pos, prev) {
        Some(entry) => exists|i: int|
            0 <= i < 7 && (#[trigger] crate::game::spec_edge_slot(goal, i)).0 == pos
                && crate::legality::spec_satisfiable(
                crate::legality::conns_of(
                    seq![
                        crate::legality::spec_norm(
                            (entry, crate::game::spec_edge_slot(goal, i).1),
                        ),
                    ],
                ),
            ),
        None => false,
    }
}

/// Relax the six neighbours of `pos` from direction index `k` upward: an
/// empty neighbour costs one more tile; a placed neighbour carrying the
/// player's own flow is followed to the flow's end at no extra cost.
/// Returns the new queue entries and the updated cost table.
pub open(crate) spec fn spec_dij_expand(
    m: GameV,
    player: Player,
    pos: TilePos,
    cost: usize,
    costs: Seq<CostEntry>,
    k: int,
) -> (Seq<(usize, TilePos, TilePos)>, Seq<CostEntry>)
    decreases 6 - k,
{
    if k < 0 || k >= 6 {
        (Seq::empty(), costs)
    } else {
        let dir = crate::game::dir_of_index(k);
        let step: Option<(usize, TilePos)> = match spec_neighbor(m.board, pos, dir) {
            Some(next) => match spec_tile_at(m.board, next) {
                Tile::Empty => {
                    let nc = ((cost + 1) as usize);
                    if (nc as int) < spec_cost_or_max(costs, next) {
                        Some((nc, next))
                    } else {
                        None
                    }
                },
                Tile::Placed(t) => {
                    let entry = spec_dir_reversed(dir);
                    if t.flow_cache@[crate::game::dir_index(entry)] == Some(player) {
                        let end = spec_follow_flow(
                            m.board,
                            next,
                            entry,
                            player,
                            FLOOD_FUEL as nat,
                        ).0;
                        if (cost as int) < spec_cost_or_max(costs, end) {
                            Some((cost, end))
                        } else {
                            None
                        }
                    } else {
                        None
                    }
                },
                Tile::NotOnBoard => None,
            },
            None => None,
        };
        match step {
            None => spec_dij_expand(m, player, pos, cost, costs, k + 1),
            Some((c, target)) => {
                let rest = spec_dij_expand(
                    m,
                    player,
                    pos,
                    cost,
                    spec_cost_set(costs, target, c),
                    k + 1,
                );
                (seq![(c, target, pos)] + rest.0, rest.1)
            },
        }
    }
}

/// The cost-relaxing search: pop the head entry, drop it if a cheaper
/// cost is already recorded, succeed with its cost if it can finish at
/// the goal side, otherwise relax its neighbours and continue.
pub open(crate) spec fn spec_dij(
    m: GameV,
    player: Player,
    queue: Seq<(usize, TilePos, TilePos)>,
    costs: Seq<CostEntry>,
    fuel: nat,
) -> Option<usize>
    decreases fuel,
{
    if fuel == 0 || queue.len() == 0 {
        None
    } else {
        let head = queue[0];
        let rest = queue.drop_first();
        if head.0 as int > spec_cost_or_max(costs, head.1) {
            spec_dij(m, player, rest, costs, (fuel - 1) as nat)
        } else if spec_dij_goal(m, player, head.1, head.2) {
            Some(head.0)
        } else {
            let ex = spec_dij_expand(m, player, head.1, head.0, costs, 0);
            spec_dij(m, player, rest + ex.0, ex.1, (fuel - 1) as nat)
        }
    }
}

/// The initial frontier, scanning the player's start boundary slots from
/// `i` upward: an empty start hex enters at cost one; a placed start hex
/// already carrying the player's flow is followed to the flow's end at
/// cost zero, unless that end already has cost zero recorded.
pub open(crate) spec fn spec_dij_init(
    m: GameV,
    player: Player,
    i: int,
    queue: Seq<(usize, TilePos, TilePos)>,
    costs: Seq<CostEntry>,
) -> (Seq<(usize, TilePos, TilePos)>, Seq<CostEntry>)
    decreases 7 - i,
{
    if i < 0 || i >= 7 {
        (queue, costs)
    } else {
        let start = crate::legality::spec_player_sides(player).0;
        let slot = crate::game::spec_edge_slot(start, i);
        let here: (Seq<(usize, TilePos, TilePos)>, Seq<CostEntry>) = match spec_tile_at(
            m.board,
            slot.0,
        ) {
            Tile::Empty => (
                queue.push((1usize, slot.0, slot.0)),
                spec_cost_set(costs, slot.0, 1),
            ),
            Tile::Placed(t) => {
                if t.flow_cache@[crate::game::dir_index(slot.1)] == Some(player) {
                    let end = spec_follow_flow(
                        m.board,
                        slot.0,
                        slot.1,
                        player,
                        FLOOD_FUEL as nat,
                    ).0;
                    let fresh = match spec_cost_get(costs, end) {
                        None => true,
                        Some(c) => c > 0,
                    };
                    if fresh {
                        (queue.push((0usize, end, end)), spec_cost_set(costs, end, 0))
                    } else {
                        (queue, costs)
                    }
                } else {
                    (queue, costs)
                }
            },
            Tile::NotOnBoard => (queue, costs),
        };
        spec_dij_init(m, player, i + 1, here.0, here.1)
    }
}

/// The fewest tiles the player still needs to place to win, judged by
/// the cost-relaxing search over empty hexes and their own established
/// flows; `None` when no route remains.
pub open(crate) spec fn spec_shortest_path_len(m: GameV, player: Player) -> Option<usize> {
    let init = spec_dij_init(m, player, 0, Seq::empty(), Seq::empty());
    spec_dij(m, player, init.0, init.1, DIJ_FUEL as nat)
}



/// Queue entries keep their hexes near the board and their costs small
/// enough that relaxing can never overflow within the remaining fuel.
pub open(crate) spec fn dij_queue_ok(q: Seq<(usize, TilePos, TilePos)>, fuel: nat) -> bool {
    forall|i: int|
        0 <= i < q.len() ==> (#[trigger] q[i]).1.near() && q[i].2.near() && q[i].0 + fuel
            <= DIJ_FUEL + 1
}

impl PathLengthEvaluator {
    /// Whether the entry standing at `pos` (from `prev`) can finish at
    /// the goal side.
    fn dij_goal_check(
        &self,
        game: &Game,
        player: Player,
        goal_edges: &Vec<(TilePos, crate::game::Direction)>,
        pos: TilePos,
        prev: TilePos,
    ) -> (b: bool)
        requires
            game.wf(),
            player < 3,
            pos.near(),
            prev.near(),
            goal_edges@ =~= crate::game::spec_edges(crate::legality::spec_player_sides(player).1),
        ensures
            b == spec_dij_goal(game.model(), player, pos, prev),
    {
        let ghost goal = crate::legality::spec_player_sides(player).1;
        let mut on_edge: bool = false;
        let mut i: usize = 0;
        while i < 7
            invariant
                i <= 7,
                goal_edges@ =~= crate::game::spec_edges(goal),
                on_edge == exists|j: int|
                    0 <= j < i && (#[trigger] crate::game::spec_edge_slot(goal, j)).0 == pos,
            decreases 7 - i,
        {
            let (slot_pos, _) = goal_edges[i];
            if slot_pos.row == pos.row && slot_pos.col == pos.col {
                on_edge = true;
                proof {
                    assert(crate::game::spec_edge_slot(goal, i as int).0 == pos);
                }
            }
            i = i + 1;
        }
        if !on_edge {
            return false;
        }
        let entry = match game.get_direction_towards(pos, prev) {
            Some(d) => d,
            None => {
                return false;
            },
        };
        let mut i: usize = 0;
        while i < 7
            invariant
                i <= 7,
                goal_edges@ =~= crate::game::spec_edges(goal),
                goal == crate::legality::spec_player_sides(player).1,
                crate::game::spec_dir_towards(pos, prev) == Some(entry),
                exists|j: int|
                    0 <= j < 7 && (#[trigger] crate::game::spec_edge_slot(goal, j)).0 == pos,
                forall|j: int|
                    0 <= j < i ==> !((#[trigger] crate::game::spec_edge_slot(goal, j)).0 == pos
                        && crate::legality::spec_satisfiable(
                        crate::legality::conns_of(
                            seq![
                                crate::legality::spec_norm(
                                    (entry, crate::game::spec_edge_slot(goal, j).1),
                                ),
                            ],
                        ),
                    )),
            decreases 7 - i,
        {
            let (slot_pos, slot_dir) = goal_edges[i];
            proof {
                assert((slot_pos, slot_dir) == crate::game::spec_edge_slot(goal, i as int));
            }
            if slot_pos.row == pos.row && slot_pos.col == pos.col {
                let nd = if entry.as_index() > slot_dir.as_index() {
                    (slot_dir, entry)
                } else {
                    (entry, slot_dir)
                };
                let mut single: Vec<crate::legality::Connection> = Vec::new();
                single.push(nd);
                proof {
                    assert(single@ =~= seq![nd]);
                }
                if crate::legality::is_satisfiable(&single) {
                    proof {
                        assert(nd == crate::legality::spec_norm(
                            (entry, crate::game::spec_edge_slot(goal, i as int).1),
                        ));
                        assert(crate::game::spec_edge_slot(goal, i as int).0 == pos);
                    }
                    return true;
                }
                proof {
                    assert(nd == crate::legality::spec_norm(
                        (entry, crate::game::spec_edge_slot(goal, i as int).1),
                    ));
                }
            }
            i = i + 1;
        }
        false
    }

    /// Relax the six neighbours of the popped entry, from direction
    /// index `k` upward.
    fn dij_expand(
        &self,
        game: &Game,
        player: Player,
        pos: TilePos,
        cost: usize,
        queue: &mut Vec<(usize, TilePos, TilePos)>,
        costs: &mut Vec<CostEntry>,
        k: u8,
        Ghost(fuel): Ghost<nat>,
    )
        requires
            game.wf(),
            board_edge_ok(game.model()),
            pos.near(),
            k <= 6,
            cost + 1 + fuel <= DIJ_FUEL + 1,
            dij_queue_ok(old(queue)@, fuel),
        ensures
            ({
                let ex = spec_dij_expand(game.model(), player, pos, cost, old(costs)@, k as int);
                final(queue)@ == old(queue)@ + ex.0 && final(costs)@ == ex.1
            }),
            dij_queue_ok(final(queue)@, fuel),
        decreases 6 - k,
    {
        if k >= 6 {
            proof {
                assert(queue@ =~= queue@ + Seq::<(usize, TilePos, TilePos)>::empty());
            }
            return ;
        }
        let dir = crate::game::Direction::from_rotation(crate::game::Rotation(k));
        match game.get_neighbor_pos(pos, dir) {
            Some(next) => {
                proof {
                    if !on_grid(next) {
                        assert(spec_tile_at(game.model().board, next) is NotOnBoard);
                    }
                }
                match *game.tile(next) {
                    Tile::Empty => {
                        let nc = cost + 1;
                        let beat = match cost_get(costs, next) {
                            Some(c) => nc < c,
                            None => nc < usize::MAX,
                        };
                        if beat {
                            cost_set(costs, next, nc);
                            let ghost q0 = queue@;
                            queue.push((nc, next, pos));
                            proof {
                                assert(queue@ =~= q0 + seq![(nc, next, pos)]);
                            }
                        }
                    },
                    Tile::Placed(t) => {
                        proof {
                            assert(tile_wf(spec_tile_at(game.model().board, next)));
                        }
                        let entry = dir.reversed();
                        let mine = match t.flow_cache(entry) {
                            Some(q) => q == player,
                            None => false,
                        };
                        if mine {
                            let (end, _) = self.follow_flow(next, entry, player, game);
                            let beat = match cost_get(costs, end) {
                                Some(c) => cost < c,
                                None => cost < usize::MAX,
                            };
                            if beat {
                                cost_set(costs, end, cost);
                                let ghost q0 = queue@;
                                queue.push((cost, end, pos));
                                proof {
                                    assert(queue@ =~= q0 + seq![(cost, end, pos)]);
                                }
                            }
                        }
                    },
                    Tile::NotOnBoard => {},
                }
            },
            None => {},
        }
        self.dij_expand(game, player, pos, cost, queue, costs, k + 1, Ghost(fuel));
        proof {
            assert(queue@ =~= old(queue)@ + spec_dij_expand(
                game.model(),
                player,
                pos,
                cost,
                old(costs)@,
                k as int,
            ).0);
        }
    }

    /// Build the initial frontier from the start boundary slots, from
    /// slot `i` upward.
    fn dij_init(
        &self,
        game: &Game,
        player: Player,
        start_edges: &Vec<(TilePos, crate::game::Direction)>,
        queue: &mut Vec<(usize, TilePos, TilePos)>,
        costs: &mut Vec<CostEntry>,
        i: u8,
    )
        requires
            game.wf(),
            board_edge_ok(game.model()),
            player < 3,
            i <= 7,
            start_edges@ =~= crate::game::spec_edges(crate::legality::spec_player_sides(player).0),
            dij_queue_ok(old(queue)@, DIJ_FUEL as nat),
        ensures
            ({
                let init = spec_dij_init(
                    game.model(),
                    player,
                    i as int,
                    old(queue)@,
                    old(costs)@,
                );
                final(queue)@ == init.0 && final(costs)@ == init.1
            }),
            dij_queue_ok(final(queue)@, DIJ_FUEL as nat),
        decreases 7 - i,
    {
        if i >= 7 {
            return ;
        }
        let (slot_pos, slot_dir) = start_edges[i as usize];
        proof {
            crate::legality::lemma_edge_slot_near_pub(
                crate::legality::spec_player_sides(player).0,
                i as int,
            );
        }
        match *game.tile(slot_pos) {
            Tile::Empty => {
                queue.push((1, slot_pos, slot_pos));
                cost_set(costs, slot_pos, 1);
            },
            Tile::Placed(t) => {
                proof {
                    assert(tile_wf(spec_tile_at(game.model().board, slot_pos)));
                }
                let mine = match t.flow_cache(slot_dir) {
                    Some(q) => q == player,
                    None => false,
                };
                if mine {
                    let (end, _) = self.follow_flow(slot_pos, slot_dir, player, game);
                    let fresh = match cost_get(costs, end) {
                        Some(c) => c > 0,
                        None => true,
                    };
                    if fresh {
                        queue.push((0, end, end));
                        cost_set(costs, end, 0);
                    }
                }
            },
            Tile::NotOnBoard => {},
        }
        self.dij_init(game, player, start_edges, queue, costs, i + 1);
    }

    /// The search loop, bounded by generous fuel.
    fn dij_run(
        &self,
        game: &Game,
        player: Player,
        queue: Vec<(usize, TilePos, TilePos)>,
        costs: Vec<CostEntry>,
        goal_edges: &Vec<(TilePos, crate::game::Direction)>,
        fuel: u32,
    ) -> (r: Option<usize>)
        requires
            game.wf(),
            board_edge_ok(game.model()),
            player < 3,
            goal_edges@ =~= crate::game::spec_edges(crate::legality::spec_player_sides(player).1),
            dij_queue_ok(queue@, fuel as nat),
        ensures
            r == spec_dij(game.model(), player, queue@, costs@, fuel as nat),
        decreases fuel,
    {
        if fuel == 0 {
            return None;
        }
        if queue.len() == 0 {
            return None;
        }
        let ghost q0 = queue@;
        let mut queue = queue;
        let (cost, pos, prev) = queue.remove(0);
        proof {
            assert(queue@ =~= q0.drop_first());
            assert forall|j: int| 0 <= j < queue@.len() implies (#[trigger] queue@[j]).1.near()
                && queue@[j].2.near() && queue@[j].0 + (fuel - 1) <= DIJ_FUEL + 1 by {
                assert(queue@[j] == q0[j + 1]);
            }
        }
        let skip = match cost_get(&costs, pos) {
            Some(c) => cost > c,
            None => cost > usize::MAX,
        };
        if skip {
            return self.dij_run(game, player, queue, costs, goal_edges, fuel - 1);
        }
        if self.dij_goal_check(game, player, goal_edges, pos, prev) {
            return Some(cost);
        }
        let mut queue = queue;
        let mut costs = costs;
        self.dij_expand(
            game,
            player,
            pos,
            cost,
            &mut queue,
            &mut costs,
            0,
            Ghost((fuel - 1) as nat),
        );
        self.dij_run(game, player, queue, costs, goal_edges, fuel - 1)
    }

    /// The fewest tiles this player still needs to place to win: relax
    /// costs outward from their start side over empty hexes, riding their
    /// own established flows for free, until a hex can finish at the goal
    /// side. `None` when no route remains.
    pub fn get_shortest_path_len(&self, player: Player, game: &Game) -> (r: Option<usize>)
        requires
            game.wf(),
            board_edge_ok(game.model()),
            player < 3,
        ensures
            r == spec_shortest_path_len(game.model(), player),
    {
        let (start_side, goal_side) = crate::legality::get_player_sides(player);
        let start_edges = game.edges_on_board_edge(start_side);
        let goal_edges = game.edges_on_board_edge(goal_side);
        let mut queue: Vec<(usize, TilePos, TilePos)> = Vec::new();
        let mut costs: Vec<CostEntry> = Vec::new();
        self.dij_init(game, player, &start_edges, &mut queue, &mut costs, 0);
        self.dij_run(game, player, queue, costs, &goal_edges, DIJ_FUEL)
    }
}


} // verus!
