//! The general laws of the engine, each proved against the functional
//! specifications that the executable functions are verified to follow.
use crate::game::{
    clear_caches, game_wf, on_grid, pos_index, spec_dir_reversed, spec_dir_towards,
    spec_dir_vec, spec_edge_slot, spec_flood, spec_flood_all, spec_flood_side, spec_outcome_after,
    spec_placed_exit, spec_placed_flows, spec_pos_plus, spec_recompute_board,
    spec_recompute_model, spec_tile_marked, spec_winners, Direction, Game, GameV, Player,
    Rotation, Tile, TilePos, TileType, FLOOD_FUEL,
};
use crate::legality::{
    nodes_of, spec_canonical_node, spec_check_from, spec_conn_set, spec_find_path,
    spec_has_distinct, spec_is_move_legal, spec_norm, spec_players_seq, Connection, LegalityError,
    Node,
};
use vstd::prelude::*;

verus! {

/// Determinism: the legality verdict is a function of the game's
/// mathematical value alone, so two games with equal state always get the
/// identical legal/illegal result and blocked-player witness.
pub proof fn lemma_is_move_legal_deterministic(g1: Game, g2: Game)
    requires
        g1.model() == g2.model(),
    ensures
        spec_is_move_legal(g1.model()) == spec_is_move_legal(g2.model()),
{
}

/// Clearing all flow caches is idempotent.
proof fn lemma_clear_clear(board: Seq<Tile>)
    ensures
        clear_caches(clear_caches(board)) == clear_caches(board),
{
    assert(clear_caches(clear_caches(board)) =~= clear_caches(board));
}

/// One flood-fill walk changes only flow caches: the cleared board is
/// untouched.
proof fn lemma_clear_flood(board: Seq<Tile>, player: Player, pos: TilePos, dir: Direction, fuel: nat)
    requires
        board.len() == 49,
    ensures
        spec_flood(board, player, pos, dir, fuel).len() == 49,
        clear_caches(spec_flood(board, player, pos, dir, fuel)) == clear_caches(board),
    decreases fuel,
{
    if fuel == 0 || !on_grid(pos) {
    } else {
        match board[pos_index(pos)] {
            Tile::Placed(tile) => {
                let exit = spec_placed_exit(tile.type_, tile.rotation, dir);
                let marked = board.update(
                    pos_index(pos),
                    Tile::Placed(
                        spec_tile_marked(
                            spec_tile_marked(tile, dir, Some(player)),
                            exit,
                            Some(player),
                        ),
                    ),
                );
                assert(clear_caches(marked) =~= clear_caches(board));
                let np = spec_pos_plus(pos, spec_dir_vec(exit));
                if crate::game::spec_tile_at(marked, np) is NotOnBoard {
                } else {
                    lemma_clear_flood(marked, player, np, spec_dir_reversed(exit), (fuel - 1) as nat);
                }
            },
            _ => {},
        }
    }
}

/// Flooding one side's boundary slots changes only flow caches.
proof fn lemma_clear_flood_side(board: Seq<Tile>, player: Player, rot: Rotation, i: int)
    requires
        board.len() == 49,
    ensures
        spec_flood_side(board, player, rot, i).len() == 49,
        clear_caches(spec_flood_side(board, player, rot, i)) == clear_caches(board),
    decreases 7 - i,
{
    if i < 0 || i >= 7 {
    } else {
        let slot = spec_edge_slot(rot, i);
        lemma_clear_flood(board, player, slot.0, slot.1, FLOOD_FUEL as nat);
        lemma_clear_flood_side(
            spec_flood(board, player, slot.0, slot.1, FLOOD_FUEL as nat),
            player,
            rot,
            i + 1,
        );
    }
}

/// Flooding all sides changes only flow caches.
proof fn lemma_clear_flood_all(board: Seq<Tile>, sides: Seq<Option<Player>>, side: int)
    requires
        board.len() == 49,
    ensures
        spec_flood_all(board, sides, side).len() == 49,
        clear_caches(spec_flood_all(board, sides, side)) == clear_caches(board),
    decreases 6 - side,
{
    if side < 0 || side >= 6 {
    } else {
        match sides[side] {
            None => {
                lemma_clear_flood_all(board, sides, side + 1);
            },
            Some(p) => {
                lemma_clear_flood_side(board, p, Rotation(side as u8), 0);
                lemma_clear_flood_all(
                    spec_flood_side(board, p, Rotation(side as u8), 0),
                    sides,
                    side + 1,
                );
            },
        }
    }
}

/// The recomputed caches are a function of the placements and side
/// ownership alone: recomputing a board whose cleared form is unchanged
/// gives the identical board.
proof fn lemma_recompute_board_idempotent(board: Seq<Tile>, sides: Seq<Option<Player>>)
    requires
        board.len() == 49,
    ensures
        spec_recompute_board(spec_recompute_board(board, sides), sides) == spec_recompute_board(
            board,
            sides,
        ),
{
    let b1 = spec_recompute_board(board, sides);
    lemma_clear_flood_all(clear_caches(board), sides, 0);
    lemma_clear_clear(board);
    assert(clear_caches(b1) == clear_caches(board));
}

/// Idempotence: recomputing the flows twice in a row yields identical
/// flow caches and outcome both times — the second run changes nothing.
pub proof fn lemma_recompute_idempotent(m: GameV)
    requires
        game_wf(m),
    ensures
        spec_recompute_model(spec_recompute_model(m)) == spec_recompute_model(m),
{
    let m1 = spec_recompute_model(m);
    lemma_recompute_board_idempotent(m.board, m.sides);
    assert(m1.board == spec_recompute_board(m1.board, m1.sides));
    if m1.outcome is Some {
        assert(spec_outcome_after(m1.board, m1.sides, m1.outcome) == m1.outcome);
    } else {
        assert(spec_winners(m1.board, m.sides).len() == 0);
    }
    assert(spec_recompute_model(m1) == m1);
}

/// Oracle totality: any single entrance/exit demand alone is satisfiable —
/// every pair of distinct directions is realised by some tile shape and
/// rotation.
pub proof fn lemma_single_demand_satisfiable(entry: Direction, exit: Direction)
    requires
        entry != exit,
    ensures
        crate::legality::spec_satisfiable(
            Set::<Connection>::empty().insert(spec_norm((entry, exit))),
        ),
{
    let c = spec_norm((entry, exit));
    let a = crate::game::dir_index(c.0);
    let b = crate::game::dir_index(c.1);
    let d = b - a;
    if d == 1 || d == 5 {
        // An adjacent pair: a sharp bend of the one-sharp tile, rotated.
        let rot = if d == 5 {
            Rotation(0)
        } else {
            Rotation(b as u8)
        };
        assert(c == spec_norm(spec_placed_flows(TileType::OneSharp, rot)[0]));
        assert(spec_conn_set(TileType::OneSharp, rot).contains(c));
        assert(Set::<Connection>::empty().insert(c).subset_of(
            spec_conn_set(TileType::OneSharp, rot),
        ));
    } else if d == 2 || d == 4 {
        // A gentle bend of the one-sharp tile, rotated.
        let rot = if d == 2 {
            Rotation(((a + 4) % 6) as u8)
        } else {
            Rotation(((b + 4) % 6) as u8)
        };
        assert(c == spec_norm(spec_placed_flows(TileType::OneSharp, rot)[1]));
        assert(spec_conn_set(TileType::OneSharp, rot).contains(c));
        assert(Set::<Connection>::empty().insert(c).subset_of(
            spec_conn_set(TileType::OneSharp, rot),
        ));
    } else {
        // A straight segment of the no-sharps tile, rotated.
        assert(d == 3);
        let rot = Rotation(((a + 5) % 6) as u8);
        assert(c == spec_norm(spec_placed_flows(TileType::NoSharps, rot)[2]));
        assert(spec_conn_set(TileType::NoSharps, rot).contains(c));
        assert(Set::<Connection>::empty().insert(c).subset_of(
            spec_conn_set(TileType::NoSharps, rot),
        ));
    }
}

/// Edge-contention symmetry: the canonical inter-hex edge is the same
/// whichever way round its two hexes are named, so claiming the edge in
/// one direction blocks reuse in the other.
pub proof fn lemma_canonical_node_symmetric(p1: TilePos, p2: TilePos)
    requires
        p1.near(),
        p2.near(),
        spec_dir_towards(p1, p2) is Some,
    ensures
        spec_dir_towards(p2, p1) is Some,
        spec_canonical_node(p1, p2) == spec_canonical_node(p2, p1),
{
    let d = spec_dir_towards(p1, p2)->0;
    assert(spec_dir_towards(p2, p1) == Some(spec_dir_reversed(d)));
    assert(spec_dir_reversed(spec_dir_reversed(d)) == d);
}

/// Wall property, for the first-checked player: when player 0 has no
/// potential path even with no contention at all, any position without a
/// recorded victory is rejected with player 0 as the witness — both tried
/// orderings start at player 0 and fail there at once.
pub proof fn lemma_wall_blocks_first_player(m: GameV)
    requires
        game_wf(m),
        m.outcome is None,
        spec_find_path(m, 0, Set::empty(), Seq::empty()) is None,
    ensures
        spec_is_move_legal(m) == Err::<(), LegalityError>(LegalityError::BlockedPlayer(0)),
{
    let players = spec_players_seq(m.settings.num_players as int);
    assert(players[0] == 0);
    assert(nodes_of(Seq::empty()) =~= Set::<Node>::empty());
    assert(spec_check_from(m, players, 0, Seq::empty(), Seq::empty()) == Some(0usize));
    let reordered = seq![0usize] + crate::legality::spec_others(players, 0, 0);
    assert(reordered[0] == 0);
    assert(spec_check_from(m, reordered, 0, Seq::empty(), Seq::empty()) == Some(0usize));
    assert(spec_has_distinct(m) == Err::<(), LegalityError>(LegalityError::BlockedPlayer(0)));
}

/// Immediate-win override: a position that already records a victory is
/// legal, whatever it does to the other players' prospects.
pub proof fn lemma_victory_always_legal(m: GameV)
    requires
        m.outcome is Some,
    ensures
        spec_is_move_legal(m) == Ok::<(), LegalityError>(()),
{
}

} // verus!
