//! Presentation helpers that are pure functions of the game state: tracing
//! a flow for drawing, naming a move in board notation, and the plain data
//! the user interface layer exchanges with its host.
use crate::game::{
    board_edge_ok, on_grid, spec_adjacent, spec_dir_reversed, spec_placed_exit,
    spec_pos_plus, spec_rot_reversed, spec_tile_at, spec_vec_rotate, tile_wf, AdjacentTile,
    Direction, Game, GameV, Player, Rotation, Tile, TilePos, TileType, FLOOD_FUEL,
};
use vstd::prelude::*;
use vstd::string::StringExecFns;

verus! {

/// What one frame of the game widget reports back to its host.
#[derive(Debug)]
pub struct GameUiResponse {
    pub play_again_requested: bool,
}

impl Default for GameUiResponse {
    /// By default nothing was requested.
    fn default() -> (r: GameUiResponse)
        ensures
            !r.play_again_requested,
    {
        GameUiResponse { play_again_requested: false }
    }
}

/// A fade of the hovered tile: which frames it spans, its direction, and
/// the tile it concerns.
#[derive(Clone, Copy, PartialEq, Eq, Structural, Debug)]
pub struct HoverAnimation {
    pub start_frame: u64,
    pub end_frame: u64,
    /// True while fading in (nothing hovered before), false while fading
    /// out (nothing hovered any more).
    pub is_fade_in: bool,
    pub tile_pos: TilePos,
}

/// The walk of one flow across placed tiles: each visited hex with its
/// entry and forced exit edge, until an empty hex or the board edge.
pub open(crate) spec fn spec_trace(
    board: Seq<Tile>,
    pos: TilePos,
    dir: Direction,
    fuel: nat,
) -> Seq<(TilePos, Direction, Direction)>
    decreases fuel,
{
    if fuel == 0 {
        Seq::empty()
    } else {
        match spec_tile_at(board, pos) {
            Tile::Placed(t) => {
                let exit = spec_placed_exit(t.type_, t.rotation, dir);
                let here = seq![(pos, dir, exit)];
                match spec_adjacent(board, pos, exit) {
                    AdjacentTile::Tile(np) => here + spec_trace(
                        board,
                        np,
                        spec_dir_reversed(exit),
                        (fuel - 1) as nat,
                    ),
                    AdjacentTile::BoardEdge(_) => here,
                }
            },
            _ => Seq::empty(),
        }
    }
}

/// Walk one flow from the edge of `pos` named by `dir`, collecting each
/// visited hex with its entry and exit edges, for drawing the flow.
pub fn trace_flow(game: &Game, pos: TilePos, dir: Direction) -> (r: Vec<
    (TilePos, Direction, Direction),
>)
    requires
        game.wf(),
        board_edge_ok(game.model()),
        pos.near(),
    ensures
        r@ == spec_trace(game.model().board, pos, dir, FLOOD_FUEL as nat),
{
    let mut r: Vec<(TilePos, Direction, Direction)> = Vec::new();
    trace_steps(game, pos, dir, FLOOD_FUEL, &mut r);
    r
}

/// One step of the flow walk, bounded by generous fuel.
fn trace_steps(
    game: &Game,
    pos: TilePos,
    dir: Direction,
    fuel: u32,
    out: &mut Vec<(TilePos, Direction, Direction)>,
)
    requires
        game.wf(),
        board_edge_ok(game.model()),
        pos.near(),
    ensures
        final(out)@ == old(out)@ + spec_trace(game.model().board, pos, dir, fuel as nat),
    decreases fuel,
{
    if fuel == 0 {
        proof {
            assert(out@ =~= out@ + Seq::<(TilePos, Direction, Direction)>::empty());
        }
        return ;
    }
    match *game.tile(pos) {
        Tile::Placed(t) => {
            proof {
                assert(tile_wf(spec_tile_at(game.model().board, pos)));
            }
            let exit = t.exit_from_entrance(dir);
            let ghost o0 = out@;
            out.push((pos, dir, exit));
            proof {
                assert(out@ =~= o0 + seq![(pos, dir, exit)]);
            }
            match game.adjacent_tile(pos, exit) {
                AdjacentTile::Tile(np) => {
                    proof {
                        if !on_grid(np) {
                            assert(spec_tile_at(game.model().board, np) is NotOnBoard);
                        }
                    }
                    trace_steps(game, np, exit.reversed(), fuel - 1, out);
                    proof {
                        assert(out@ =~= old(out)@ + spec_trace(
                            game.model().board,
                            pos,
                            dir,
                            fuel as nat,
                        ));
                    }
                },
                AdjacentTile::BoardEdge(_) => {},
            }
        },
        _ => {
            proof {
                assert(out@ =~= out@ + Seq::<(TilePos, Direction, Direction)>::empty());
            }
        },
    }
}

/// The first column of each board row that is actually on the hexagon.
pub open spec fn spec_first_col(row: int) -> int {
    if row <= 3 {
        0
    } else {
        row - 3
    }
}

/// A single decimal digit as text; anything else reads as a question mark.
pub open spec fn spec_digit(n: int) -> Seq<char> {
    if n == 0 {
        "0"@
    } else if n == 1 {
        "1"@
    } else if n == 2 {
        "2"@
    } else if n == 3 {
        "3"@
    } else if n == 4 {
        "4"@
    } else if n == 5 {
        "5"@
    } else if n == 6 {
        "6"@
    } else if n == 7 {
        "7"@
    } else if n == 8 {
        "8"@
    } else if n == 9 {
        "9"@
    } else {
        "?"@
    }
}

/// A board row as a letter, bottom row first; anything off the board
/// reads as a question mark.
pub open spec fn spec_row_letter(row: int) -> Seq<char> {
    if row == 0 {
        "A"@
    } else if row == 1 {
        "B"@
    } else if row == 2 {
        "C"@
    } else if row == 3 {
        "D"@
    } else if row == 4 {
        "E"@
    } else if row == 5 {
        "F"@
    } else if row == 6 {
        "G"@
    } else {
        "?"@
    }
}

/// A rotation as a compass word.
pub open spec fn spec_rot_word(r: Rotation) -> Seq<char> {
    if r.0 == 0 {
        "N"@
    } else if r.0 == 1 {
        "NE"@
    } else if r.0 == 2 {
        "SE"@
    } else if r.0 == 3 {
        "S"@
    } else if r.0 == 4 {
        "SW"@
    } else {
        "NW"@
    }
}

/// The side owned by `player`, scanning sides from index `i`; the top
/// side when the player owns none.
pub open(crate) spec fn spec_side_of_player(
    sides: Seq<Option<Player>>,
    player: Player,
    i: int,
) -> Rotation
    decreases 6 - i,
{
    if i < 0 || i >= 6 {
        Rotation(0)
    } else if sides[i] == Some(player) {
        Rotation(i as u8)
    } else {
        spec_side_of_player(sides, player, i + 1)
    }
}

/// The text of one move in board notation, as seen from the acting
/// player's own side: player number, rotated position, tile shape, and
/// the placement rotation as a compass word.
pub open(crate) spec fn spec_format_move(
    m: GameV,
    player: Player,
    tile: TileType,
    pos: TilePos,
    rotation: Rotation,
) -> Seq<char> {
    let view_rotation = spec_rot_reversed(spec_side_of_player(m.sides, player, 0));
    let center = TilePos { row: 3, col: 3 };
    let rotated = spec_pos_plus(
        center,
        spec_vec_rotate(crate::game::spec_pos_minus(pos, center), view_rotation),
    );
    let col_num = rotated.col - spec_first_col(rotated.row as int) + 1;
    "P"@ + spec_digit(player + 1) + spec_row_letter(rotated.row as int) + (if 0 <= rotated.row <= 6
        && 0 <= col_num <= 9 {
        spec_digit(col_num)
    } else {
        "?"@
    }) + "T"@ + spec_digit(crate::game::spec_num_sharps(tile)) + spec_rot_word(rotation)
}

/// Append one decimal digit (or a question mark) to the text.
fn push_digit(s: &mut String, n: usize)
    ensures
        final(s)@ == old(s)@ + spec_digit(n as int),
{
    if n == 0 {
        s.append("0");
    } else if n == 1 {
        s.append("1");
    } else if n == 2 {
        s.append("2");
    } else if n == 3 {
        s.append("3");
    } else if n == 4 {
        s.append("4");
    } else if n == 5 {
        s.append("5");
    } else if n == 6 {
        s.append("6");
    } else if n == 7 {
        s.append("7");
    } else if n == 8 {
        s.append("8");
    } else if n == 9 {
        s.append("9");
    } else {
        s.append("?");
    }
}

/// Name one move in board notation from the acting player's perspective.
pub fn format_move(
    player: Player,
    tile: TileType,
    pos: TilePos,
    rotation: Rotation,
    game: &Game,
) -> (r: String)
    requires
        game.wf(),
        on_grid(pos),
        crate::game::rotation_valid(rotation),
        player < 8,
    ensures
        r@ == spec_format_move(game.model(), player, tile, pos, rotation),
{
    let mut player_side_rotation = Rotation(0);
    let mut found: bool = false;
    let mut side: u8 = 0;
    while side < 6
        invariant
            side <= 6,
            game.wf(),
            player_side_rotation.0 < 6,
            !found ==> player_side_rotation == Rotation(0),
            !found ==> spec_side_of_player(game.model().sides, player, side as int)
                == spec_side_of_player(game.model().sides, player, 0),
            !found ==> forall|j: int|
                0 <= j < side ==> game.model().sides[j] != Some(player),
            found ==> player_side_rotation == spec_side_of_player(game.model().sides, player, 0),
        decreases 6 - side,
    {
        if !found {
            match game.player_on_side(Rotation(side)) {
                Some(p) => {
                    if p == player {
                        player_side_rotation = Rotation(side);
                        found = true;
                    }
                },
                None => {},
            }
        }
        side = side + 1;
    }
    proof {
        if !found {
            assert(spec_side_of_player(game.model().sides, player, 6) == Rotation(0));
        }
        assert(player_side_rotation == spec_side_of_player(game.model().sides, player, 0));
        assert(player_side_rotation.0 < 6);
    }

    let view_rotation = player_side_rotation.reversed();
    let center = TilePos { row: 3, col: 3 };
    let rotated_pos = center.plus(pos.minus(center).rotate(view_rotation));

    let mut s = String::new();
    s.append("P");
    push_digit(&mut s, player + 1);

    if rotated_pos.row == 0 {
        s.append("A");
    } else if rotated_pos.row == 1 {
        s.append("B");
    } else if rotated_pos.row == 2 {
        s.append("C");
    } else if rotated_pos.row == 3 {
        s.append("D");
    } else if rotated_pos.row == 4 {
        s.append("E");
    } else if rotated_pos.row == 5 {
        s.append("F");
    } else if rotated_pos.row == 6 {
        s.append("G");
    } else {
        s.append("?");
    }

    let first_col: i32 = if rotated_pos.row <= 3 {
        0
    } else if rotated_pos.row <= 10 {
        rotated_pos.row - 3
    } else {
        0
    };
    let col_num: i32 = rotated_pos.col - first_col + 1;
    proof {
        if 0 <= rotated_pos.row <= 6 {
            assert(first_col == spec_first_col(rotated_pos.row as int));
        }
    }
    if 0 <= col_num && col_num <= 9 && 0 <= rotated_pos.row && rotated_pos.row <= 6 {
        push_digit(&mut s, col_num as usize);
    } else {
        s.append("?");
    }

    s.append("T");
    push_digit(&mut s, tile.num_sharps());

    if rotation.0 == 0 {
        s.append("N");
    } else if rotation.0 == 1 {
        s.append("NE");
    } else if rotation.0 == 2 {
        s.append("SE");
    } else if rotation.0 == 3 {
        s.append("S");
    } else if rotation.0 == 4 {
        s.append("SW");
    } else {
        s.append("NW");
    }
    proof {
        assert(s@ =~= spec_format_move(game.model(), player, tile, pos, rotation));
    }
    s
}

} // verus!
