use flows::ai::{actions_equal, get_legal_moves, PathLengthEvaluator};
use flows::game::{
    Action, Direction, Game, GameOutcome, GameSettings, GameViewer, PlacedTile, Rotation, Tile,
    TilePos, TileType,
};
use flows::legality::{canonical_node, is_move_legal, is_satisfiable, LegalityError};
use flows::game::Direction::{East, NorthEast, NorthWest, SouthEast, SouthWest, West};
use flows::game::TileVec;

fn new_game(players: usize) -> Game {
    Game::new(GameSettings {
        num_players: players,
        version: 0,
    })
}

#[test]
fn test_tile_exit_tables() {
    // The no-sharps tile: three gentle bends plus the straight segment.
    assert_eq!(TileType::NoSharps.exit_from_entrance(SouthWest), NorthWest);
    assert_eq!(TileType::NoSharps.exit_from_entrance(West), East);
    assert_eq!(TileType::NoSharps.exit_from_entrance(NorthEast), SouthEast);
    // Each permutation is self-inverse with no fixed point.
    for t in [
        TileType::NoSharps,
        TileType::OneSharp,
        TileType::TwoSharps,
        TileType::ThreeSharps,
    ] {
        for d in Direction::all_directions() {
            let e = t.exit_from_entrance(d);
            assert_ne!(e, d);
            assert_eq!(t.exit_from_entrance(e), d);
        }
    }
}

#[test]
fn test_placed_tile_rotated_exit() {
    // Rotating conjugates the base permutation: unrotate, look up, rotate.
    let t = PlacedTile::new(TileType::OneSharp, Rotation(2));
    assert_eq!(t.exit_from_entrance(Direction::NorthWest), Direction::West);
    assert_eq!(t.exit_from_entrance(Direction::West), Direction::NorthWest);
    // A rotation of zero leaves the base permutation untouched.
    let u = PlacedTile::new(TileType::TwoSharps, Rotation(0));
    for d in Direction::all_directions() {
        assert_eq!(u.exit_from_entrance(d), TileType::TwoSharps.exit_from_entrance(d));
    }
}

#[test]
fn test_all_flows_shape() {
    for t in [
        TileType::NoSharps,
        TileType::OneSharp,
        TileType::TwoSharps,
        TileType::ThreeSharps,
    ] {
        let flows = t.all_flows();
        assert_eq!(flows.len(), 3);
        // Every direction appears in exactly one pair, smaller first.
        let mut seen = [false; 6];
        for (a, b) in flows {
            assert!((a as usize) < (b as usize));
            assert!(!seen[a as usize] && !seen[b as usize]);
            seen[a as usize] = true;
            seen[b as usize] = true;
        }
        assert!(seen.iter().all(|&s| s));
    }
    // The straight west-east segment comes last when present.
    assert_eq!(
        TileType::NoSharps.all_flows()[2],
        (Direction::West, Direction::East)
    );
    assert_eq!(
        TileType::TwoSharps.all_flows()[2],
        (Direction::West, Direction::East)
    );
}

#[test]
fn test_num_sharps_round_trip() {
    for n in 0..4 {
        assert_eq!(TileType::from_num_sharps(n).num_sharps(), n);
    }
}

#[test]
fn test_unique_rotations() {
    assert_eq!(
        TileType::get_unique_rotations(TileType::NoSharps),
        vec![Rotation(0), Rotation(1), Rotation(2)]
    );
    assert_eq!(
        TileType::get_unique_rotations(TileType::OneSharp).len(),
        6
    );
    assert_eq!(
        TileType::get_unique_rotations(TileType::TwoSharps).len(),
        3
    );
    assert_eq!(
        TileType::get_unique_rotations(TileType::ThreeSharps),
        vec![Rotation(0), Rotation(1)]
    );
}

#[test]
fn test_direction_arithmetic() {
    assert_eq!(Direction::SouthWest.rotate(Rotation(2)), Direction::NorthWest);
    assert_eq!(Direction::East.rotate(Rotation(3)), Direction::West);
    assert_eq!(Direction::East.reversed(), Direction::West);
    assert_eq!(Direction::SouthEast.reversed(), Direction::NorthWest);
    let v = Direction::NorthEast.tile_vec();
    assert_eq!((v.row, v.col), (1, 1));
    assert_eq!(Direction::all_directions().len(), 6);
}

#[test]
fn test_board_layout() {
    let game = new_game(2);
    // Clipped corners are off board; the centre band is playable.
    assert_eq!(*game.tile(TilePos::new(6, 0)), Tile::NotOnBoard);
    assert_eq!(*game.tile(TilePos::new(0, 6)), Tile::NotOnBoard);
    assert_eq!(*game.tile(TilePos::new(3, 3)), Tile::Empty);
    assert_eq!(*game.tile(TilePos::new(0, 0)), Tile::Empty);
    // Reads outside the grid come back off board.
    assert_eq!(*game.tile(TilePos::new(-1, 2)), Tile::NotOnBoard);
    assert_eq!(*game.tile(TilePos::new(2, 9)), Tile::NotOnBoard);
    assert_eq!(game.center_pos(), TilePos::new(3, 3));
    // Side ownership: player 0 on side 0, player 1 on side 2.
    assert_eq!(game.player_on_side(Rotation(0)), Some(0));
    assert_eq!(game.player_on_side(Rotation(1)), None);
    assert_eq!(game.player_on_side(Rotation(2)), Some(1));
    assert_eq!(game.player_on_side(Rotation(4)), None);
    let three = new_game(3);
    assert_eq!(three.player_on_side(Rotation(4)), Some(2));
}

#[test]
fn test_edges_on_board_edge_template() {
    let game = new_game(2);
    let edges = game.edges_on_board_edge(Rotation(0));
    assert_eq!(
        edges,
        vec![
            (TilePos::new(0, 0), Direction::SouthEast),
            (TilePos::new(0, 1), Direction::SouthWest),
            (TilePos::new(0, 1), Direction::SouthEast),
            (TilePos::new(0, 2), Direction::SouthWest),
            (TilePos::new(0, 2), Direction::SouthEast),
            (TilePos::new(0, 3), Direction::SouthWest),
            (TilePos::new(0, 3), Direction::SouthEast),
        ]
    );
    // The opposite side is the template rotated around the centre.
    let opposite = game.edges_on_board_edge(Rotation(3));
    assert_eq!(opposite[0], (TilePos::new(6, 6), Direction::NorthWest));
    assert_eq!(opposite.len(), 7);
    for (pos, _) in opposite {
        assert_eq!(pos.row, 6);
    }
}

#[test]
fn test_neighbor_lookups() {
    let game = new_game(2);
    assert_eq!(
        game.get_neighbor_pos(TilePos::new(3, 3), Direction::East),
        Some(TilePos::new(3, 4))
    );
    // Across the board edge there is no neighbour.
    assert_eq!(game.get_neighbor_pos(TilePos::new(0, 0), Direction::SouthWest), None);
    assert!(game.is_border_edge(TilePos::new(0, 0), Direction::SouthWest));
    assert!(!game.is_border_edge(TilePos::new(3, 3), Direction::East));
    assert_eq!(
        game.get_direction_towards(TilePos::new(3, 3), TilePos::new(4, 4)),
        Some(Direction::NorthEast)
    );
    assert_eq!(
        game.get_direction_towards(TilePos::new(3, 3), TilePos::new(5, 3)),
        None
    );
}

#[test]
fn test_oracle_single_demands_all_satisfiable() {
    // Every pair of distinct directions, normalised, is realisable alone.
    for a in Direction::all_directions() {
        for b in Direction::all_directions() {
            if a != b {
                let demand = if (a as usize) < (b as usize) { (a, b) } else { (b, a) };
                assert!(
                    is_satisfiable(&vec![demand]),
                    "single demand {:?} should be satisfiable",
                    demand
                );
            }
        }
    }
    // The empty demand set is trivially satisfiable.
    assert!(is_satisfiable(&Vec::new()));
}

#[test]
fn test_oracle_rejects_two_straights() {
    // No single tile carries two different straight segments.
    let demands = vec![
        (Direction::West, Direction::East),
        (Direction::NorthWest, Direction::SouthEast),
    ];
    assert!(!is_satisfiable(&demands));
}

#[test]
fn test_canonical_node_symmetric() {
    let game = new_game(2);
    let a = TilePos::new(2, 2);
    let b = TilePos::new(3, 3);
    assert_eq!(canonical_node(a, b, &game), canonical_node(b, a, &game));
    let c = TilePos::new(2, 3);
    assert_eq!(canonical_node(a, c, &game), canonical_node(c, a, &game));
}

#[test]
fn test_is_move_legal_deterministic() {
    let mut game = new_game(2);
    game = game.with_tile_placed(TileType::OneSharp, TilePos::new(3, 0), Rotation(0));
    game = game.with_tile_placed(TileType::TwoSharps, TilePos::new(2, 2), Rotation(1));
    let first = is_move_legal(&game);
    let second = is_move_legal(&game);
    assert_eq!(first, second);
    assert_eq!(first, Ok(()));
}

#[test]
fn test_recompute_flows_idempotent() {
    // A vertical chain of straights carrying player 0's flow part-way.
    let mut game = new_game(2);
    for row in 0..3 {
        game = game.with_tile_placed(TileType::NoSharps, TilePos::new(row, 3), Rotation(1));
    }
    let snapshot = |g: &Game| {
        let mut caches = Vec::new();
        for r in 0..7 {
            for c in 0..7 {
                if let Tile::Placed(t) = *g.tile(TilePos::new(r, c)) {
                    for d in Direction::all_directions() {
                        caches.push(t.flow_cache(d));
                    }
                }
            }
        }
        caches
    };
    let before = snapshot(&game);
    let outcome_before = game.outcome().clone();
    game.recompute_flows();
    assert_eq!(snapshot(&game), before);
    assert_eq!(*game.outcome(), outcome_before);
    game.recompute_flows();
    assert_eq!(snapshot(&game), before);
    assert_eq!(*game.outcome(), outcome_before);
}

#[test]
fn test_flow_reaches_part_way() {
    // Three straights up column 3 carry player 0's flow to row 2.
    let mut game = new_game(2);
    for row in 0..3 {
        game = game.with_tile_placed(TileType::NoSharps, TilePos::new(row, 3), Rotation(1));
    }
    match *game.tile(TilePos::new(2, 3)) {
        Tile::Placed(t) => {
            assert_eq!(t.flow_cache(Direction::SouthEast), Some(0));
            assert_eq!(t.flow_cache(Direction::NorthWest), Some(0));
            assert_eq!(t.flow_cache(Direction::East), None);
        }
        _ => panic!("tile expected"),
    }
    assert!(game.outcome().is_none());
}

#[test]
fn test_vertical_chain_wins_and_game_over() {
    // A full chain from player 0's side to the opposite side wins,
    // even though it leaves player 1 plenty of room.
    let mut game = new_game(2);
    for row in 0..7 {
        game.set_current_player_for_testing(0);
        game.apply_action(Action::PlaceTile {
            player: 0,
            tile: TileType::NoSharps,
            pos: TilePos::new(row, 3),
            rotation: Rotation(1),
        })
        .unwrap();
    }
    assert_eq!(*game.outcome(), Some(GameOutcome::Victory(vec![0])));
    // The win is sticky and the game is read-only for placements now.
    let result = game.apply_action(Action::PlaceTile {
        player: 0,
        tile: TileType::NoSharps,
        pos: TilePos::new(3, 1),
        rotation: Rotation(0),
    });
    assert!(result.is_err());
    // A finished position is always reported legal.
    assert_eq!(is_move_legal(&game), Ok(()));
}

#[test]
fn test_apply_action_error_variants() {
    let mut game = new_game(2);
    // Initializing twice is refused.
    assert!(game
        .apply_action(Action::InitializeGame(GameSettings {
            num_players: 2,
            version: 0
        }))
        .is_err());
    // Drawing twice without placing is refused.
    game.apply_action(Action::DrawTile {
        player: 0,
        tile: TileType::NoSharps,
    })
    .unwrap();
    assert!(game
        .apply_action(Action::DrawTile {
            player: 0,
            tile: TileType::OneSharp
        })
        .is_err());
    // Revealing a different tile than held is refused.
    assert!(game
        .apply_action(Action::RevealTile {
            player: 0,
            tile: TileType::OneSharp
        })
        .is_err());
    assert!(game
        .apply_action(Action::RevealTile {
            player: 0,
            tile: TileType::NoSharps
        })
        .is_ok());
    // Placing a tile other than the one held is refused.
    assert!(game
        .apply_action(Action::PlaceTile {
            player: 0,
            tile: TileType::OneSharp,
            pos: TilePos::new(3, 3),
            rotation: Rotation(0)
        })
        .is_err());
    // Placing out of turn is refused.
    assert!(game
        .apply_action(Action::PlaceTile {
            player: 1,
            tile: TileType::NoSharps,
            pos: TilePos::new(3, 3),
            rotation: Rotation(0)
        })
        .is_err());
    // Placing on an occupied or off-board cell is refused.
    game.apply_action(Action::PlaceTile {
        player: 0,
        tile: TileType::NoSharps,
        pos: TilePos::new(3, 3),
        rotation: Rotation(0),
    })
    .unwrap();
    game.set_current_player_for_testing(0);
    game.apply_action(Action::DrawTile {
        player: 0,
        tile: TileType::NoSharps,
    })
    .unwrap();
    assert!(game
        .apply_action(Action::PlaceTile {
            player: 0,
            tile: TileType::NoSharps,
            pos: TilePos::new(3, 3),
            rotation: Rotation(0)
        })
        .is_err());
    assert!(game
        .apply_action(Action::PlaceTile {
            player: 0,
            tile: TileType::NoSharps,
            pos: TilePos::new(6, 0),
            rotation: Rotation(0)
        })
        .is_err());
}

#[test]
fn test_draw_depletes_supply() {
    // Draw and place one type until its ten tiles are gone; an eleventh
    // draw of that type is refused.
    let mut game = new_game(2);
    for _ in 0..10 {
        game.set_current_player_for_testing(0);
        game.apply_action(Action::DrawTile {
            player: 0,
            tile: TileType::ThreeSharps,
        })
        .unwrap();
        let moves = get_legal_moves(&game, 0, TileType::ThreeSharps);
        assert!(!moves.is_empty(), "some placement should be accepted");
        game.apply_action(moves[0]).unwrap();
        assert!(game.outcome().is_none(), "the scripted placements never win");
    }
    game.set_current_player_for_testing(0);
    assert!(game
        .apply_action(Action::DrawTile {
            player: 0,
            tile: TileType::ThreeSharps
        })
        .is_err());
    // The weighted draw never hands out a depleted type.
    for _ in 0..40 {
        assert_ne!(game.draw_random_tile(), TileType::ThreeSharps);
    }
}

#[test]
fn test_from_actions_replays_history() {
    let mut game = new_game(2);
    game.apply_action(Action::DrawTile {
        player: 0,
        tile: TileType::NoSharps,
    })
    .unwrap();
    game.apply_action(Action::PlaceTile {
        player: 0,
        tile: TileType::NoSharps,
        pos: TilePos::new(2, 2),
        rotation: Rotation(4),
    })
    .unwrap();
    let replayed = Game::from_actions(game.action_history_vec().clone()).unwrap();
    assert_eq!(replayed.current_player(), game.current_player());
    assert_eq!(replayed.action_history_vec().len(), game.action_history_vec().len());
    for r in 0..7 {
        for c in 0..7 {
            assert_eq!(
                *replayed.tile(TilePos::new(r, c)),
                *game.tile(TilePos::new(r, c))
            );
        }
    }
    // A history that refuses mid-way reports the error.
    let mut bad = game.action_history_vec().clone();
    bad.push(Action::InitializeGame(GameSettings {
        num_players: 2,
        version: 0,
    }));
    assert!(Game::from_actions(bad).is_err());
}

#[test]
fn test_action_visibility_and_performable() {
    let draw = Action::DrawTile {
        player: 1,
        tile: TileType::NoSharps,
    };
    assert!(draw.visible(GameViewer::Admin));
    assert!(draw.visible(GameViewer::Player(1)));
    assert!(!draw.visible(GameViewer::Player(0)));
    assert!(!draw.visible(GameViewer::Spectator));
    let place = Action::PlaceTile {
        player: 1,
        tile: TileType::NoSharps,
        pos: TilePos::new(3, 3),
        rotation: Rotation(0),
    };
    assert!(place.visible(GameViewer::Spectator));
    assert!(place.performable(GameViewer::Player(1)));
    assert!(!place.performable(GameViewer::Player(0)));
    assert!(!place.performable(GameViewer::Spectator));
    assert!(place.performable(GameViewer::Admin));
    assert!(!draw.performable(GameViewer::Player(1)));

    // The per-viewer history hides other players' draws.
    let mut game = new_game(2);
    game.apply_action(draw).unwrap();
    assert_eq!(game.actions_for_viewer(GameViewer::Admin).len(), 2);
    assert_eq!(game.actions_for_viewer(GameViewer::Player(0)).len(), 1);
    assert_eq!(game.actions_for_viewer(GameViewer::Player(1)).len(), 2);
}

#[test]
fn test_actions_equal_compares_fields() {
    let a = Action::PlaceTile {
        player: 0,
        tile: TileType::NoSharps,
        pos: TilePos::new(1, 2),
        rotation: Rotation(3),
    };
    let b = Action::PlaceTile {
        player: 0,
        tile: TileType::NoSharps,
        pos: TilePos::new(1, 2),
        rotation: Rotation(3),
    };
    let c = Action::PlaceTile {
        player: 0,
        tile: TileType::NoSharps,
        pos: TilePos::new(1, 2),
        rotation: Rotation(4),
    };
    assert!(actions_equal(&a, &b));
    assert!(!actions_equal(&a, &c));
    assert!(!actions_equal(
        &a,
        &Action::DrawTile {
            player: 0,
            tile: TileType::NoSharps
        }
    ));
    assert!(actions_equal(
        &Action::InitializeGame(GameSettings {
            num_players: 2,
            version: 0
        }),
        &Action::InitializeGame(GameSettings {
            num_players: 2,
            version: 0
        })
    ));
}

#[test]
fn test_get_legal_moves_on_empty_board() {
    let game = new_game(2);
    // Every playable cell accepts every distinct rotation on an empty board.
    let moves = get_legal_moves(&game, 0, TileType::ThreeSharps);
    assert_eq!(moves.len(), 37 * 2);
    let moves1 = get_legal_moves(&game, 0, TileType::OneSharp);
    assert_eq!(moves1.len(), 37 * 6);
    for m in &moves {
        match m {
            Action::PlaceTile { player, tile, pos, .. } => {
                assert_eq!(*player, 0);
                assert_eq!(*tile, TileType::ThreeSharps);
                assert_eq!(*game.tile(*pos), Tile::Empty);
            }
            _ => panic!("only placements expected"),
        }
    }
}

#[test]
fn test_do_automatic_actions_draws_and_reveals() {
    let mut game = new_game(2);
    game.do_automatic_actions();
    assert!(game.tile_in_hand(0).is_some());
    assert!(game.tile_in_hand(1).is_some());
    // The current player's tile was revealed, so revealing it again
    // matches what they hold.
    let held = game.tile_in_hand(0).unwrap();
    assert!(game
        .apply_action(Action::RevealTile {
            player: 0,
            tile: held
        })
        .is_ok());
}

#[test]
fn test_wall_blocks_player_zero_witness() {
    // Build the wall entirely through the engine and look at the witness.
    let mut game = new_game(2);
    let wall = [
        TilePos::new(3, 0),
        TilePos::new(3, 1),
        TilePos::new(3, 2),
        TilePos::new(3, 4),
        TilePos::new(3, 5),
        TilePos::new(3, 6),
        TilePos::new(3, 3),
    ];
    for &pos in &wall {
        game = game.with_tile_placed(TileType::OneSharp, pos, Rotation(0));
    }
    assert_eq!(is_move_legal(&game), Err(LegalityError::BlockedPlayer(0)));
}

#[test]
fn test_three_player_empty_board_all_legal() {
    // With an untouched board every seat still has a path, so any first
    // placement is accepted.
    let mut game = new_game(3);
    assert_eq!(is_move_legal(&game), Ok(()));
    game.set_current_player_for_testing(0);
    assert!(game
        .apply_action(Action::PlaceTile {
            player: 0,
            tile: TileType::TwoSharps,
            pos: TilePos::new(3, 3),
            rotation: Rotation(5),
        })
        .is_ok());
}

#[test]
fn test_rotation_composition() {
    for a in 0..6u8 {
        for b in 0..6u8 {
            assert_eq!(Rotation(a).plus(Rotation(b)).0, (a + b) % 6);
        }
        // Composing with the reverse is the identity.
        assert_eq!(Rotation(a).plus(Rotation(a).reversed()).0, 0);
    }
}

#[test]
fn test_tile_vec_rotation_full_circle() {
    let v = TileVec::new(2, -1);
    let mut w = v;
    for _ in 0..6 {
        w = w.rotate(Rotation(1));
    }
    assert_eq!(w, v);
    // A half turn is negation in axial coordinates.
    assert_eq!(v.rotate(Rotation(3)), v.neg());
}

#[test]
fn test_from_actions_initialization_only() {
    let game = Game::from_actions(vec![Action::InitializeGame(GameSettings {
        num_players: 2,
        version: 0,
    })])
    .unwrap();
    assert_eq!(game.num_players(), 2);
    assert_eq!(game.current_player(), 0);
    assert!(game.outcome().is_none());
    assert_eq!(game.action_history_vec().len(), 1);
}

#[test]
fn test_automatic_actions_keep_existing_hands() {
    let mut game = new_game(2);
    game.apply_action(Action::DrawTile {
        player: 1,
        tile: TileType::TwoSharps,
    })
    .unwrap();
    game.do_automatic_actions();
    // Player 1 keeps the tile they already held; player 0 drew a fresh one.
    assert_eq!(game.tile_in_hand(1), Some(TileType::TwoSharps));
    assert!(game.tile_in_hand(0).is_some());
}

#[test]
fn test_shortest_path_on_empty_board() {
    // From a bare start edge the cheapest win crosses all seven rows.
    let game = new_game(2);
    let eval = PathLengthEvaluator::new();
    assert_eq!(eval.get_shortest_path_len(0, &game), Some(7));
    assert_eq!(eval.get_shortest_path_len(1, &game), Some(7));
}

#[test]
fn test_shortest_path_rides_own_flow() {
    // Three straights up column 3 carry player 0's flow for free, so only
    // the three remaining rows still cost a tile each.
    let mut game = new_game(2);
    for row in 0..3 {
        game = game.with_tile_placed(TileType::NoSharps, TilePos::new(row, 3), Rotation(1));
    }
    let eval = PathLengthEvaluator::new();
    assert_eq!(eval.get_shortest_path_len(0, &game), Some(3));
    // The flow walk itself stops at the first empty hex.
    let (end, edge) = eval.follow_flow(TilePos::new(0, 3), Direction::SouthEast, 0, &game);
    assert_eq!(end, TilePos::new(3, 3));
    assert_eq!(edge, Direction::NorthWest);
}

#[test]
fn test_shortest_path_none_when_walled() {
    // The finished wall leaves player 0 no route at all.
    let mut game = new_game(2);
    for col in 0..7 {
        game = game.with_tile_placed(TileType::OneSharp, TilePos::new(3, col), Rotation(0));
    }
    let eval = PathLengthEvaluator::new();
    assert_eq!(eval.get_shortest_path_len(0, &game), None);
    assert!(eval.get_shortest_path_len(1, &game).is_some());
}
