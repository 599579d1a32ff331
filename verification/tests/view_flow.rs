use std::cell::RefCell;

use flows::game::{Action, Direction, GameSettings, GameViewer, Rotation, TilePos, TileType};
use flows::ui::{format_move, trace_flow};
use flows::view::{Backend, GameView};

/// A backend that replays a fixed script of actions and records whatever
/// is submitted to it.
struct ScriptBackend {
    actions: RefCell<Vec<Action>>,
    submitted: RefCell<Vec<Action>>,
}

impl ScriptBackend {
    fn new(actions: Vec<Action>) -> ScriptBackend {
        ScriptBackend {
            actions: RefCell::new(actions),
            submitted: RefCell::new(Vec::new()),
        }
    }
}

impl Backend for ScriptBackend {
    fn viewer(&self) -> GameViewer {
        GameViewer::Admin
    }

    fn update(&self) {}

    fn actions_from_index(&self, index: usize) -> Vec<Action> {
        self.actions.borrow().iter().skip(index).cloned().collect()
    }

    fn action_history(&self) -> Vec<Action> {
        self.actions.borrow().clone()
    }

    fn submit_action(&self, action: Action) {
        self.submitted.borrow_mut().push(action);
        self.actions.borrow_mut().push(action);
    }
}

fn init() -> Action {
    Action::InitializeGame(GameSettings {
        num_players: 2,
        version: 0,
    })
}

fn place(player: usize, row: i32, col: i32) -> Action {
    Action::PlaceTile {
        player,
        tile: TileType::NoSharps,
        pos: TilePos::new(row, col),
        rotation: Rotation(1),
    }
}

#[test]
fn test_game_view_replays_backend_history() {
    let backend = ScriptBackend::new(vec![init(), place(0, 0, 3)]);
    let view = GameView::new(backend);
    assert_eq!(view.total_actions(), 2);
    assert!(view.game().is_some());
    let game = view.game().as_ref().unwrap();
    assert!(matches!(
        *game.tile(TilePos::new(0, 3)),
        flows::game::Tile::Placed(_)
    ));
    assert_eq!(view.history_cursor(), None);
}

#[test]
fn test_game_view_submit_and_poll() {
    let backend = ScriptBackend::new(vec![init()]);
    let mut view = GameView::new(backend);
    assert!(view.submit_action(place(0, 0, 3)).is_ok());
    // A refused action changes nothing and is not handed on.
    assert!(view.submit_action(place(0, 0, 3)).is_err());
    assert_eq!(view.poll_backend(), 2);
}

#[test]
fn test_game_view_history_navigation() {
    let backend = ScriptBackend::new(vec![init(), place(0, 0, 3), place(1, 1, 3)]);
    let mut view = GameView::new(backend);
    assert!(view.can_history_backward());
    assert!(!view.can_history_forward());
    view.history_backward();
    assert_eq!(view.history_cursor(), Some(2));
    view.history_backward();
    assert_eq!(view.history_cursor(), Some(1));
    assert!(view.can_history_forward());
    view.history_forward();
    assert_eq!(view.history_cursor(), Some(2));
    view.history_forward();
    assert_eq!(view.history_cursor(), None);
    view.history_backward();
    view.go_to_live();
    assert_eq!(view.history_cursor(), None);
}

#[test]
fn test_game_view_invalid_history_gives_no_game() {
    // A stream that does not start with initialization cannot be replayed.
    let backend = ScriptBackend::new(vec![place(0, 0, 3)]);
    let view = GameView::new(backend);
    assert!(view.game().is_none());
}

#[test]
fn test_trace_flow_single_tile() {
    let game = flows::game::Game::new(GameSettings {
        num_players: 2,
        version: 0,
    })
    .with_tile_placed(TileType::NoSharps, TilePos::new(0, 3), Rotation(1));
    let path = trace_flow(&game, TilePos::new(0, 3), Direction::SouthEast);
    assert_eq!(
        path,
        vec![(TilePos::new(0, 3), Direction::SouthEast, Direction::NorthWest)]
    );
    // Tracing from an empty hex yields nothing.
    let empty = trace_flow(&game, TilePos::new(3, 3), Direction::SouthEast);
    assert!(empty.is_empty());
}

#[test]
fn test_format_move_notation() {
    let game = flows::game::Game::new(GameSettings {
        num_players: 2,
        version: 0,
    });
    // Player 0 sits on side 0, so their view is unrotated.
    let text = format_move(0, TileType::TwoSharps, TilePos::new(1, 2), Rotation(1), &game);
    assert_eq!(text, "P1B3T2NE");
    let text2 = format_move(0, TileType::NoSharps, TilePos::new(0, 0), Rotation(0), &game);
    assert_eq!(text2, "P1A1T0N");
    // Player 1 sits on side 2; the same cell reads in their rotation.
    let text3 = format_move(1, TileType::OneSharp, TilePos::new(3, 3), Rotation(3), &game);
    assert_eq!(text3, "P2D4T1S");
}
