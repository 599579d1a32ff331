//! A user's view of a running game, fed by a backend.
//!
//! The backend is whatever carries the action stream — an in-memory game,
//! a server connection, or a machine opponent; its implementations live
//! with the host program, so nothing is assumed about what its methods
//! return. Every decision taken on the returned data (replaying a
//! history, stepping through moves) is made by verified code here.
use crate::game::{
    action_wf, board_edge_ok, check_action_wf, settings_valid, spec_first_settings, Action, Game,
    GameViewer,
};
use vstd::prelude::*;
use vstd::string::StringExecFns;

verus! {

/// A connection for a specific user to a system that shows the history of
/// actions in a game (hiding what the user cannot see), can be polled for
/// additional actions, and accepts actions on the user's behalf.
pub trait Backend: Sized {
    /// Who this connection belongs to.
    fn viewer(&self) -> GameViewer;

    /// Give the backend a chance to pull in fresh data.
    fn update(&self);

    /// The visible actions from the given index on.
    fn actions_from_index(&self, index: usize) -> Vec<Action>;

    /// The whole visible action history.
    fn action_history(&self) -> Vec<Action>;

    /// Submit an action to take on the user's behalf.
    fn submit_action(&self, action: Action);
}

/// A recorded history the engine can replay: an initialization action
/// first, and every later action well formed for the chosen seat count.
pub open spec fn history_ok(h: Seq<Action>) -> bool {
    &&& h.len() >= 1
    &&& h[0] matches Action::InitializeGame(s) && settings_valid(s)
    &&& forall|i: int|
        1 <= i < h.len() ==> action_wf(#[trigger] h[i], spec_first_settings(h).num_players as int)
}

/// Whether a history can be replayed: see `history_ok`.
pub fn check_history(h: &Vec<Action>) -> (b: bool)
    ensures
        b == history_ok(h@),
{
    if h.len() == 0 {
        return false;
    }
    let n: usize = match h[0] {
        Action::InitializeGame(s) => {
            if s.version != 0 || s.num_players < 2 || s.num_players > 3 {
                return false;
            }
            s.num_players
        },
        _ => {
            return false;
        },
    };
    let mut i: usize = 1;
    while i < h.len()
        invariant
            1 <= i <= h@.len(),
            h@[0] matches Action::InitializeGame(s) && settings_valid(s) && s.num_players == n,
            forall|j: int| 1 <= j < i ==> action_wf(#[trigger] h@[j], n as int),
        decreases h@.len() - i,
    {
        if !check_action_wf(&h[i], n) {
            return false;
        }
        i = i + 1;
    }
    true
}

/// The index of the latest placement strictly before `i`, if any.
pub open spec fn spec_prev_place(h: Seq<Action>, i: int) -> Option<int>
    decreases i + 1,
{
    if i < 0 || i >= h.len() {
        None
    } else if h[i] matches Action::PlaceTile { .. } {
        Some(i)
    } else {
        spec_prev_place(h, i - 1)
    }
}

/// The index of the earliest placement at `i` or later, if any.
pub open spec fn spec_next_place(h: Seq<Action>, i: int) -> Option<int>
    decreases h.len() - i,
{
    if i < 0 || i >= h.len() {
        None
    } else if h[i] matches Action::PlaceTile { .. } {
        Some(i)
    } else {
        spec_next_place(h, i + 1)
    }
}

/// The latest placement strictly before `from_index` in the history.
fn find_prev_move_in(h: &Vec<Action>, from_index: usize) -> (r: Option<usize>)
    ensures
        ({
            let start = if from_index > h@.len() {
                h@.len() as int
            } else {
                from_index as int
            };
            match r {
                Some(i) => spec_prev_place(h@, start - 1) == Some(i as int),
                None => spec_prev_place(h@, start - 1) is None,
            }
        }),
{
    let mut i: usize = if from_index > h.len() {
        h.len()
    } else {
        from_index
    };
    while i > 0
        invariant
            i <= h@.len(),
            ({
                let start = if from_index > h@.len() {
                    h@.len() as int
                } else {
                    from_index as int
                };
                spec_prev_place(h@, start - 1) == spec_prev_place(h@, i - 1)
            }),
        decreases i,
    {
        i = i - 1;
        if matches!(h[i], Action::PlaceTile { .. }) {
            return Some(i);
        }
    }
    None
}

/// The earliest placement strictly after `from_index` in the history.
fn find_next_move_in(h: &Vec<Action>, from_index: usize) -> (r: Option<usize>)
    requires
        from_index < usize::MAX,
    ensures
        match r {
            Some(i) => spec_next_place(h@, from_index + 1) == Some(i as int),
            None => spec_next_place(h@, from_index + 1) is None,
        },
{
    let mut i: usize = from_index + 1;
    while i < h.len()
        invariant
            from_index + 1 <= i,
            i <= h@.len() || spec_next_place(h@, from_index + 1) is None,
            i <= h@.len() ==> spec_next_place(h@, from_index + 1) == spec_next_place(h@, i as int),
        decreases h@.len() - i,
    {
        if matches!(h[i], Action::PlaceTile { .. }) {
            return Some(i);
        }
        i = i + 1;
    }
    proof {
        if i <= h@.len() {
            assert(spec_next_place(h@, i as int) is None);
        }
    }
    None
}

/// One user's live view of a game: replays the backend's action stream
/// into a `Game`, lets locally submitted actions apply immediately, and
/// supports stepping backwards and forwards through the recorded moves.
pub struct GameView<B: Backend> {
    pub(crate) backend: B,
    pub(crate) action_count: usize,
    pub(crate) history_cursor: Option<usize>,
    pub(crate) locally_applied_actions: bool,
    pub(crate) game: Option<Game>,
}

impl<B: Backend> GameView<B> {
    /// How many actions the view has consumed so far.
    pub open(crate) spec fn spec_action_count(self) -> usize {
        self.action_count
    }

    /// Where the view stands in the history, `None` when live.
    pub open(crate) spec fn spec_cursor(self) -> Option<usize> {
        self.history_cursor
    }

    /// The game the view holds, if any.
    pub open(crate) spec fn spec_game(self) -> Option<Game> {
        self.game
    }

    /// Whatever game the view holds is a well-formed engine state.
    pub open(crate) spec fn wf(self) -> bool {
        match self.game {
            Some(g) => g.wf() && board_edge_ok(g.model()),
            None => true,
        }
    }

    /// A fresh view over the given backend, polled once.
    pub fn new(backend: B) -> (s: GameView<B>)
        ensures
            s.wf(),
    {
        let mut s = GameView {
            backend,
            action_count: 0,
            history_cursor: None,
            locally_applied_actions: false,
            game: None,
        };
        s.poll_backend();
        s
    }

    /// Who is looking through this view.
    pub fn viewer(&self) -> GameViewer {
        self.backend.viewer()
    }

    /// Pull fresh actions from the backend: apply them incrementally when
    /// the view is live and clean, otherwise rebuild the game by
    /// replaying the (possibly truncated) history. A history the engine
    /// cannot replay leaves no game. Returns the new action count.
    pub fn poll_backend(&mut self) -> (r: usize)
        requires
            old(self).wf(),
        ensures
            final(self).wf(),
            r == final(self).spec_action_count(),
            final(self).spec_cursor() == old(self).spec_cursor(),
    {
        self.backend.update();
        let new_actions = self.backend.actions_from_index(self.action_count);

        if !new_actions.is_empty() || self.history_cursor.is_some() {
            if !self.locally_applied_actions && self.game.is_some() && self.history_cursor.is_none()
            {
                self.action_count = match self.action_count.checked_add(new_actions.len()) {
                    Some(c) => c,
                    None => usize::MAX,
                };
                let n = match &self.game {
                    Some(g) => g.num_players(),
                    None => 0,
                };
                let mut i: usize = 0;
                while i < new_actions.len()
                    invariant
                        self.wf(),
                        self.game is Some,
                        self.history_cursor == old(self).history_cursor,
                        n == self.game->0.model().settings.num_players,
                    decreases new_actions@.len() - i,
                {
                    let action = new_actions[i];
                    if check_action_wf(&action, n) {
                        match &mut self.game {
                            Some(g) => {
                                let _ = g.apply_action(action);
                            },
                            None => {},
                        }
                    }
                    i = i + 1;
                }
            } else {
                let all_actions = self.backend.action_history();
                self.action_count = all_actions.len();

                let actions_to_replay: Vec<Action> = match self.history_cursor {
                    Some(cursor) => {
                        let mut prefix: Vec<Action> = Vec::new();
                        let upto = if cursor >= all_actions.len() {
                            all_actions.len()
                        } else {
                            cursor + 1
                        };
                        let mut i: usize = 0;
                        while i < upto
                            invariant
                                upto <= all_actions@.len(),
                                i <= upto,
                                prefix@ == all_actions@.subrange(0, i as int),
                            decreases upto - i,
                        {
                            prefix.push(all_actions[i]);
                            proof {
                                assert(prefix@ =~= all_actions@.subrange(0, i + 1));
                            }
                            i = i + 1;
                        }
                        prefix
                    },
                    None => all_actions,
                };

                if check_history(&actions_to_replay) {
                    match Game::from_actions(actions_to_replay) {
                        Ok(g) => {
                            self.game = Some(g);
                        },
                        Err(_) => {
                            self.game = None;
                        },
                    }
                } else {
                    self.game = None;
                }
                self.locally_applied_actions = false;
            }
        }
        self.action_count
    }

    /// Apply an action locally (jumping back to the live game first) and
    /// hand it to the backend; refused actions are reported and change
    /// nothing.
    pub fn submit_action(&mut self, action: Action) -> (r: Result<(), String>)
        requires
            old(self).wf(),
        ensures
            final(self).wf(),
    {
        self.history_cursor = None;
        self.poll_backend();
        match &mut self.game {
            None => Err(String::from_str("Game not initialized")),
            Some(g) => {
                if !check_action_wf(&action, g.num_players()) {
                    return Err(String::from_str("Malformed action"));
                }
                match g.apply_action(action) {
                    Ok(()) => {
                        self.locally_applied_actions = true;
                        self.backend.submit_action(action);
                        Ok(())
                    },
                    Err(e) => Err(e),
                }
            },
        }
    }

    /// The game as currently replayed, if the history could be replayed.
    pub fn game(&self) -> (g: &Option<Game>)
        ensures
            *g == self.spec_game(),
    {
        &self.game
    }

    /// How many actions the view has consumed from the backend.
    pub fn total_actions(&self) -> (r: usize)
        ensures
            r == self.spec_action_count(),
    {
        self.action_count
    }

    /// Where the view stands in the history, `None` when live.
    pub fn history_cursor(&self) -> (r: Option<usize>)
        ensures
            r == self.spec_cursor(),
    {
        self.history_cursor
    }

    /// Jump back to the live game.
    pub fn go_to_live(&mut self)
        requires
            old(self).wf(),
        ensures
            final(self).wf(),
            final(self).spec_cursor() is None,
    {
        if self.history_cursor.is_some() {
            self.history_cursor = None;
            self.poll_backend();
        }
    }

    /// Whether some placement lies before the current position.
    pub fn can_history_backward(&self) -> (r: bool)
        requires
            self.wf(),
    {
        let start_index = match self.history_cursor {
            Some(c) => c,
            None => self.action_count,
        };
        if start_index == 0 {
            return false;
        }
        let h = self.backend.action_history();
        find_prev_move_in(&h, start_index).is_some()
    }

    /// Whether the view is in the past with a later placement to step to.
    pub fn can_history_forward(&self) -> (r: bool)
        requires
            self.wf(),
    {
        match self.history_cursor {
            Some(cursor) => {
                if cursor == usize::MAX {
                    return false;
                }
                let h = self.backend.action_history();
                find_next_move_in(&h, cursor).is_some()
            },
            None => false,
        }
    }

    /// Step the cursor back to the previous placement, if any.
    pub fn history_backward(&mut self)
        requires
            old(self).wf(),
        ensures
            final(self).wf(),
    {
        let start_index = match self.history_cursor {
            Some(c) => c,
            None => self.action_count,
        };
        if start_index == 0 {
            return ;
        }
        let h = self.backend.action_history();
        match find_prev_move_in(&h, start_index) {
            Some(prev_move_index) => {
                self.history_cursor = Some(prev_move_index);
                self.poll_backend();
            },
            None => {},
        }
    }

    /// Step the cursor forward to the next placement, or back to live
    /// when none is left.
    pub fn history_forward(&mut self)
        requires
            old(self).wf(),
        ensures
            final(self).wf(),
    {
        match self.history_cursor {
            Some(cursor) => {
                if cursor == usize::MAX {
                    return ;
                }
                let h = self.backend.action_history();
                match find_next_move_in(&h, cursor) {
                    Some(next_move_index) => {
                        self.history_cursor = Some(next_move_index);
                    },
                    None => {
                        self.history_cursor = None;
                    },
                }
                self.poll_backend();
            },
            None => {},
        }
    }
}

} // verus!
