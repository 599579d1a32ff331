//! The data model of the client/server conversation: rooms, users, and
//! the messages exchanged about them. These are plain values; connecting,
//! serialising and transporting them is the host program's business.
use crate::game::{Action, GameSettings, GameViewer};
use std::collections::HashMap;
use vstd::prelude::*;

verus! {

pub type UserId = u32;

pub type Username = String;

pub type RoomId = String;

pub type ReconnectToken = String;

/// What a client can ask of a server.
#[derive(Debug)]
pub enum ClientToServerMessage {
    /// Log in for the first time under a chosen name.
    LoginAsNewUser { username: Username },
    /// Resume an earlier session.
    LoginAsExistingUser { reconnect_token: ReconnectToken },
    /// Create a new room.
    CreateRoom { room_id: RoomId, game_settings: GameSettings },
    /// Subscribe to a room and receive updates when there are actions in
    /// the game or the room state changes.
    SubscribeRoom { room_id: RoomId },
    /// Join the game in a room.
    JoinRoomGame { room_id: RoomId },
    /// Take an action in a room's game.
    SubmitAction { room_id: RoomId, action: Action },
}

/// One logged-in user.
#[derive(Clone, Debug)]
pub struct User {
    pub user_id: UserId,
    pub username: Username,
}

/// What the lobby shows of a room.
#[derive(Clone, Debug)]
pub struct RoomPreview {
    pub room_id: RoomId,
    pub game_settings: GameSettings,
    pub players: Vec<User>,
}

/// The full state of a room.
#[derive(Clone, Debug)]
pub struct RoomInfo {
    pub game_settings: GameSettings,
    pub players: Vec<User>,
    pub user_to_game_viewer: HashMap<UserId, GameViewer>,
}

/// What a server reports back to a client.
#[derive(Debug)]
pub enum ServerToClientMessage {
    /// A request the server could not act on, echoed with the reason.
    InvalidRequest { message: ClientToServerMessage, reason: String },
    /// The login succeeded.
    Connected { your_user: User, reconnect_token: ReconnectToken },
    /// The rooms open in the lobby.
    RoomsList { rooms: Vec<RoomPreview> },
    /// A room's state.
    RoomInfo { room_id: RoomId, room_info: RoomInfo },
    /// The complete visible action history of a room's game so far.
    RoomCurrentActions { room_id: RoomId, actions: Vec<Action> },
    /// One new visible action in a room's game.
    RoomAppendAction { room_id: RoomId, action: Action },
}

/// A room as a server holds it: its description and the game's actions.
pub struct RoomData {
    pub room_info: RoomInfo,
    pub actions: Vec<Action>,
}

/// How a client introduces itself when connecting.
pub enum ServerCredentials {
    NewUser { username: Username },
    ExistingUser { reconnect_token: ReconnectToken },
}

} // verus!
