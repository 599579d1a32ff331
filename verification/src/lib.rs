//! A turn-based board game on a hexagonal grid: each player owns one board
//! edge and tries to connect it to the opposite edge with an unbroken flow
//! of rotatable tiles, while a legality validator proves that no placement
//! ever strands an opponent for good.
//!
//! - [`game`] holds the hex geometry, the tile connection algebra, the
//!   board and the game engine with its flow computation.
//! - [`legality`] holds the move-legality validator and its
//!   satisfiability oracle over tile shapes.
//! - [`laws`] proves the engine's general properties against the
//!   specifications the executable code is verified to follow.
//! - [`ai`] supports move-selecting collaborators; [`ui`] holds pure
//!   presentation helpers; [`view`] replays a backend's action stream;
//!   [`protocol`] is the plain data model of the client/server talk.
pub mod ai;
pub mod game;
pub mod laws;
pub mod legality;
pub mod protocol;
pub mod ui;
pub mod view;
