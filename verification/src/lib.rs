//! Session relay for peer-to-peer video rooms.
//!
//! Two cooperating pieces make up the crate: a room signaling router that
//! tracks which users sit in which room and fans out or targets their
//! control messages, and a multiplexed datagram adapter that presents a
//! pool of length-framed byte streams as a single packet socket to a
//! relay engine.  All state transitions and routing decisions live here,
//! behind contracts; the surrounding process supplies the sockets, tasks
//! and timers.

pub mod adapter;
pub mod auth;
pub mod codec;
pub mod message;
pub mod page;
pub mod registry;
pub mod rooms;
pub mod router;
