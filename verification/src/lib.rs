//! Rooms in which the listeners of a streaming service share what they are playing.
//!
//! The modules decide what is asked of the streaming service and of the database, what each
//! request is answered, and what a room holds. They do no I/O: a request that needs something from
//! outside is taken turn by turn, each turn saying what is needed next and the reply being handed
//! in with the following one.

pub mod channel;
pub mod db;
pub mod encoding;
pub mod ids;
pub mod laws;
pub mod requests;
pub mod rooms;
pub mod server;
pub mod session;
pub mod sockets;
pub mod spotify;
pub mod string_map;
pub mod tables;
pub mod tracks;
