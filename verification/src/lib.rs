//! Embeddable chat for Ankurah: the decisions behind the room timeline, the
//! composer, direct messages, read cursors and the host handshake.
pub mod text;
pub mod reactions;
pub mod context;
pub mod read_state;
pub mod dm;
pub mod composer;
pub mod latch;
pub mod keys;
pub mod menu;
pub mod rooms;
pub mod timeline;
