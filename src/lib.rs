//! Peer-to-peer note synchronisation for a shared virtual keyboard: the wire
//! format of network events, the peer directory, the fan-out decisions of the
//! sender and the dispatcher that applies arriving events.

pub mod address;
pub mod color;
pub mod dispatch;
pub mod directory;
pub mod event;
pub mod keyboard;
pub mod playback;
pub mod record;
pub mod sender;
pub mod wire;
