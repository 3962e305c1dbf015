//! The game's own data, carried inside Photon messages.
pub mod player_script;
pub mod rpc;
