//! Keys of the properties of a player.
use vstd::prelude::*;

verus! {

/// (255) Name of a player/actor.
pub const PLAYER_NAME: u8 = 255;

/// (254) Tells you if the player is currently in this game (getting events live).
///
/// # Remarks
/// A server-set value for async games, where players can leave the game and return later.
pub const IS_INACTIVE: u8 = 254;

/// (253) UserId of the player. Sent when room gets created with RoomOptions.PublishUserId = true.
pub const USER_ID: u8 = 253;

} // verus!
