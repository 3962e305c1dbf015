//! Codes and keys of Photon messages and of the hashtables they carry.
pub mod actor_properties;
pub mod event_code;
pub mod game_property_key;
pub mod operation_code;
pub mod parameter_code;
pub mod pun_event_code;
