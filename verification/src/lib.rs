//! Parsing and rewriting of Photon Unity Networking (protocol 16) messages, together with the
//! state tracking that BulletForceHax performs on the messages it proxies.

pub mod assets;
pub mod codec;
pub mod config;
pub mod convert;
pub mod error;
pub mod hax;
pub mod highlevel;
pub mod message;
pub mod ordered_map;
pub mod protocol;
pub mod proxy;
pub mod round_trip;
pub mod state;
pub mod text;
pub mod value;
pub mod wire;
pub mod version_scraper;
pub mod version;
