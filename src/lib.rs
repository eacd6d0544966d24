//! Substream lifecycle engine: the per-peer notification protocol state
//! machine and the channel bookkeeping of a WebRTC connection.

mod types;
pub mod notification;
pub mod properties;
pub mod webrtc;
pub mod frame;

pub use types::{Direction, PeerId, ProtocolName, SubstreamHandle, SubstreamId};
