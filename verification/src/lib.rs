//! Wire protocol, session decisions and pipeline descriptions of a remote
//! extended-monitor system: a host streams a virtual monitor to a client over
//! RTP, and the client sends its input back in packets.

pub mod config;
pub mod events;
pub mod monitor;
pub mod pipeline;
pub mod protocol;
pub mod roundtrip;
pub mod session;
pub mod text;
pub mod wire;

pub use config::SessionConfig;
pub use events::{InputEvent, KeyAction, MouseButton, MouseEvent};
pub use protocol::{
    HandshakeRequest, HandshakeResponse, Packet, PacketPayload, VideoCodec,
    DEFAULT_DISCOVERY_PORT, DEFAULT_INPUT_PORT, DEFAULT_STREAM_PORT, EXTENDER_PROTOCOL_MAGIC,
    EXTENDER_PROTOCOL_VERSION,
};
