//! Verified core of the AES67 tools: RTP/L24 framing, PTP message handling and
//! master selection, SAP/SDP discovery and the decision logic of the streamer,
//! player and queue sender.

pub mod rtp;
pub mod ptp_messages;
pub mod ptp;
pub mod text;
pub mod sdp;
pub mod sap;
pub mod socket;
pub mod stream;
pub mod player;
pub mod jitter;
pub mod config;
pub mod router;
pub mod tester;
pub mod music;
pub mod browse;
pub mod paths;
pub mod music_app;
pub mod sdp_readback;
pub mod output;
