//! A voice-audio gateway library: the versioned track codec, the
//! WebM/Opus demuxer, RTP packet assembly with AEAD encryption, the
//! voice-gateway state machine, and the session, player, source and
//! statistics registries behind the REST surface.

pub mod api;
pub mod config;
pub mod crypto;
pub mod demux;
pub mod models;
pub mod playback;
pub mod routeplanner;
pub mod rtp;
pub mod session;
pub mod sources;
pub mod stats;
pub mod track;
pub mod voice;
pub mod wire;
