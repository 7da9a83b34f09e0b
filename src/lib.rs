//! Signaling relay for WebRTC peers: a directory of rooms keyed by the
//! connection that created them, a registry of live connections, and the
//! per-message decisions that store, look up and broadcast signaling data.
pub mod websocket;
