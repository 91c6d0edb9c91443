//! Real-time collaboration: permissions, signaling and sync messages.

pub mod permission;
pub mod signaling;
pub mod sync_message;
