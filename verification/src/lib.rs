//! Core logic of a message-mirroring chat bot: a deterministic color hash,
//! attachment classification, embed composition, dispatch planning, and the
//! per-server log-channel configuration map.
//!
//! The hosting application owns the gateway connection, the platform API
//! calls and the persistence file; it resolves each incoming message into a
//! [`embed::LogEvent`], lets [`embed::compose`] and [`dispatch::plan_dispatch`]
//! decide what to send, and carries the plan out.

pub mod attachments;
pub mod color;
pub mod dispatch;
pub mod embed;
pub mod store;
pub mod text;
