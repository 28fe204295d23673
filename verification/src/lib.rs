//! Community moderation core: a per-community state machine that scores
//! messages for spam pressure, detects join floods, and exposes a uniform,
//! string-keyed settings surface.
//!
//! The library is pure decision logic over plain values.  The surrounding
//! transport (event delivery, role grants, message deletion, embeds) is
//! expected to feed events in and carry the returned actions out.

pub mod clock;
pub mod error_handling;
pub mod log;
pub mod pressure;
pub mod raid;
pub mod settings;
pub mod shell;
pub mod text;
