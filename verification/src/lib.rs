//! A charge-point client engine for an OCPP-style backend protocol: the
//! framing of request/reply/error envelopes, the correlation of
//! asynchronous replies to the requests that caused them, and the
//! session state machine that drives boot, availability reporting, a
//! synthetic charging transaction and periodic heartbeats.
//!
//! The engine performs no effects itself: every event handler returns
//! the commands (sends, timer arms, log lines) that the surrounding
//! transport layer is to perform. Wire text is parsed and serialized by
//! an outside json library at the edge; everything the protocol decides
//! is stated over structured values and proved.

pub mod codec;
pub mod laws;
pub mod requests;
pub mod session;
pub mod tracker;
pub mod value;
pub mod wire;
