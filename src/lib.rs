//! Trigger/response codec for event-driven oracle components.
//!
//! A contract event carries an ABI-encoded `{ triggerId, data }` envelope; the
//! component decodes it, runs one external computation on the payload, and
//! answers with an ABI-encoded `{ triggerId, data }` envelope of its own.
//! Every decoder here is strict: it accepts exactly the canonical ABI
//! encodings of its schema.

pub mod abi;
pub mod error;
pub mod trigger;
pub mod oracle;
pub mod artist;
pub mod compute;
pub mod laws;
