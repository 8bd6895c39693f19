//! Signed, content-addressed events published to a set of independent relay
//! endpoints.
//!
//! The crate covers the two pieces of the pipeline that need bit-exact
//! behaviour and failure-tolerant fan-out: building and signing an event
//! (its canonical hash preimage, identifier and Schnorr signature), and the
//! outbox that drains queued events to every configured relay.

pub mod ack;
pub mod crypto;
pub mod encoding;
pub mod nostr;
pub mod opml;
pub mod relay;
pub mod rss;
pub mod summarize;
