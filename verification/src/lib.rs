//! Verified core of a Solana stub prover pipeline.
//!
//! The library covers three responsibilities: the commitment data model (how
//! account snapshots and a slot range fold into a fixed-size public
//! commitment), the proof-envelope wire codec (a versioned, self-describing
//! binary format with proved round-trip and truncation laws), and the
//! decision logic of the publish/subscribe flow over a partitioned message
//! bus (connection settings, partition keying, and the subscriber's bounded
//! error handling). I/O, the broker connection and the proving service are
//! outside collaborators: they are driven from an unverified shell that
//! exchanges plain values with this library.

pub mod codec;
pub mod commitment;
pub mod kafka;
pub mod prover;
pub mod solana;
pub mod subscriber;
pub mod types;
pub mod utils;
