//! Verified core of a small location-pinned message board.
//!
//! Players leave short composed messages at points in a 3-D world; other
//! players querying a location receive a curated subset of the messages
//! stored there.  This crate holds the two pieces of logic that carry the
//! service's behaviour, each with a full functional contract:
//!
//! * the template composition engine ([`pack`]), which builds a message's
//!   text from a content pack and the author's chosen indices, and
//! * the spatial visibility sampler ([`visibility`]), which decides which
//!   candidate messages a particular viewer sees.
//!
//! Everything around them (HTTP routing, storage, pack files) is plain
//! unverified glue that hands the core plain values and takes plain values
//! back.

pub mod config;
pub mod message;
pub mod pack;
pub mod registry;
pub mod rng;
pub mod util;
pub mod visibility;
pub mod web;
