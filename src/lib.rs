//! An HTTP caching reverse proxy for a single origin: the host gate, cache
//! keys, the byte format of stored entries, freshness judgement and the
//! per-request decision machine, each with its contract.

pub mod snapshot;
pub mod codec;
pub mod bytes;
pub mod gate;
pub mod key;
pub mod origin;
pub mod freshness;
pub mod proxy;
pub mod flight;
