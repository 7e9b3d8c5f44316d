//! Journey planning through a changing connectivity graph of star systems.
//!
//! Some edges are permanent stargates from a static topology; others are
//! ephemeral, time-decaying, capacity-limited wormholes discovered by
//! polling external feeds. The crate normalizes feed payloads into canonical
//! wormhole records, folds fetch outcomes through a last-known-good refresh
//! rule, composes the static topology with the feed snapshots into one
//! directed multigraph, filters it under the traveller's exclusions, and
//! finds and renders a minimum-hop route.

pub mod capacity;
pub mod error;
pub mod eve_scout;
pub mod feedtime;
pub mod format;
pub mod graph;
pub mod nevereq;
pub mod refresh;
pub mod route;
pub mod system;
pub mod text;
pub mod tripwire;
