//! Verified core of an audio-graph library: channel and sample-rate units,
//! a lazily cached value, the scheduling of grains for granular synthesis,
//! and the structure of the audio processing graph: adding nodes, checking
//! and making connections (never a cycle), the order in which the nodes are
//! visited, and the messages by which the graph is changed once it runs in
//! an audio thread.

pub mod connection;
pub mod context;
pub mod dac_config;
pub mod grain;
pub mod granular;
pub mod graph;
pub mod int_map;
pub mod lazy_cached;
pub mod messages;
pub mod node;
pub mod nodes;
pub mod paths;
pub mod processor;
pub mod requests;
pub mod units;
