//! Verified core of the GRASS application framework: MPI role topology and
//! bootstrap decisions, coupling wire formats, routed exchange framing,
//! remote-mirror coherence, the lifecycle of orchestrated sub-Apps, plugin
//! registration contracts, multi-stage run control, configuration input and
//! small counters used by the compute layer.

pub mod bootstrap;
pub mod codec;
pub mod comm;
pub mod config;
pub mod config_tree;
pub mod derive_rules;
pub mod dump;
pub mod multi;
pub mod outer_iter;
pub mod physics;
pub mod plugin;
pub mod port;
pub mod remote;
pub mod role_exchange;
pub mod routed;
pub mod run;
pub mod runner;
pub mod setup;
pub mod store;
pub mod sync;
pub mod text;
pub mod topology;
pub mod transport;
pub mod wire;
