//! NUMA-aware execution primitives: modelling the node-to-processor
//! topology, choosing the node an identifier binds to, and replicating a
//! value once per node so each thread can read a node-local copy.

pub mod binder;
pub mod replicator;
pub mod topology;
