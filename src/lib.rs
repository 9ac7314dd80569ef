//! A feed-forward neural network whose shape is checked by construction.
//!
//! The network is generic over its scalar type: building one from a stream of
//! drawn parameters, and threading an input through its layers, are verified
//! here; the per-neuron arithmetic is handed in by the caller.

pub mod network;
pub mod topology;

pub use network::{Layer, Network, Neuron};
pub use topology::{network_draw_count, LayerTopology, TopologyError};
