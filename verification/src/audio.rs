//! The engine, leaves first: frames, clips, nodes, edges, the graph and the
//! processor that edits and reads it.
pub mod audio_clip;
pub mod audio_edge;
pub mod audio_graph;
pub mod audio_node;
pub mod audio_processor;
pub mod audio_state;
pub mod error;
pub mod frame;
pub mod laws;
pub mod propagation;
pub mod reach;
pub mod resample;
pub mod topology;
