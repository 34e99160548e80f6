//! An incremental audio mixing engine.
//!
//! Clips of audio are the vertices of a directed acyclic graph; every edge
//! carries a mixing operation and leads towards one root, whose content is the
//! output. Each vertex keeps its content together with a snapshot and the
//! difference between the two, so that an edit costs as much as the part of
//! the graph below it and no more.
//!
//! Samples are signed 32-bit fixed-point amplitudes and mixing wraps around.
//! Wrapping keeps addition an abelian group, which is what makes the
//! difference between two states of a clip exact and the order of edits
//! irrelevant.
pub mod audio;
