//! Verified core of a screenshot annotation tool: annotation data, the
//! drawing-tool state machine with undo/redo, keyboard shortcuts, and the
//! choice of a video encoder for screen recording.
pub mod domain;
pub mod state;
pub mod handlers;
pub mod laws;
pub mod shortcuts;
pub mod encoder;
