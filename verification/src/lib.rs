//! A verified scene-graph renderer core: fixed-point transform pipeline,
//! depth-first traversal with draw-call collection, and the shared input
//! mailbox state exchanged between an event thread and a render thread.
pub mod buffer;
pub mod fixed;
pub mod frame;
pub mod input;
pub mod mat;
pub mod scene;
pub mod transform;
