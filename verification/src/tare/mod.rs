//! Per-frame resource bookkeeping for the render graph: the frame ring, the
//! pool that hands released resources out again, and the planning of
//! render pass attachments.

pub mod ring;
pub mod pool;
pub mod graph;
