//! GPU resource bookkeeping, shader reflection helpers and render-graph
//! scheduling logic, with their contracts proved by Verus.

pub mod bento;
pub mod furikake;
pub mod miso;
pub mod slang;
pub mod tare;
pub mod text;
