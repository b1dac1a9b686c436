//! Reserved GPU bindings: slot pools, dirty-range tracking and the range
//! allocator that back the bindless state.

pub mod dirty;
pub mod handle;
pub mod slots;
pub mod joints;
pub mod textures;
pub mod types;
pub mod streams;
pub mod reserved;
pub mod subscriptions;
pub mod resolver;
pub mod recipe;
pub mod state;
