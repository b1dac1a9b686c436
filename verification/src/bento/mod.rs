//! Shader artifacts: compilation results and their reflection data, the
//! pipelines built from them, and the source scanning that names bindings.

pub mod types;
pub mod pipeline;
pub mod lang;
pub mod regex_ops;
pub mod glsl;
pub mod spirv;
pub mod reflect;
pub mod descriptors;
pub mod hlsl;
pub mod defines;
pub mod cli;
pub mod named;
pub mod builder;
pub mod metadata;
pub mod rewrite;
pub mod compile;
pub mod inspect;
pub mod messages;
