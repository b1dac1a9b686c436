//! The descriptor and handle types of the Slang compiler's C interface.

use vstd::prelude::*;

verus! {

/// Signed integer type used by the Slang API.
pub type SlangInt = isize;

/// Result type returned by many Slang functions.
pub type SlangResult = i32;

/// Successful result code.
pub const SLANG_OK: SlangResult = 0;

/// Current Slang API version supported by the bindings.
pub const SLANG_API_VERSION: u32 = 0;

/// Legacy language version constant used by Slang.
pub const SLANG_LANGUAGE_VERSION_LEGACY: u32 = 2018;

/// Slang 2025 language version constant.
pub const SLANG_LANGUAGE_VERSION_2025: u32 = 2025;

/// Slang 2026 language version constant.
pub const SLANG_LANGUAGE_VERSION_2026: u32 = 2026;

/// Latest available language version constant.
pub const SLANG_LANGUAGE_VERSION_LATEST: u32 = 2026;

/// Description of a Slang global session used when constructing the
/// compiler API.
#[derive(Debug, Copy, Clone)]
pub struct SlangGlobalSessionDesc {
    /// Size of the struct, mirroring `structureSize` in `slang.h`.
    pub structure_size: u32,
    /// Slang API version to target.
    pub api_version: u32,
    /// Minimum language version accepted by sessions created with this
    /// descriptor.
    pub min_language_version: u32,
    /// Whether GLSL support should be enabled.
    pub enable_glsl: bool,
    /// Reserved future-proofing slots.
    pub reserved: [u32; 16],
}

impl Default for SlangGlobalSessionDesc {
    /// The header's defaults: the struct's own size, the current API
    /// version, the 2025 language, no GLSL, zeroed reserved slots.
    fn default() -> (r: Self)
        ensures
            r.structure_size == size_of::<SlangGlobalSessionDesc>() as u32,
            size_of::<SlangGlobalSessionDesc>() <= u32::MAX ==> r.structure_size == size_of::<SlangGlobalSessionDesc>(),
            r.api_version == SLANG_API_VERSION,
            r.min_language_version == SLANG_LANGUAGE_VERSION_2025,
            !r.enable_glsl,
            forall|i: int| 0 <= i < 16 ==> #[trigger] r.reserved@[i] == 0,
    {
        let reserved: [u32; 16] = [0u32, 0, 0, 0, 0, 0, 0, 0, 0, 0, 0, 0, 0, 0, 0, 0];
        assert(reserved@ =~= Seq::new(16, |i: int| 0u32));
        SlangGlobalSessionDesc {
            structure_size: core::mem::size_of::<SlangGlobalSessionDesc>() as u32,
            api_version: SLANG_API_VERSION,
            min_language_version: SLANG_LANGUAGE_VERSION_2025,
            enable_glsl: false,
            reserved,
        }
    }
}

/// Opaque handle to the global compiler session.
pub struct IGlobalSession {
    _private: [u8; 0],
}

/// Opaque handle to a session.
pub struct ISession {
    _private: [u8; 0],
}

/// Opaque handle to a compiled module.
pub struct IModule {
    _private: [u8; 0],
}

/// Opaque buffer interface used throughout the API.
pub struct ISlangBlob {
    _private: [u8; 0],
}

} // verus!
