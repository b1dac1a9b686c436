# meshi

A verified shader toolchain and GPU-resource bookkeeping library, written in
Verus.  Every function under `src/` carries a contract that Verus proves,
except the few trusted wrappers (marked `#[verifier::external_body]`) that
call `regex`, `rspirv-reflect`/`rspirv` and a few std functions: their
contracts are taken as given, and each one's doc comment says what it
claims of the call.

## Layout

* `src/bento` — shader artifacts ("Bento" compilation results): scanning GLSL
  and HLSL/Slang sources for their bindings, reflecting SPIR-V (through
  `rspirv-reflect`, after checking that its descriptor reader can take the
  module), stripping debug instructions, writing reflected names
  back into SPIR-V, the compile request and report logic of the `bentosc`
  and `bentoinspect` programs, and the planning of bind groups and bind
  tables for graphics and compute pipelines.
* `src/furikake` — reserved bindless bindings: slot pools with dirty-range
  tracking, the per-object joint range allocator, bindless textures, table
  subscriptions, resolution of reserved bindings against reflected shaders,
  and the bind table recipes a set of shaders needs.
* `src/miso` — the bundled shader programs: preprocessor definitions and the
  inlining of `import` lines over a tree of source files.
* `src/tare` — frame resources: a fixed ring of per-frame values, the reuse
  pool behind transient allocations, and the render-graph decisions and
  render-pass cache.
* `src/slang.rs` — the Slang session description.
* `src/text.rs` — string building and decimal formatting.
* `tests/` — tests run against the compiled library.
* `app/` — the parts that touch files, the shaderc front end, clap and the
  dashi GPU API.

The laws of the library are public proof functions whose names begin with
`law_`.
