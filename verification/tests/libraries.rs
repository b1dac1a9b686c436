use meshi::bento::cli::{ensure_bto_extension, parse_defines};
use meshi::miso::build_define_map;
use meshi::miso::includes::{resolve_with_includes_impl, SourceTree};
use meshi::slang::{SlangGlobalSessionDesc, SLANG_API_VERSION, SLANG_LANGUAGE_VERSION_2025};

fn fixture_tree() -> SourceTree {
    let mut tree = SourceTree::new();
    tree.add(
        "src/slang/src/stdvert.slang",
        "import bindless;\nimport bindless;\n\n[shader(\"vertex\")]\nfloat4 main() : SV_Position { return float4(0); }\n",
    );
    tree.add("src/slang/include/bindless.slang", "module bindless;\nimport common;\nstruct Camera { float4x4 view; };\n");
    tree.add("src/slang/include/common.slang", "static const uint MAX = 4;\n");
    tree
}

#[test]
fn resolve_with_includes_inlines_imports() {
    let tree = fixture_tree();
    let resolved = resolve_with_includes_impl("src/slang/src/stdvert.slang", "-Isrc/slang/include/", &tree)
        .expect("resolves");

    assert!(resolved.contains("// begin include bindless"));
    assert!(!resolved.contains("import bindless;"));
}

#[test]
fn resolved_imports_are_inlined_once_with_line_directives() {
    let tree = fixture_tree();
    let resolved = resolve_with_includes_impl("src/slang/src/stdvert.slang", " -Isrc/slang/include ", &tree)
        .expect("resolves");
    let expected = "#line 1 \"src/slang/src/stdvert.slang\"\n\
\n// begin include bindless\n\
#line 1 \"src/slang/include/bindless.slang\"\n\
module bindless;\n\
\n// begin include common\n\
#line 1 \"src/slang/include/common.slang\"\n\
static const uint MAX = 4;\n\
\n// end include common\n\
#line 3 \"src/slang/include/bindless.slang\"\n\
struct Camera { float4x4 view; };\n\
\n// end include bindless\n\
#line 2 \"src/slang/src/stdvert.slang\"\n\
#line 3 \"src/slang/src/stdvert.slang\"\n\
\n\
[shader(\"vertex\")]\n\
float4 main() : SV_Position { return float4(0); }\n";
    assert_eq!(resolved, expected);
}

#[test]
fn resolved_text_keeps_no_import_lines() {
    let mut tree = SourceTree::new();
    tree.add("main.slang", "  import lighting;\r\nimport lighting ;;\nfloat4 main();\n  import shadows;");
    tree.add("inc/lighting.slang", "import shadows;\r\r\nstruct Light {};\n");
    tree.add("inc/shadows.slang", "\timport lighting;\nstruct Shadow {};");
    let resolved = resolve_with_includes_impl("main.slang", "-Iinc", &tree).expect("resolves");

    for line in resolved.lines() {
        assert!(!line.trim().starts_with("import "), "import line left: {line:?}");
    }
    assert!(resolved.contains("// begin include lighting"));
    assert!(resolved.contains("// begin include shadows"));
    assert!(resolved.contains("struct Light {};"));
    assert!(resolved.contains("struct Shadow {};"));
}

#[test]
fn missing_import_reports_its_path() {
    let mut tree = SourceTree::new();
    tree.add("main.slang", "import nowhere;\n");
    let err = resolve_with_includes_impl("main.slang", "-Iinc", &tree).unwrap_err();
    assert_eq!(err, "inc/nowhere.slang");
    let err = resolve_with_includes_impl("absent.slang", "-Iinc", &tree).unwrap_err();
    assert_eq!(err, "absent.slang");
}

#[test]
fn build_define_map_parses_values_and_flags() {
    let defines = vec!["FOO=bar".to_string(), "BAZ".to_string()];

    let map = build_define_map(&defines);

    assert_eq!(map.get("FOO"), Some(&Some("bar".to_string())));
    assert_eq!(map.get("BAZ"), Some(&None));
}

#[test]
fn later_definitions_replace_earlier_ones() {
    let defines = vec!["A=1".to_string(), "A=2=3".to_string(), "B".to_string()];
    let map = build_define_map(&defines);
    assert_eq!(map.get("A"), Some(&Some("2=3".to_string())));
    assert_eq!(map.len(), 2);
}

#[test]
fn command_line_definitions_are_trimmed_and_checked() {
    let map = parse_defines(&vec![" NAME = value ".to_string(), " FLAG ".to_string()]).expect("valid");
    assert_eq!(map.get("NAME"), Some(&Some("value".to_string())));
    assert_eq!(map.get("FLAG"), Some(&None));
    assert_eq!(parse_defines(&vec!["".to_string()]).err(), Some("definition cannot be empty".to_string()));
    assert_eq!(parse_defines(&vec!["  =1".to_string()]).err(), Some("definition is missing a name".to_string()));
}

#[test]
fn output_paths_get_the_bto_extension() {
    assert_eq!(ensure_bto_extension("out.spv"), "out.bto");
    assert_eq!(ensure_bto_extension("dir/shader"), "dir/shader.bto");
    assert_eq!(ensure_bto_extension("dir/archive.tar.gz"), "dir/archive.tar.bto");
    assert_eq!(ensure_bto_extension(".hidden"), ".hidden.bto");
    assert_eq!(ensure_bto_extension("dir/file.txt/"), "dir/file.bto");
    assert_eq!(ensure_bto_extension(""), "");
    assert_eq!(ensure_bto_extension("a/.."), "a/..");
    assert_eq!(ensure_bto_extension(ensure_bto_extension("x.y").as_str()), "x.bto");
}

#[test]
fn default_descriptor_matches_header_defaults() {
    let desc = SlangGlobalSessionDesc::default();
    assert_eq!(desc.structure_size as usize, std::mem::size_of::<SlangGlobalSessionDesc>());
    assert_eq!(desc.api_version, SLANG_API_VERSION);
    assert_eq!(desc.min_language_version, SLANG_LANGUAGE_VERSION_2025);
    assert!(!desc.enable_glsl);
    assert!(desc.reserved.iter().all(|&value| value == 0));
}
