use cxx_bindgen::binding_state::{BindingState, DiagnosticKind};
use cxx_bindgen::builder::{bridge, scaffold};
use cxx_bindgen::decl::{Decl, FnDecl, ImplDecl, ModDecl, Param, TypeDecl, TypeKind};
use cxx_bindgen::merge::{merge_regions, MergeError};
use cxx_bindgen::meta::{has_malformed_bridge, parse_option_list, Attr, CxxBindgenMeta, MetaOption, OptionValue};

const BRIDGE: &str = "cxx_bindgen::cxx_bindgen_meta";

fn flag(key: &str) -> MetaOption {
    MetaOption { key: key.to_string(), value: OptionValue::Flag }
}

fn text(key: &str, value: &str) -> MetaOption {
    MetaOption { key: key.to_string(), value: OptionValue::Text(value.to_string()) }
}

fn bridge_attr(options: Vec<MetaOption>) -> Attr {
    Attr { path: BRIDGE.to_string(), options, text: String::new() }
}

fn doc(s: &str) -> Attr {
    Attr { path: "doc".to_string(), options: vec![], text: format!("#[doc = \"{}\"]", s) }
}

fn other_attr() -> Attr {
    Attr { path: "derive".to_string(), options: vec![], text: "#[derive(Debug)]".to_string() }
}

fn strukt(name: &str, is_pub: bool, attrs: Vec<Attr>) -> Decl {
    Decl::Type(TypeDecl {
        attrs,
        is_pub,
        kind: TypeKind::Struct,
        name: name.to_string(),
        body: " { pub x : i32 , pub y : i32 , }".to_string(),
        location: format!("struct {}", name),
    })
}

fn func(name: &str, is_pub: bool, attrs: Vec<Attr>, params: Vec<Param>) -> FnDecl {
    FnDecl {
        attrs,
        is_pub,
        qualifiers: String::new(),
        name: name.to_string(),
        params,
        output: " -> i32".to_string(),
        where_clause: String::new(),
        location: format!("fn {}", name),
    }
}

fn run(items: Vec<Decl>) -> BindingState {
    let builder = bridge("src/ffi.rs");
    let mut bindings = BindingState::default();
    builder.generate_items(&items, &mut bindings);
    bindings
}

#[test]
fn no_bridging_annotation_is_no_candidate() {
    assert!(CxxBindgenMeta::is_processed(&vec![doc("x"), other_attr()]).is_none());
    assert!(CxxBindgenMeta::is_processed(&vec![]).is_none());
}

#[test]
fn flags_and_rename_are_parsed() {
    let m = CxxBindgenMeta::is_processed(&vec![other_attr(), bridge_attr(vec![
        flag("shared"),
        text("cxx_name", "Pt"),
    ])])
    .unwrap();
    assert!(m.shared);
    assert!(!m.skip);
    assert_eq!(m.cxx_name, Some("Pt".to_string()));
    assert_eq!(m.cxx_name(), "#[cxx_name = \"Pt\"] ");

    let empty = CxxBindgenMeta::is_processed(&vec![bridge_attr(vec![])]).unwrap();
    assert!(!empty.skip && !empty.shared && empty.cxx_name.is_none());
    assert_eq!(empty.cxx_name(), "");
}

#[test]
fn unknown_or_malformed_options_are_rejected() {
    assert!(parse_option_list(&vec![flag("skip"), flag("bogus")]).is_none());
    assert!(parse_option_list(&vec![text("skip", "yes")]).is_none());
    assert!(parse_option_list(&vec![flag("cxx_name")]).is_none());
    assert!(parse_option_list(&vec![MetaOption { key: "shared".to_string(), value: OptionValue::Malformed }]).is_none());
    let attrs = vec![bridge_attr(vec![flag("bogus")])];
    assert!(CxxBindgenMeta::is_processed(&attrs).is_none());
    assert!(has_malformed_bridge(&attrs));
    assert!(!has_malformed_bridge(&vec![bridge_attr(vec![flag("skip")])]));
}

#[test]
fn first_well_formed_annotation_wins() {
    let attrs = vec![bridge_attr(vec![flag("bogus")]), bridge_attr(vec![flag("skip")]), bridge_attr(vec![flag("shared")])];
    let m = CxxBindgenMeta::is_processed(&attrs).unwrap();
    assert!(m.skip);
    assert!(!m.shared);
}

#[test]
fn shared_struct_goes_to_shared_region_with_fields() {
    let b = run(vec![strukt("Point", true, vec![other_attr(), doc(" A point"), bridge_attr(vec![flag("shared"), text("cxx_name", "Pt")])])]);
    assert_eq!(
        b.shared,
        "    #[derive(Serialize,Deserialize)] #[cxx_name = \"Pt\"] #[doc = \" A point\"] struct Point { pub x : i32 , pub y : i32 , }\n"
    );
    assert_eq!(b.rust_bindings, "");
}

#[test]
fn unshared_struct_is_opaque() {
    let b = run(vec![strukt("Point", true, vec![doc(" A point"), bridge_attr(vec![])])]);
    assert_eq!(b.shared, "");
    assert_eq!(b.rust_bindings, "        type Point;\n");
}

#[test]
fn shared_enum_keeps_variants() {
    let e = Decl::Type(TypeDecl {
        attrs: vec![bridge_attr(vec![flag("shared")])],
        is_pub: true,
        kind: TypeKind::Enum,
        name: "Color".to_string(),
        body: " { Red , Green , }".to_string(),
        location: "enum Color".to_string(),
    });
    let b = run(vec![e]);
    assert_eq!(b.shared, "    #[derive(Serialize,Deserialize)] enum Color { Red , Green , }\n");
}

#[test]
fn private_declarations_produce_nothing() {
    let b = run(vec![
        strukt("Hidden", false, vec![bridge_attr(vec![flag("shared")])]),
        Decl::Function(func("hidden", false, vec![bridge_attr(vec![])], vec![])),
    ]);
    assert_eq!(b.shared, "");
    assert_eq!(b.rust_bindings, "");
    assert!(b.diagnostics.is_empty());
}

#[test]
fn skipped_declarations_produce_nothing() {
    let b = run(vec![
        strukt("A", true, vec![bridge_attr(vec![flag("skip"), flag("shared")])]),
        Decl::Function(func("f", true, vec![bridge_attr(vec![flag("skip"), text("cxx_name", "g")])], vec![])),
        Decl::Impl(ImplDecl {
            attrs: vec![bridge_attr(vec![flag("skip")])],
            self_ty: "A".to_string(),
            methods: vec![func("m", true, vec![], vec![Param::Receiver { mutable: false }])],
            location: "impl A".to_string(),
        }),
        Decl::Module(ModDecl {
            attrs: vec![bridge_attr(vec![flag("skip")])],
            items: vec![strukt("B", true, vec![bridge_attr(vec![])])],
            location: "mod inner".to_string(),
        }),
    ]);
    assert_eq!(b.shared, "");
    assert_eq!(b.rust_bindings, "");
}

#[test]
fn free_function_signature_without_body() {
    let b = run(vec![Decl::Function(func(
        "add",
        true,
        vec![doc(" Adds"), other_attr(), bridge_attr(vec![text("cxx_name", "plus")])],
        vec![Param::Typed("a : i32".to_string()), Param::Typed("b : i32".to_string())],
    ))]);
    assert_eq!(b.rust_bindings, "        #[cxx_name = \"plus\"] #[doc = \" Adds\"] fn add(a : i32, b : i32) -> i32;\n");
}

#[test]
fn qualifiers_and_where_clause_are_kept() {
    let mut f = func("g<T>", true, vec![bridge_attr(vec![])], vec![Param::Typed("t : T".to_string())]);
    f.qualifiers = "const unsafe ".to_string();
    f.where_clause = " where T : Copy".to_string();
    let b = run(vec![Decl::Function(f)]);
    assert_eq!(b.rust_bindings, "        const unsafe fn g<T>(t : T) -> i32 where T : Copy;\n");
}

#[test]
fn rename_is_escaped() {
    let m = CxxBindgenMeta::is_processed(&vec![bridge_attr(vec![text("cxx_name", "a\"b\\c\n")])]).unwrap();
    assert_eq!(m.cxx_name(), "#[cxx_name = \"a\\\"b\\\\c\\n\"] ");
}

#[test]
fn shared_function_is_reported_and_left_out() {
    let b = run(vec![Decl::Function(func("f", true, vec![bridge_attr(vec![flag("shared")])], vec![]))]);
    assert_eq!(b.rust_bindings, "");
    assert_eq!(b.diagnostics.len(), 1);
    assert_eq!(b.diagnostics[0].kind, DiagnosticKind::SharedFunction);
    assert_eq!(b.diagnostics[0].location, "fn f");
}

#[test]
fn malformed_annotation_is_reported_and_left_out() {
    let b = run(vec![strukt("P", true, vec![bridge_attr(vec![flag("bogus")])])]);
    assert_eq!(b.rust_bindings, "");
    assert_eq!(b.diagnostics.len(), 1);
    assert_eq!(b.diagnostics[0].kind, DiagnosticKind::MalformedAnnotation);
    assert_eq!(b.diagnostics[0].location, "struct P");
}

#[test]
fn receivers_become_typed_references() {
    let imp = Decl::Impl(ImplDecl {
        attrs: vec![],
        self_ty: "Counter".to_string(),
        methods: vec![
            func("bump", true, vec![], vec![Param::Receiver { mutable: true }, Param::Typed("by : i32".to_string())]),
            func("get", true, vec![bridge_attr(vec![text("cxx_name", "value")])], vec![Param::Receiver { mutable: false }]),
            func("secret", false, vec![], vec![Param::Receiver { mutable: false }]),
            func("skipped", true, vec![bridge_attr(vec![flag("skip")])], vec![]),
            func("make", true, vec![], vec![]),
        ],
        location: "impl Counter".to_string(),
    });
    let b = run(vec![imp]);
    assert_eq!(
        b.rust_bindings,
        "        fn bump(self: &mut Counter, by : i32) -> i32;\n        #[cxx_name = \"value\"] fn get(self: &Counter) -> i32;\n        fn make() -> i32;\n"
    );
}

#[test]
fn modules_are_followed_in_order() {
    let b = run(vec![
        strukt("A", true, vec![bridge_attr(vec![])]),
        Decl::Module(ModDecl {
            attrs: vec![],
            items: vec![strukt("B", true, vec![bridge_attr(vec![])]), Decl::Other],
            location: "mod m".to_string(),
        }),
        strukt("C", true, vec![bridge_attr(vec![])]),
    ]);
    assert_eq!(b.rust_bindings, "        type A;\n        type B;\n        type C;\n");
}

#[test]
fn generation_is_repeatable() {
    let items = || vec![strukt("A", true, vec![bridge_attr(vec![flag("shared")])]), strukt("B", true, vec![bridge_attr(vec![])])];
    let first = run(items());
    let second = run(items());
    assert_eq!(first.shared, second.shared);
    assert_eq!(first.rust_bindings, second.rust_bindings);
}

const FILE: &str = "// top\n// #region \"cxx-bridge-generated-shared\"\nold shared\n    // #endregion\n// between\n// #region \"cxx-bridge-generated-rust\"\nold rust\n        // #endregion\n// bottom\n";

#[test]
fn merge_replaces_only_region_interiors() {
    let out = merge_regions(FILE, "    struct S;\n", "        type T;\n").unwrap();
    assert_eq!(
        out,
        "// top\n// #region \"cxx-bridge-generated-shared\"\n    struct S;\n\n    // #endregion\n// between\n// #region \"cxx-bridge-generated-rust\"\n        type T;\n\n        // #endregion\n// bottom\n"
    );
}

#[test]
fn merge_twice_is_stable() {
    let once = merge_regions(FILE, "    struct S;\n", "        type T;\n").unwrap();
    let twice = merge_regions(&once, "    struct S;\n", "        type T;\n").unwrap();
    assert_eq!(once, twice);
}

#[test]
fn missing_shared_region_is_an_error() {
    let text = "// #region \"cxx-bridge-generated-rust\"\n// #endregion\n";
    assert_eq!(merge_regions(text, "", ""), Err(MergeError::MissingSharedRegion));
    let unclosed = "// #region \"cxx-bridge-generated-shared\"\n";
    assert_eq!(merge_regions(unclosed, "", ""), Err(MergeError::MissingSharedRegion));
}

#[test]
fn marker_lines_are_kept() {
    let text = "x\n  // #region \"cxx-bridge-generated-shared\" keep\nold\n  // #endregion tail\n\t// #region \"cxx-bridge-generated-rust\"\n\t// #endregion\n";
    let out = merge_regions(text, "S", "R").unwrap();
    assert_eq!(
        out,
        "x\n  // #region \"cxx-bridge-generated-shared\" keep\nS\n  // #endregion tail\n\t// #region \"cxx-bridge-generated-rust\"\nR\n\t// #endregion\n"
    );
    assert_eq!(merge_regions(&out, "S", "R").unwrap(), out);
}

#[test]
fn surface_marker_in_buffer_does_not_hide_missing_region() {
    let text = "// #region \"cxx-bridge-generated-shared\"\n// #endregion\n";
    let shared = "// #region \"cxx-bridge-generated-rust\"";
    assert_eq!(merge_regions(text, shared, ""), Err(MergeError::MissingSurfaceRegion));
}

#[test]
fn surface_region_may_come_first() {
    let text = "// #region \"cxx-bridge-generated-rust\"\n// #endregion\n// #region \"cxx-bridge-generated-shared\"\n// #endregion\n";
    assert_eq!(
        merge_regions(text, "S", "R").unwrap(),
        "// #region \"cxx-bridge-generated-rust\"\nR\n// #endregion\n// #region \"cxx-bridge-generated-shared\"\nS\n// #endregion\n"
    );
}

#[test]
fn overlapping_regions_are_an_error() {
    let text = "// #region \"cxx-bridge-generated-shared\"\n// #region \"cxx-bridge-generated-rust\"\n// #endregion\n";
    assert_eq!(merge_regions(text, "", ""), Err(MergeError::RegionsOverlap));
}

#[test]
fn missing_surface_region_is_an_error() {
    let text = "// #region \"cxx-bridge-generated-shared\"\n// #endregion\n";
    assert_eq!(merge_regions(text, "", ""), Err(MergeError::MissingSurfaceRegion));
}

#[test]
fn scaffold_then_populate() {
    let builder = bridge("src/ffi.rs").namespace("demo".to_string());
    let empty = BindingState::default();
    let fresh = builder.update_or_create_file(None, &empty).unwrap();
    assert_eq!(fresh, scaffold("demo", "", ""));
    assert!(fresh.starts_with("#[cxx::bridge(namespace = \"demo\")]\nmod ffi {\n"));
    assert_eq!(fresh.matches("// #region").count(), 2);

    let mut filled = BindingState::default();
    filled.push_shared(&"    struct S;\n".to_string());
    filled.push_surface(&"        type T;\n".to_string());
    let second = builder.update_or_create_file(Some(&fresh), &filled).unwrap();
    assert_eq!(second.matches("// #region").count(), 2);
    assert_eq!(second.matches("mod ffi").count(), 1);
    assert!(second.contains("// #region \"cxx-bridge-generated-shared\"\n    struct S;\n\n    // #endregion"));
    assert!(second.contains("// #region \"cxx-bridge-generated-rust\"\n        type T;\n\n        // #endregion"));
    let third = builder.update_or_create_file(Some(&second), &filled).unwrap();
    assert_eq!(second, third);
}

#[test]
fn builder_collects_configuration() {
    let b = bridge("out/ffi.rs")
        .namespace("ns".to_string())
        .feature("a".to_string())
        .features(vec!["b".to_string(), "c".to_string()]);
    assert_eq!(b.output_file(), "out/ffi.rs");
    assert_eq!(b.namespace_name(), "ns");
    assert_eq!(b.feature_list(), &vec!["a".to_string(), "b".to_string(), "c".to_string()]);
}
