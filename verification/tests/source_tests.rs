use zat_rust_viewer::extract_outline;
use zat_rust_viewer::OutlineResult;

fn signatures(result: &OutlineResult) -> Vec<String> {
    result.exports.iter().map(|e| e.signature.clone()).collect()
}

#[test]
fn unparsable_source_gives_empty_outline() {
    let result = extract_outline("pub fn broken( {");
    assert_eq!(result.exports.len(), 0);
    assert_eq!(result.imports.len(), 0);
}

#[test]
fn empty_source_gives_empty_outline() {
    let result = extract_outline("");
    assert_eq!(result.exports.len(), 0);
    assert_eq!(result.imports.len(), 0);
}

#[test]
fn restricted_visibility_is_not_exported() {
    let source = "pub(crate) fn inner() {}\npub(super) struct S;\npub fn outer() {}\n";
    let result = extract_outline(source);
    assert_eq!(signatures(&result), vec!["fn outer()".to_string()]);
    assert_eq!(result.exports[0].start_line, 3);
    assert_eq!(result.exports[0].end_line, 3);
}

#[test]
fn signature_with_generics_where_and_unsafe() {
    let source = "pub unsafe fn convert<'a, T: Clone + Into<Output>, U>(x: &'a T, _: U) -> Output where U: Default {\n    todo!()\n}\n";
    let result = extract_outline(source);
    assert_eq!(
        signatures(&result),
        vec![
            "unsafe fn convert<'a, T: Clone + Into < Output >, U>(x: & 'a T, _: U) -> Output where U : Default"
                .to_string()
        ]
    );
}

#[test]
fn const_generic_parameter_rendering() {
    let source = "pub fn fill<const N: usize>(x: [u8; N]) {}\n";
    let result = extract_outline(source);
    assert_eq!(
        signatures(&result),
        vec!["fn fill<const N: const N : usize . ty>(x: [u8 ; N])".to_string()]
    );
}

#[test]
fn receivers_and_patterns() {
    let source = "pub trait T {\n    fn a(self);\n    fn b(&mut self);\n    fn c<'x>(&'x self, mut n: u8, (p, q): (u8, u8));\n    const K: u8;\n}\n";
    let result = extract_outline(source);
    assert_eq!(result.exports.len(), 1);
    assert_eq!(
        result.exports[0].signature,
        "trait T {\n  fn a(self);\n  fn b(&mut self);\n  fn c<'x>(&'x self, n: u8, (p , q): (u8 , u8));\n}"
    );
    assert_eq!(result.exports[0].start_line, 1);
    assert_eq!(result.exports[0].end_line, 6);
}

#[test]
fn trait_without_methods_is_one_line() {
    let source = "pub trait Marker<T> where T: Copy {\n    type Item;\n}\n";
    let result = extract_outline(source);
    assert_eq!(signatures(&result), vec!["trait Marker<T> where T : Copy".to_string()]);
}

#[test]
fn struct_without_public_fields_is_one_line() {
    let source = "#[derive(Default)]\npub struct Hidden {\n    secret: u8,\n}\npub struct Tuple(pub u8);\n";
    let result = extract_outline(source);
    assert_eq!(
        signatures(&result),
        vec!["#[derive(Default)]\nstruct Hidden".to_string(), "struct Tuple".to_string()]
    );
    assert_eq!((result.exports[0].start_line, result.exports[0].end_line), (1, 4));
    assert_eq!((result.exports[1].start_line, result.exports[1].end_line), (5, 5));
}

#[test]
fn struct_field_lines_and_closing_brace() {
    let source = "pub struct P {\n    pub x: i32,\n    y: i32,\n    pub z: Vec<String>,\n}\n";
    let result = extract_outline(source);
    let got: Vec<(String, usize, usize)> = result
        .exports
        .iter()
        .map(|e| (e.signature.clone(), e.start_line, e.end_line))
        .collect();
    assert_eq!(
        got,
        vec![
            ("struct P {".to_string(), 1, 5),
            ("  x: i32".to_string(), 2, 2),
            ("  z: Vec < String >".to_string(), 4, 4),
            ("}".to_string(), 0, 0),
        ]
    );
}

#[test]
fn enum_variant_shapes() {
    let source = "pub enum Shape {\n    Dot,\n    Pair(u8, Vec<u8>),\n    Rect { w: u32, h: u32 },\n}\n";
    let result = extract_outline(source);
    assert_eq!(
        signatures(&result),
        vec![
            "enum Shape {".to_string(),
            "  Dot".to_string(),
            "  Pair(u8, Vec < u8 >)".to_string(),
            "  Rect { w: u32, h: u32 }".to_string(),
            "}".to_string(),
        ]
    );
    assert_eq!(result.exports[1].start_line, 0);
}

#[test]
fn derive_paths_are_joined() {
    let source = "#[doc = \"x\"]\n#[derive(serde::Serialize, Clone)]\n#[derive(Debug)]\npub struct S;\n";
    let result = extract_outline(source);
    assert_eq!(
        signatures(&result),
        vec!["#[derive(serde::Serialize, Clone, Debug)]\nstruct S".to_string()]
    );
}

#[test]
fn static_mut_and_type_alias_generics() {
    let source = "pub static mut COUNTER: u64 = 0;\npub type Pair<A: Copy, B> = (A, B);\n";
    let result = extract_outline(source);
    assert_eq!(
        signatures(&result),
        vec!["static mut COUNTER: u64".to_string(), "type Pair<A: Copy, B>".to_string()]
    );
}

#[test]
fn renamed_grouped_and_glob_imports() {
    let source = "use std::collections::{BTreeMap, HashSet};\nuse std::rc::Rc as Shared;\nuse std::fmt::*;\nuse std::io::Read;\n\npub fn f(a: Option<Shared<HashSet<u8>>>) -> Display {\n    todo!()\n}\n";
    let result = extract_outline(source);
    let got: Vec<(String, usize, usize)> = result
        .imports
        .iter()
        .map(|e| (e.source_text.clone(), e.start_line, e.end_line))
        .collect();
    assert_eq!(
        got,
        vec![
            ("use std::collections::{BTreeMap, HashSet};".to_string(), 1, 1),
            ("use std::rc::Rc as Shared;".to_string(), 2, 2),
        ]
    );
}

#[test]
fn imports_keep_their_source_text_across_lines() {
    let source = "use std::collections::{\n    HashMap,\n    HashSet,\n};\r\npub const M: HashMap<u8, u8> = todo!();\n";
    let result = extract_outline(source);
    assert_eq!(result.imports.len(), 1);
    assert_eq!(
        result.imports[0].source_text,
        "use std::collections::{\n    HashMap,\n    HashSet,\n};"
    );
    assert_eq!((result.imports[0].start_line, result.imports[0].end_line), (1, 4));
}

#[test]
fn bound_words_count_as_references() {
    let source = "use std::fmt::Display;\nuse std::hash::Hash;\npub fn show<T: Display>(t: T) {}\n";
    let result = extract_outline(source);
    assert_eq!(result.imports.len(), 1);
    assert!(result.imports[0].source_text.contains("Display"));
}

#[test]
fn private_items_do_not_reference() {
    let source = "use std::fmt::Display;\nfn hidden(d: Display) {}\npub struct S {\n    d: Display,\n}\n";
    let result = extract_outline(source);
    assert_eq!(result.imports.len(), 0);
    assert_eq!(signatures(&result), vec!["struct S".to_string()]);
}

#[test]
fn public_use_is_export_never_import() {
    let source = "pub use std::fmt::Display;\npub fn f(d: Display) {}\n";
    let result = extract_outline(source);
    assert_eq!(result.imports.len(), 0);
    assert_eq!(
        signatures(&result),
        vec!["use std :: fmt :: Display".to_string(), "fn f(d: Display)".to_string()]
    );
}

#[test]
fn impls_and_macros_are_not_shown() {
    let source = "pub struct S;\nimpl S { pub fn new() -> S { S } }\nmacro_rules! m { () => {} }\n";
    let result = extract_outline(source);
    assert_eq!(signatures(&result), vec!["struct S".to_string()]);
}
