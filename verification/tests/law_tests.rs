use zat_rust_viewer::collect_type_refs_from_str;
use zat_rust_viewer::extract_outline;
use zat_rust_viewer::OutlineResult;

fn all(r: &OutlineResult) -> (Vec<(String, usize, usize)>, Vec<(String, usize, usize)>) {
    (
        r.imports.iter().map(|e| (e.source_text.clone(), e.start_line, e.end_line)).collect(),
        r.exports.iter().map(|e| (e.signature.clone(), e.start_line, e.end_line)).collect(),
    )
}

#[test]
fn private_item_leaves_outline_unchanged() {
    let without = "use std::fmt::Display;\npub fn a(x: Display) {}\n\npub struct B;\n";
    let with = "use std::fmt::Display;\npub fn a(x: Display) {}\nfn hidden(y: Display) -> u8 { 0 }\npub struct B;\n";
    assert_eq!(all(&extract_outline(without)), all(&extract_outline(with)));
}

#[test]
fn entries_follow_source_order() {
    let first = "pub const A: u8 = 1;\npub mod m;\n";
    let second = "pub static S: u8 = 2;\npub fn z() {}\n";
    let joined = format!("{}{}", first, second);
    let r = extract_outline(&joined);
    let names: Vec<String> = r.exports.iter().map(|e| e.signature.clone()).collect();
    assert_eq!(
        names,
        vec![
            "const A: u8".to_string(),
            "mod m".to_string(),
            "static S: u8".to_string(),
            "fn z()".to_string(),
        ]
    );
    let lines: Vec<usize> = r.exports.iter().map(|e| e.start_line).collect();
    assert_eq!(lines, vec![1, 2, 3, 4]);
}

#[test]
fn no_references_no_imports() {
    let source = "use std::collections::HashMap;\nuse std::io::Read;\npub fn f(x: u8) -> bool { true }\n";
    let r = extract_outline(source);
    assert_eq!(r.imports.len(), 0);
}

#[test]
fn entry_counts_per_kind() {
    let source = "pub enum E { A, B, C, D }\npub struct S { pub a: u8, pub b: u8, c: u8 }\npub struct T { c: u8 }\npub fn f() {}\n";
    let r = extract_outline(source);
    // enum: 4 variants + 2, struct S: 2 shown fields + 2, struct T: 1, fn: 1
    assert_eq!(r.exports.len(), 6 + 4 + 1 + 1);
}

#[test]
fn first_entry_covers_item_lines() {
    let source = "\n\npub struct S {\n    pub a: u8,\n}\n\npub trait T {\n    fn x(&self);\n}\n";
    let r = extract_outline(source);
    assert_eq!((r.exports[0].start_line, r.exports[0].end_line), (3, 5));
    assert_eq!(r.exports[3].signature, "trait T {\n  fn x(&self);\n}");
    assert_eq!((r.exports[3].start_line, r.exports[3].end_line), (7, 9));
}

#[test]
fn public_use_is_never_import() {
    let source = "pub use a::Thing;\nuse b::Thing;\npub fn f(t: Thing) {}\n";
    let r = extract_outline(source);
    assert_eq!(r.imports.len(), 1);
    assert_eq!(r.imports[0].source_text, "use b::Thing;");
    assert_eq!(r.exports[0].signature, "use a :: Thing");
}

#[test]
fn scanning_in_parts_equals_scanning_joined() {
    let s1 = "Vec<Option<u8>> + Send";
    let s2 = "where T: Into<HashMap<K, V>>";
    let mut parts: Vec<String> = vec!["Seed".to_string()];
    collect_type_refs_from_str(s1, &mut parts);
    collect_type_refs_from_str(s2, &mut parts);
    let mut reversed: Vec<String> = vec!["Seed".to_string()];
    collect_type_refs_from_str(s2, &mut reversed);
    collect_type_refs_from_str(s1, &mut reversed);
    let mut joined: Vec<String> = vec!["Seed".to_string()];
    collect_type_refs_from_str(&format!("{} {}", s1, s2), &mut joined);
    let as_set = |v: &Vec<String>| {
        let mut v = v.clone();
        v.sort();
        v.dedup();
        v
    };
    assert_eq!(as_set(&parts), as_set(&joined));
    assert_eq!(as_set(&reversed), as_set(&joined));
    assert_eq!(
        as_set(&joined),
        vec!["HashMap", "Into", "K", "Option", "Seed", "Send", "T", "V", "Vec"]
    );
}

#[test]
fn recorded_names_stand_in_text_and_nothing_else_is_added() {
    let text = "a::Bc + d_E9<Fg_h>";
    let mut refs: Vec<String> = vec!["Old".to_string()];
    collect_type_refs_from_str(text, &mut refs);
    assert_eq!(refs[0], "Old");
    for name in &refs[1..] {
        assert!(text.contains(name.as_str()));
        assert!(name.chars().next().unwrap().is_uppercase());
    }
    let mut none: Vec<String> = vec!["Old".to_string()];
    collect_type_refs_from_str("u8 :: std", &mut none);
    assert_eq!(none, vec!["Old".to_string()]);
}

#[test]
fn only_a_derive_path_lists_derives() {
    let source = "#[serde(rename_all = \"x\")]\n#[a::derive(Copy)]\n#[derive(Clone)]\npub struct S;\n";
    let r = extract_outline(source);
    assert_eq!(r.exports[0].signature, "#[derive(Clone)]\nstruct S");
}
