use zat_rust_viewer::extract_outline;

#[test]
fn test_pub_function() {
    let source = r#"
pub fn greet(name: String) -> String {
    format!("Hello, {}!", name)
}
"#;
    let result = extract_outline(source);
    assert_eq!(result.exports.len(), 1);
    assert_eq!(
        result.exports[0].signature,
        "fn greet(name: String) -> String"
    );
    assert_eq!(result.exports[0].start_line, 2);
    assert_eq!(result.exports[0].end_line, 4);
}

#[test]
fn test_private_function_excluded() {
    let source = r#"
fn private_helper() -> i32 {
    42
}
"#;
    let result = extract_outline(source);
    assert_eq!(result.exports.len(), 0);
}

#[test]
fn test_pub_struct_with_derive() {
    let source = r#"
#[derive(Debug, Clone)]
pub struct User {
    pub name: String,
    pub age: u32,
}
"#;
    let result = extract_outline(source);
    // header + 2 pub fields + closing brace = 4 entries
    assert_eq!(result.exports.len(), 4);
    assert!(result.exports[0].signature.contains("struct User"));
    assert!(result.exports[0].signature.contains("Debug"));
    assert!(result.exports[0].signature.contains("Clone"));
    assert!(result.exports[1].signature.contains("name: String"));
    assert!(result.exports[2].signature.contains("age: u32"));
}

#[test]
fn test_pub_enum() {
    let source = r#"
#[derive(Debug)]
pub enum Color {
    Red,
    Green,
    Blue,
}
"#;
    let result = extract_outline(source);
    assert_eq!(result.exports.len(), 5);
    assert!(result.exports[0].signature.contains("#[derive(Debug)]"));
    assert!(result.exports[0].signature.contains("enum Color {"));
    assert_eq!(result.exports[1].signature, "  Red");
    assert_eq!(result.exports[2].signature, "  Green");
    assert_eq!(result.exports[3].signature, "  Blue");
    assert_eq!(result.exports[4].signature, "}");
}

#[test]
fn test_pub_trait_with_methods() {
    let source = r#"
pub trait Processor {
    fn process(&self, input: Vec<u8>) -> Result<String, Error>;
    fn reset(&mut self);
}
"#;
    let result = extract_outline(source);
    assert_eq!(result.exports.len(), 1);
    assert!(result.exports[0].signature.contains("trait Processor"));
    assert!(result.exports[0].signature.contains("fn process"));
    assert!(result.exports[0].signature.contains("fn reset"));
}

#[test]
fn test_pub_type_alias() {
    let source = r#"
pub type Result<T> = std::result::Result<T, MyError>;
"#;
    let result = extract_outline(source);
    assert_eq!(result.exports.len(), 1);
    assert!(result.exports[0].signature.contains("type Result"));
}

#[test]
fn test_pub_const() {
    let source = r#"
pub const MAX_SIZE: usize = 1024;
"#;
    let result = extract_outline(source);
    assert_eq!(result.exports.len(), 1);
    assert_eq!(
        result.exports[0].signature,
        "const MAX_SIZE: usize"
    );
}

#[test]
fn test_pub_static() {
    let source = r#"
pub static GLOBAL_COUNT: u32 = 0;
"#;
    let result = extract_outline(source);
    assert_eq!(result.exports.len(), 1);
    assert_eq!(
        result.exports[0].signature,
        "static GLOBAL_COUNT: u32"
    );
}

#[test]
fn test_pub_mod() {
    let source = r#"
pub mod utils;
"#;
    let result = extract_outline(source);
    assert_eq!(result.exports.len(), 1);
    assert_eq!(result.exports[0].signature, "mod utils");
}

#[test]
fn test_pub_use_as_export() {
    let source = r#"
pub use crate::types::Config;
"#;
    let result = extract_outline(source);
    assert_eq!(result.exports.len(), 1);
    assert!(result.exports[0].signature.contains("use"));
    assert!(result.exports[0].signature.contains("Config"));
}

#[test]
fn test_async_function() {
    let source = r#"
pub async fn fetch_data(url: String) -> Result<Vec<u8>, Error> {
    todo!()
}
"#;
    let result = extract_outline(source);
    assert_eq!(result.exports.len(), 1);
    assert!(result.exports[0].signature.contains("async"));
    assert!(result.exports[0].signature.contains("fetch_data"));
}

#[test]
fn test_import_filtering() {
    let source = r#"
use std::collections::HashMap;
use std::io::Read;

pub fn get_map() -> HashMap<String, i32> {
    HashMap::new()
}
"#;
    let result = extract_outline(source);
    assert_eq!(result.exports.len(), 1);
    // HashMap is referenced in the signature, Read is not
    assert_eq!(result.imports.len(), 1);
    assert!(result.imports[0].source_text.contains("HashMap"));
}

#[test]
fn test_import_filtering_none_referenced() {
    let source = r#"
use std::io::Read;

pub fn greet(name: String) -> String {
    format!("Hello, {}!", name)
}
"#;
    let result = extract_outline(source);
    assert_eq!(result.exports.len(), 1);
    assert_eq!(result.imports.len(), 0);
}

#[test]
fn test_line_numbers() {
    let source = r#"use std::io;

pub fn first() -> i32 {
    // line 4
    // line 5
    42
}

pub fn second() -> String {
    // line 10
    String::new()
}
"#;
    let result = extract_outline(source);
    assert_eq!(result.exports.len(), 2);
    assert_eq!(result.exports[0].start_line, 3);
    assert_eq!(result.exports[0].end_line, 7);
    assert_eq!(result.exports[1].start_line, 9);
    assert_eq!(result.exports[1].end_line, 12);
}
