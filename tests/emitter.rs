use wingc::emitter::{emission_order_of, Emitter, Lang};
use wingc::parser::parse_document;
use wingc::python::PyEmitter;
use wingc::rust::RustEmitter;

const PY_HEADER: &str =
    "from wing_rpc import Schema, Enum\nfrom typing import ClassVar\nfrom enum import StrEnum\n\n\n";
const RS_HEADER: &str = "use serde::{Serialize, Deserialize};\nuse wing_rpc::Message as WingMessage;\n\n\n";

fn python(text: &str) -> String {
    PyEmitter::new().emit(&parse_document(text).unwrap())
}

fn rust(text: &str) -> String {
    RustEmitter::new().emit(&parse_document(text).unwrap())
}

#[test]
fn person_in_python() {
    let out = python("struct Person { age: u8; name: string; }");
    let expected = format!(
        "{PY_HEADER}class Person(Schema):\n    __match_args__: ClassVar[tuple] = ('age', 'name',)\n    age: int\n    name: str\n\n\n"
    );
    assert_eq!(out, expected);
}

#[test]
fn person_in_rust() {
    let out = rust("struct Person { age: u8; name: string; }");
    let expected = format!(
        "{RS_HEADER}#[derive(Debug, Clone, PartialEq, Serialize, Deserialize)]\npub struct Person {{\n    pub age: u8,\n    pub name: String,\n}}\n\nimpl<'a> WingMessage<'a> for Person {{\n    const NAME: &'static str = \"Person\";\n}}\n\n"
    );
    assert_eq!(out, expected);
}

#[test]
fn nested_struct_comes_first_in_python() {
    let out = python("enum Message { struct Ping { val: string; code: u32; } }");
    let expected = format!(
        "{PY_HEADER}class Ping(Schema):\n    __match_args__: ClassVar[tuple] = ('val', 'code',)\n    val: str\n    code: int\n\n\nclass Message(Enum):\n    __match_args__: ClassVar[tuple] = ('tag', 'value',)\n    class Tag(StrEnum):\n        Ping = 'Ping'\n    tag: Tag\n    value: Ping\n\n\n"
    );
    assert_eq!(out, expected);
    assert_eq!(out.matches("class Ping(").count(), 1);
    assert!(out.find("class Ping(").unwrap() < out.find("class Message(").unwrap());
}

#[test]
fn nested_struct_comes_first_in_rust() {
    let out = rust("enum Message { struct Ping { val: string; code: u32; } }");
    assert_eq!(out.matches("pub struct Ping {").count(), 1);
    let ping = out.find("pub struct Ping {").unwrap();
    let message = out.find("pub enum Message {").unwrap();
    assert!(ping < message);
    assert!(out.contains("pub enum Message {\n    Ping(Ping),\n}\n\n"));
    assert!(out.contains("const NAME: &'static str = \"Message\";"));
}

#[test]
fn forward_references_are_quoted() {
    let out = python("struct A { b: B; bs: [B]; } struct B { a: A; n: [[f64]] }");
    assert!(out.contains("    b: 'B'\n    bs: list['B']\n"));
    assert!(out.contains("    a: A\n    n: list[list[float]]\n"));
}

#[test]
fn empty_declarations_pass() {
    let out = python("struct Address {} enum Nothing {}");
    assert!(out.contains("class Address(Schema):\n    pass\n\n\n"));
    assert!(out.contains("class Nothing(Enum):\n    pass\n\n\n"));
}

#[test]
fn builtin_mapping_in_both_languages() {
    let text = "struct T { a: uint; b: int; c: binary; d: usize; e: i64; f: bool; g: f32 }";
    let py = python(text);
    assert!(py.contains("    a: int\n    b: int\n    c: bytes\n    d: int\n    e: int\n    f: bool\n    g: float\n"));
    let rs = rust(text);
    assert!(rs.contains(
        "    pub a: u32,\n    pub b: i32,\n    pub c: Vec<u8>,\n    pub d: usize,\n    pub e: i64,\n    pub f: bool,\n    pub g: f32,\n"
    ));
}

#[test]
fn floats_anywhere_below_drop_partial_eq() {
    let out = rust("struct P { x: f32 } struct Q { ps: [P] } struct R { q: Q } struct S { n: u8 }");
    assert_eq!(out.matches("#[derive(Debug, Clone, Serialize, Deserialize)]").count(), 3);
    assert_eq!(out.matches("#[derive(Debug, Clone, PartialEq, Serialize, Deserialize)]").count(), 1);
    assert!(out.contains("PartialEq, Serialize, Deserialize)]\npub struct S {"));
}

#[test]
fn recursive_types_terminate() {
    let out = rust("struct Node { children: [Node]; weight: f64 } struct Tree { root: Node }");
    assert_eq!(out.matches("PartialEq").count(), 0);
    let out = rust("struct List { next: [List]; value: u8 }");
    assert_eq!(out.matches("PartialEq").count(), 1);
}

#[test]
fn emission_order_puts_children_first() {
    let doc = parse_document("enum A { enum B { struct C {} } struct D {} } struct E {}").unwrap();
    let names: Vec<&str> = emission_order_of(&doc).iter().map(|u| u.name()).collect();
    assert_eq!(names, vec!["C", "B", "D", "A", "E"]);
}

#[test]
fn languages_by_name_or_extension() {
    assert_eq!(Lang::from_name("py"), Some(Lang::Python));
    assert_eq!(Lang::from_name("python"), Some(Lang::Python));
    assert_eq!(Lang::from_name("rs"), Some(Lang::Rust));
    assert_eq!(Lang::from_name("rust"), Some(Lang::Rust));
    assert_eq!(Lang::from_name("go"), None);
}

#[test]
fn simple() {
    let out = rust("struct Simple { a: string; b: u32; }");
    let expected = "use serde::{Serialize, Deserialize};\nuse wing_rpc::Message as WingMessage;\n\n\n#[derive(Debug, Clone, PartialEq, Serialize, Deserialize)]\npub struct Simple {\n    pub a: String,\n    pub b: u32,\n}\n\nimpl<'a> WingMessage<'a> for Simple {\n    const NAME: &'static str = \"Simple\";\n}\n\n";
    assert_eq!(out, expected);
}

#[test]
fn nested() {
    let out = rust("struct Address {} struct Person { name: string; age: u8; address: Address; }");
    let expected = "use serde::{Serialize, Deserialize};\nuse wing_rpc::Message as WingMessage;\n\n\n#[derive(Debug, Clone, PartialEq, Serialize, Deserialize)]\npub struct Address {\n}\n\nimpl<'a> WingMessage<'a> for Address {\n    const NAME: &'static str = \"Address\";\n}\n\n#[derive(Debug, Clone, PartialEq, Serialize, Deserialize)]\npub struct Person {\n    pub name: String,\n    pub age: u8,\n    pub address: Address,\n}\n\nimpl<'a> WingMessage<'a> for Person {\n    const NAME: &'static str = \"Person\";\n}\n\n";
    assert_eq!(out, expected);
}

#[test]
fn composite_simple() {
    let out = rust(
        "struct Result { id: usize; title: string; description: string; }
         enum Search { struct ByName { name: string } struct ById { id: usize } }
         enum Message { Search: ById, results: [Result] }",
    );
    let expected = "use serde::{Serialize, Deserialize};\nuse wing_rpc::Message as WingMessage;\n\n\n#[derive(Debug, Clone, PartialEq, Serialize, Deserialize)]\npub struct Result {\n    pub id: usize,\n    pub title: String,\n    pub description: String,\n}\n\nimpl<'a> WingMessage<'a> for Result {\n    const NAME: &'static str = \"Result\";\n}\n\n#[derive(Debug, Clone, PartialEq, Serialize, Deserialize)]\npub struct ByName {\n    pub name: String,\n}\n\nimpl<'a> WingMessage<'a> for ByName {\n    const NAME: &'static str = \"ByName\";\n}\n\n#[derive(Debug, Clone, PartialEq, Serialize, Deserialize)]\npub struct ById {\n    pub id: usize,\n}\n\nimpl<'a> WingMessage<'a> for ById {\n    const NAME: &'static str = \"ById\";\n}\n\n#[derive(Debug, Clone, PartialEq, Serialize, Deserialize)]\npub enum Search {\n    ByName(ByName),\n    ById(ById),\n}\n\nimpl<'a> WingMessage<'a> for Search {\n    const NAME: &'static str = \"Search\";\n}\n\n#[derive(Debug, Clone, PartialEq, Serialize, Deserialize)]\npub enum Message {\n    Search(ById),\n    results(Vec<Result>),\n}\n\nimpl<'a> WingMessage<'a> for Message {\n    const NAME: &'static str = \"Message\";\n}\n\n";
    assert_eq!(out, expected);
}

#[test]
fn reused_emitters_write_the_same_text() {
    let doc = parse_document("struct A { b: B; } struct B { a: A; }").unwrap();
    let mut py = PyEmitter::new();
    let first = py.emit(&doc);
    assert_eq!(py.emit(&doc), first);
    assert_eq!(PyEmitter::new().emit(&doc), first);
    assert!(first.contains("    b: 'B'\n") && first.contains("    a: A\n"));
    let mut rs = RustEmitter::new();
    let first = rs.emit(&doc);
    assert_eq!(rs.emit(&doc), first);
    assert_eq!(first.matches("impl<'a> WingMessage<'a> for").count(), 2);
}
