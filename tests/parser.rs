use wingc::ast::{Builtin, Document, Enum, EnumVariant, Struct, StructField, Type, UserType};
use wingc::parser::{parse_document, parse_type_str};
use wingc::span::Spanned;

fn s(text: &str) -> String {
    text.to_owned()
}

fn builtin(b: Builtin) -> Type {
    Type::Builtin(b)
}

fn user(name: &str) -> Type {
    Type::User(s(name))
}

fn list(inner: Type) -> Type {
    Type::List(Box::new(inner))
}

fn field(name: &str, typ: Type) -> Spanned<StructField> {
    Spanned::new_unspanned(StructField::new(name, typ))
}

fn strukt(name: &str, fields: Vec<Spanned<StructField>>) -> UserType {
    UserType::Struct(Spanned::new_unspanned(Struct { name: s(name), fields }))
}

fn enumeration(name: &str, definitions: Vec<Spanned<EnumVariant>>) -> UserType {
    UserType::Enum(Spanned::new_unspanned(Enum { name: s(name), definitions }))
}

fn named(name: &str, typ: Type) -> Spanned<EnumVariant> {
    Spanned::new_unspanned(EnumVariant::NamedVariant(StructField::new(name, typ)))
}

fn nested(u: UserType) -> Spanned<EnumVariant> {
    Spanned::new_unspanned(EnumVariant::UserType(u))
}

fn doc(user_types: Vec<UserType>) -> Document {
    Document { user_types: user_types.into_iter().map(Spanned::new_unspanned).collect() }
}

fn person() -> Document {
    doc(vec![strukt(
        "Person",
        vec![
            field("age", builtin(Builtin::U8)),
            field("name", builtin(Builtin::String)),
            field("mood", builtin(Builtin::F32)),
            field("hair", user("Hair")),
        ],
    )])
}

fn two_structs() -> Document {
    doc(vec![
        strukt(
            "A1",
            vec![
                field("darega", builtin(Builtin::U32)),
                field("omaga", builtin(Builtin::I32)),
                field("odiga", builtin(Builtin::F32)),
            ],
        ),
        strukt(
            "A2",
            vec![
                field("lerolero", builtin(Builtin::U8)),
                field("lepolepo", builtin(Builtin::Int)),
                field("tibirabirom", builtin(Builtin::USize)),
            ],
        ),
    ])
}

const SIMPLE_PERSON: &str = "
                struct Person {
                    age: u8;
                    name: string;
                    mood: f32;
                    hair: Hair,
                }
            ";

const MIXED_PERSON: &str = "
                struct Person {
                    age: u8,
                    name: string,
                    mood: f32,
                    hair: Hair;
                }
            ";

const MULTIPLE_STRUCTS: &str = "
                struct A1 {
                    darega: u32;
                    omaga: i32;
                    odiga: f32;
                }

                struct A2 {
                    lerolero: u8;
                    lepolepo: int;
                    tibirabirom: usize;
                }
            ";

#[test]
fn test_simple_person() {
    assert_eq!(parse_document(SIMPLE_PERSON).unwrap(), person());
}

#[test]
fn parser_test_simple_person() {
    assert_eq!(parse_document(SIMPLE_PERSON).unwrap(), person());
}

#[test]
fn test_mixed_person() {
    assert_eq!(parse_document(MIXED_PERSON).unwrap(), person());
}

#[test]
fn parser_test_mixed_person() {
    assert_eq!(parse_document(MIXED_PERSON).unwrap(), person());
}

#[test]
fn test_multiple_structs() {
    assert_eq!(parse_document(MULTIPLE_STRUCTS).unwrap(), two_structs());
}

#[test]
fn parser_test_multiple_structs() {
    assert_eq!(parse_document(MULTIPLE_STRUCTS).unwrap(), two_structs());
}

#[test]
fn parse_list() {
    assert_eq!(parse_type_str("[int]").unwrap(), list(builtin(Builtin::Int)));
    assert_eq!(parse_type_str("[u8]").unwrap(), list(builtin(Builtin::U8)));
    assert_eq!(parse_type_str("[string]").unwrap(), list(builtin(Builtin::String)));
}

#[test]
fn parser_parse_list() {
    assert_eq!(parse_type_str("[int]").unwrap(), list(builtin(Builtin::Int)));
    assert_eq!(parse_type_str("[u8]").unwrap(), list(builtin(Builtin::U8)));
    assert_eq!(parse_type_str("[string]").unwrap(), list(builtin(Builtin::String)));
}

#[test]
fn parse_list_nested() {
    assert_eq!(parse_type_str("[[int]]").unwrap(), list(list(builtin(Builtin::Int))));
}

#[test]
fn parser_parse_list_nested() {
    assert_eq!(parse_type_str("[[int]]").unwrap(), list(list(builtin(Builtin::Int))));
}

#[test]
fn test_simple_enum() {
    let parsed = parse_document(
        "
                enum Color {
                    RGB: RGB,
                    HSLV: HSLV,
                    Gray: Gray,
                }
            ",
    )
    .unwrap();
    let expected = doc(vec![enumeration(
        "Color",
        vec![named("RGB", user("RGB")), named("HSLV", user("HSLV")), named("Gray", user("Gray"))],
    )]);
    assert_eq!(parsed, expected);
}

#[test]
fn parser_test_simple_enum() {
    let parsed = parse_document(
        "
                enum Color {
                    RGB,
                    HSLV,
                    Gray
                }
            ",
    )
    .unwrap();
    let expected = doc(vec![enumeration(
        "Color",
        vec![named("RGB", user("RGB")), named("HSLV", user("HSLV")), named("Gray", user("Gray"))],
    )]);
    assert_eq!(parsed, expected);
}

#[test]
fn test_enum_composite() {
    let parsed = parse_document(
        "
                enum Message {
                    struct Ping {
                        val: string,
                        code: u32
                    }
                    enum Download {
                        struct Covers;
                        struct Images {
                            by: String
                        }
                    }
                }
            ",
    )
    .unwrap();
    let expected = doc(vec![enumeration(
        "Message",
        vec![
            nested(strukt(
                "Ping",
                vec![field("val", builtin(Builtin::String)), field("code", builtin(Builtin::U32))],
            )),
            nested(enumeration(
                "Download",
                vec![
                    nested(strukt("Covers", vec![])),
                    nested(strukt("Images", vec![field("by", builtin(Builtin::String))])),
                ],
            )),
        ],
    )]);
    assert_eq!(parsed, expected);
}

#[test]
fn parse_is_repeatable() {
    let first = parse_document(MULTIPLE_STRUCTS).unwrap();
    let second = parse_document(MULTIPLE_STRUCTS).unwrap();
    assert_eq!(first, second);
    assert_eq!(first.user_types[1].span, second.user_types[1].span);
}

#[test]
fn spans_cover_declarations_and_fields() {
    let parsed = parse_document("struct A { x: [u8]; }").unwrap();
    let decl = &parsed.user_types[0];
    assert_eq!(decl.span.offset, 0);
    assert_eq!(decl.span.length, 21);
    assert_eq!(decl.span.end(), 21);
    match &decl.value {
        UserType::Struct(st) => {
            assert_eq!(st.value.fields[0].span.offset, 11);
            assert_eq!(st.value.fields[0].span.length, 7);
        }
        UserType::Enum(_) => panic!("expected a struct"),
    }
}

#[test]
fn builtin_names_ignore_case() {
    assert_eq!(parse_type_str("USize").unwrap(), builtin(Builtin::USize));
    assert_eq!(parse_type_str("Binary").unwrap(), builtin(Builtin::Binary));
    assert_eq!(parse_type_str("Bin").unwrap(), user("Bin"));
}

#[test]
fn syntax_errors_report_where_reading_stopped() {
    assert_eq!(parse_document("struct A { x u8 }").unwrap_err().offset, 13);
    assert_eq!(parse_document("struct A { x: [u8 }").unwrap_err().offset, 18);
    assert_eq!(parse_document("struct A {} trailing").unwrap_err().offset, 12);
    assert!(parse_type_str("[int] x").is_err());
    assert!(parse_document("struct É {}").is_err());
}

#[test]
fn empty_text_is_an_empty_document() {
    assert_eq!(parse_document("  \n\t").unwrap(), doc(vec![]));
}
