use wingc::analyzer::{analyze_errors, declared_names, suggest, undefined_types, Error, Undefined};
use wingc::parser::parse_document;
use wingc::span::{Span, Spanned};

/// The position of the declared name most similar to `name`, where the
/// Jaro-Winkler similarity exceeds 0.9.
fn close_match(name: &str, declared: &[String]) -> Option<usize> {
    let mut best: Option<(usize, f64)> = None;
    for (k, candidate) in declared.iter().enumerate() {
        let score = rapidfuzz::distance::jaro_winkler::similarity(name.chars(), candidate.chars());
        if score > 0.90 && best.map_or(true, |(_, b)| score > b) {
            best = Some((k, score));
        }
    }
    best.map(|(k, _)| k)
}

fn analyze(text: &str) -> Result<(), Error> {
    let doc = parse_document(text).unwrap();
    let names = declared_names(&doc);
    let close: Vec<Option<usize>> =
        undefined_types(&doc).iter().map(|r| close_match(&r.value, &names)).collect();
    analyze_errors(&doc, &close)
}

#[test]
fn only_builtins_has_nothing_to_report() {
    let text = "struct P { a: u8; b: [[string]]; c: binary } enum E { x: f64, y: [bool] }";
    assert_eq!(analyze(text), Ok(()));
}

#[test]
fn undeclared_variants_give_three_diagnostics() {
    let doc = parse_document("enum Color { RGB, HSLV, Gray }").unwrap();
    match analyze_errors(&doc, &vec![]) {
        Err(Error::MultipleErrors(found)) => {
            let names: Vec<&str> = found.iter().map(|d| d.name.value.as_str()).collect();
            assert_eq!(names, vec!["RGB", "HSLV", "Gray"]);
            assert_eq!(found[0].name.span, Span { offset: 13, length: 3 });
        }
        other => panic!("expected several errors, got {:?}", other),
    }
}

#[test]
fn close_name_is_suggested() {
    let result = analyze("struct A { x: B; } struct Bb { }");
    match result {
        Err(Error::UndefinedType(d)) => {
            assert_eq!(d.name.value, "B");
            assert_eq!(d.suggestion.as_deref(), Some("Bb"));
        }
        other => panic!("expected one error, got {:?}", other),
    }
}

#[test]
fn given_close_match_wins() {
    let doc = parse_document("struct A { x: Persn; } struct Person { } struct Pet { }").unwrap();
    let names = declared_names(&doc);
    assert_eq!(names, vec!["A", "Person", "Pet"]);
    let expected = Undefined {
        name: Spanned::new(Span { offset: 11, length: 8 }, "Persn".to_owned()),
        suggestion: Some("Pet".to_owned()),
    };
    assert_eq!(analyze_errors(&doc, &vec![Some(2)]), Err(Error::UndefinedType(expected)));
    let jw = analyze("struct A { x: Persn; } struct Person { } struct Pet { }");
    match jw {
        Err(Error::UndefinedType(d)) => assert_eq!(d.suggestion.as_deref(), Some("Person")),
        other => panic!("expected one error, got {:?}", other),
    }
}

#[test]
fn suggestion_from_position_or_matcher() {
    let declared = vec!["Alpha".to_owned(), "Beta".to_owned()];
    assert_eq!(suggest("Alfa", &declared, Some(0)), Some("Alpha".to_owned()));
    assert_eq!(suggest("Bt", &declared, None), Some("Beta".to_owned()));
    assert_eq!(suggest("Bt", &declared, Some(7)), Some("Beta".to_owned()));
    assert_eq!(suggest("zzz", &declared, None), None);
    assert_eq!(suggest("Bt", &vec![], None), None);
}

#[test]
fn nested_declarations_are_known() {
    let text = "enum Message { struct Ping { val: string; code: u32; } ping: Ping, more: [Pong] }";
    let doc = parse_document(text).unwrap();
    assert_eq!(declared_names(&doc), vec!["Message", "Ping"]);
    let missing = undefined_types(&doc);
    assert_eq!(missing.len(), 1);
    assert_eq!(missing[0].value, "Pong");
}

#[test]
fn references_inside_nested_declarations_are_checked() {
    let doc = parse_document("enum M { struct P { a: Q; b: [R] } }").unwrap();
    let missing: Vec<String> = undefined_types(&doc).into_iter().map(|r| r.value).collect();
    assert_eq!(missing, vec!["Q", "R"]);
}

#[test]
fn analysis_is_repeatable() {
    let text = "struct A { x: B; y: C; } struct D { z: [E] }";
    let first = analyze(text);
    let second = analyze(text);
    assert_eq!(first, second);
    match first {
        Err(Error::MultipleErrors(found)) => assert_eq!(found.len(), 3),
        other => panic!("expected several errors, got {:?}", other),
    }
}

#[test]
fn messages() {
    let one = Undefined {
        name: Spanned::new_unspanned("B".to_owned()),
        suggestion: None,
    };
    assert_eq!(one.message(), "Undefined type 'B'.");
    let many = Error::MultipleErrors(vec![
        Undefined { name: Spanned::new_unspanned("B".to_owned()), suggestion: None },
        Undefined { name: Spanned::new_unspanned("C".to_owned()), suggestion: None },
    ]);
    assert_eq!(many.message(), "Many errors were found.\nUndefined type 'B'.\nUndefined type 'C'.");
    assert_eq!(Error::UndefinedType(one).message(), "Undefined type 'B'.");
}
