//! The language's grammar, stated over the characters of a source text.
//!
//! ```text
//! document     := user_type* blank*
//! user_type    := struct | enum
//! struct       := "struct" ident ( "{" (struct_field sep?)* "}" )?
//! enum         := "enum" ident ( "{" (enum_variant sep?)* "}" )?
//! struct_field := ident ":" type
//! enum_variant := struct_field | user_type | ident
//! type         := "[" type "]" | ident
//! sep          := ";" | ","
//! ident        := [A-Za-z0-9_]+
//! ```
//!
//! Blanks (space, tab, newline, carriage return) may stand before any token.
//! A bare `ident` as an enum variant names both the variant and its type.
//! An identifier that equals a builtin's name, ignoring ASCII case, is that
//! builtin; any other is a user type name.
use vstd::prelude::*;

use crate::ast::{Builtin, FieldModel, TypeModel, UserTypeModel, VariantModel};
use crate::span::Span;

verus! {

pub open spec fn is_blank(c: char) -> bool {
    c == ' ' || c == '\t' || c == '\n' || c == '\r'
}

pub open spec fn is_ident_char(c: char) -> bool {
    let n = c as u32;
    (97 <= n && n <= 122) || (65 <= n && n <= 90) || (48 <= n && n <= 57) || n == 95
}

/// The first position at or after `i` that does not hold a blank.
pub open spec fn skip_blanks(t: Seq<char>, i: int) -> int
    decreases t.len() - i,
{
    if 0 <= i < t.len() && is_blank(t[i]) {
        skip_blanks(t, i + 1)
    } else {
        i
    }
}

/// The first position at or after `i` that does not hold an identifier character.
pub open spec fn ident_end(t: Seq<char>, i: int) -> int
    decreases t.len() - i,
{
    if 0 <= i < t.len() && is_ident_char(t[i]) {
        ident_end(t, i + 1)
    } else {
        i
    }
}

pub open spec fn char_at(t: Seq<char>, i: int, c: char) -> bool {
    0 <= i < t.len() && t[i] == c
}

/// The identifier that follows the blanks at `i`: where it starts and ends.
pub open spec fn ident_after(t: Seq<char>, i: int) -> Option<(int, int)> {
    let j = skip_blanks(t, i);
    let e = ident_end(t, j);
    if j < e {
        Some((j, e))
    } else {
        None
    }
}

/// The position after an optional separator that follows the blanks at `k`.
pub open spec fn after_sep(t: Seq<char>, k: int) -> int {
    let m = skip_blanks(t, k);
    if char_at(t, m, ';') || char_at(t, m, ',') {
        m + 1
    } else {
        k
    }
}

pub open spec fn span_of(a: int, b: int) -> Span {
    Span { offset: a as usize, length: (b - a) as usize }
}

pub open spec fn is_keyword(s: Seq<char>) -> bool {
    s == "struct"@ || s == "enum"@
}

/// The name by which the language knows a builtin, in lower case.
pub open spec fn builtin_name(b: Builtin) -> Seq<char> {
    match b {
        Builtin::U8 => "u8"@,
        Builtin::U16 => "u16"@,
        Builtin::U32 => "u32"@,
        Builtin::U64 => "u64"@,
        Builtin::USize => "usize"@,
        Builtin::I8 => "i8"@,
        Builtin::I16 => "i16"@,
        Builtin::I32 => "i32"@,
        Builtin::I64 => "i64"@,
        Builtin::ISize => "isize"@,
        Builtin::UInt => "uint"@,
        Builtin::Int => "int"@,
        Builtin::F32 => "f32"@,
        Builtin::F64 => "f64"@,
        Builtin::Bool => "bool"@,
        Builtin::String => "string"@,
        Builtin::Binary => "binary"@,
    }
}

pub open spec fn all_builtins() -> Seq<Builtin> {
    seq![
        Builtin::U8,
        Builtin::U16,
        Builtin::U32,
        Builtin::U64,
        Builtin::USize,
        Builtin::I8,
        Builtin::I16,
        Builtin::I32,
        Builtin::I64,
        Builtin::ISize,
        Builtin::UInt,
        Builtin::Int,
        Builtin::F32,
        Builtin::F64,
        Builtin::Bool,
        Builtin::String,
        Builtin::Binary,
    ]
}

/// `c` is the lower-case letter `l`, or its ASCII upper case.
pub open spec fn same_letter(c: char, l: char) -> bool {
    c == l || (65 <= c as u32 && c as u32 <= 90 && c as u32 + 32 == l as u32)
}

/// `s` spells the lower-case word `w`, ignoring ASCII case.
pub open spec fn spells(s: Seq<char>, w: Seq<char>) -> bool {
    s.len() == w.len() && forall|k: int| 0 <= k < s.len() ==> same_letter(#[trigger] s[k], w[k])
}

/// The first builtin of `bs` whose name `s` spells.
pub open spec fn first_builtin(s: Seq<char>, bs: Seq<Builtin>) -> Option<Builtin>
    decreases bs.len(),
{
    if bs.len() == 0 {
        None
    } else if spells(s, builtin_name(bs[0])) {
        Some(bs[0])
    } else {
        first_builtin(s, bs.drop_first())
    }
}

pub open spec fn builtin_named(s: Seq<char>) -> Option<Builtin> {
    first_builtin(s, all_builtins())
}

/// The type that an identifier denotes.
pub open spec fn type_of_ident(s: Seq<char>) -> TypeModel {
    match builtin_named(s) {
        Some(b) => TypeModel::Builtin(b),
        None => TypeModel::User(s),
    }
}

/// What reading from a position gives: where the reading ends and what was
/// read, or the position where the text stops matching the grammar.
pub type Parsed<T> = Result<(int, T), int>;

/// Reading failed, at position `p`.
pub open spec fn stops_at<T>(r: Parsed<T>, p: int) -> bool {
    r matches Err(e) && e == p
}

/// A type that follows position `i`.
pub open spec fn parse_type(t: Seq<char>, i: int) -> Parsed<TypeModel>
    decreases t.len() - i,
{
    let j = skip_blanks(t, i);
    if char_at(t, j, '[') {
        if i < j + 1 {
            match parse_type(t, j + 1) {
                Ok((k, inner)) => {
                    let m = skip_blanks(t, k);
                    if char_at(t, m, ']') {
                        Ok((m + 1, TypeModel::List(Box::new(inner))))
                    } else {
                        Err(m)
                    }
                },
                Err(e) => Err(e),
            }
        } else {
            Err(j)
        }
    } else {
        match ident_after(t, i) {
            Some((a, b)) => Ok((b, type_of_ident(t.subrange(a, b)))),
            None => Err(j),
        }
    }
}

/// A field `name: type` that follows position `i`.
pub open spec fn parse_field(t: Seq<char>, i: int) -> Parsed<FieldModel> {
    match ident_after(t, i) {
        Some((a, b)) => {
            let c = skip_blanks(t, b);
            if char_at(t, c, ':') {
                match parse_type(t, c + 1) {
                    Ok((k, ty)) => Ok(
                        (k, FieldModel { span: span_of(a, k), name: t.subrange(a, b), typ: ty }),
                    ),
                    Err(e) => Err(e),
                }
            } else {
                Err(c)
            }
        },
        None => Err(skip_blanks(t, i)),
    }
}

/// The fields of a struct body up to and including its closing brace.
pub open spec fn parse_fields(t: Seq<char>, i: int) -> Parsed<Seq<FieldModel>>
    decreases t.len() - i,
{
    let j = skip_blanks(t, i);
    if char_at(t, j, '}') {
        Ok((j + 1, Seq::empty()))
    } else {
        match parse_field(t, i) {
            Ok((k, f)) => {
                let n = after_sep(t, k);
                if i < n && n <= t.len() {
                    match parse_fields(t, n) {
                        Ok((e, fs)) => Ok((e, seq![f] + fs)),
                        Err(e) => Err(e),
                    }
                } else {
                    Err(n)
                }
            },
            Err(e) => Err(e),
        }
    }
}

/// A struct whose keyword occupies `a..b`.
pub open spec fn parse_struct(t: Seq<char>, a: int, b: int) -> Parsed<UserTypeModel> {
    match ident_after(t, b) {
        Some((c, d)) => {
            let m = skip_blanks(t, d);
            if char_at(t, m, '{') {
                match parse_fields(t, m + 1) {
                    Ok((e, fs)) => Ok(
                        (
                            e,
                            UserTypeModel::Struct {
                                span: span_of(a, e),
                                name: t.subrange(c, d),
                                fields: fs,
                            },
                        ),
                    ),
                    Err(e) => Err(e),
                }
            } else {
                Ok(
                    (
                        d,
                        UserTypeModel::Struct {
                            span: span_of(a, d),
                            name: t.subrange(c, d),
                            fields: Seq::empty(),
                        },
                    ),
                )
            }
        },
        None => Err(skip_blanks(t, b)),
    }
}

/// A struct or enum declaration that follows position `i`.
pub open spec fn parse_user_type(t: Seq<char>, i: int) -> Parsed<UserTypeModel>
    decreases t.len() - i, 0int,
{
    match ident_after(t, i) {
        Some((a, b)) => {
            if t.subrange(a, b) == "struct"@ {
                parse_struct(t, a, b)
            } else if t.subrange(a, b) == "enum"@ {
                match ident_after(t, b) {
                    Some((c, d)) => {
                        let m = skip_blanks(t, d);
                        if char_at(t, m, '{') {
                            if i < m + 1 {
                                match parse_variants(t, m + 1) {
                                    Ok((e, vs)) => Ok(
                                        (
                                            e,
                                            UserTypeModel::Enum {
                                                span: span_of(a, e),
                                                name: t.subrange(c, d),
                                                variants: vs,
                                            },
                                        ),
                                    ),
                                    Err(e) => Err(e),
                                }
                            } else {
                                Err(m)
                            }
                        } else {
                            Ok(
                                (
                                    d,
                                    UserTypeModel::Enum {
                                        span: span_of(a, d),
                                        name: t.subrange(c, d),
                                        variants: Seq::empty(),
                                    },
                                ),
                            )
                        }
                    },
                    None => Err(skip_blanks(t, b)),
                }
            } else {
                Err(a)
            }
        },
        None => Err(skip_blanks(t, i)),
    }
}

/// The variants of an enum body up to and including its closing brace.
pub open spec fn parse_variants(t: Seq<char>, i: int) -> Parsed<Seq<VariantModel>>
    decreases t.len() - i, 2int,
{
    let j = skip_blanks(t, i);
    if char_at(t, j, '}') {
        Ok((j + 1, Seq::empty()))
    } else {
        match parse_variant(t, i) {
            Ok((k, v)) => {
                let n = after_sep(t, k);
                if i < n && n <= t.len() {
                    match parse_variants(t, n) {
                        Ok((e, vs)) => Ok((e, seq![v] + vs)),
                        Err(e) => Err(e),
                    }
                } else {
                    Err(n)
                }
            },
            Err(e) => Err(e),
        }
    }
}

/// One enum variant that follows position `i`.
pub open spec fn parse_variant(t: Seq<char>, i: int) -> Parsed<VariantModel>
    decreases t.len() - i, 1int,
{
    match ident_after(t, i) {
        Some((a, b)) => {
            let c = skip_blanks(t, b);
            let s = t.subrange(a, b);
            if char_at(t, c, ':') {
                match parse_type(t, c + 1) {
                    Ok((k, ty)) => Ok(
                        (k, VariantModel::Named(FieldModel { span: span_of(a, k), name: s, typ: ty })),
                    ),
                    Err(e) => Err(e),
                }
            } else if is_keyword(s) {
                match parse_user_type(t, i) {
                    Ok((k, u)) => Ok((k, VariantModel::Nested(u.span(), u))),
                    Err(e) => Err(e),
                }
            } else {
                Ok(
                    (
                        b,
                        VariantModel::Named(
                            FieldModel { span: span_of(a, b), name: s, typ: type_of_ident(s) },
                        ),
                    ),
                )
            }
        },
        None => Err(skip_blanks(t, i)),
    }
}

/// The declarations from position `i` to the end of the text.
pub open spec fn parse_items(t: Seq<char>, i: int) -> Result<Seq<UserTypeModel>, int>
    decreases t.len() - i,
{
    if skip_blanks(t, i) >= t.len() {
        Ok(Seq::empty())
    } else {
        match parse_user_type(t, i) {
            Ok((k, u)) => {
                if i < k && k <= t.len() {
                    match parse_items(t, k) {
                        Ok(us) => Ok(seq![u] + us),
                        Err(e) => Err(e),
                    }
                } else {
                    Err(k)
                }
            },
            Err(e) => Err(e),
        }
    }
}

/// A type that makes up a whole text, blanks aside.
pub open spec fn parse_type_text(t: Seq<char>) -> Result<TypeModel, int> {
    match parse_type(t, 0) {
        Ok((k, ty)) => if skip_blanks(t, k) >= t.len() {
            Ok(ty)
        } else {
            Err(skip_blanks(t, k))
        },
        Err(e) => Err(e),
    }
}

/// The declarations of a whole source text, or the position where it stops
/// matching the grammar.
pub open spec fn parse_text(t: Seq<char>) -> Result<Seq<UserTypeModel>, int> {
    parse_items(t, 0)
}

} // verus!
