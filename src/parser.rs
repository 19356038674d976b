use vstd::prelude::*;
use vstd::std_specs::iter::IteratorSpec;
use vstd::string::StrSliceExecFns;

use crate::ast::{
    UserTypeModel, TypeModel, fields_model, user_types_model, variants_model, field_model, type_model, user_type_model, variant_model, Builtin, Document, Enum, EnumVariant,
    Struct, StructField, Type, UserType,
};
use crate::grammar::{
    stops_at, after_sep, all_builtins, builtin_name, builtin_named, char_at, first_builtin, ident_after,
    ident_end, is_blank, is_ident_char, parse_field, parse_fields, parse_items,
    parse_struct, parse_text, parse_type, parse_type_text, parse_user_type, parse_variant, parse_variants,
    same_letter, skip_blanks, span_of, spells, type_of_ident,
};
use crate::span::{Span, Spanned};

verus! {

/// The text did not match the grammar; `offset` is where reading stopped.
#[derive(Debug, Clone, Copy, PartialEq, Eq, Structural)]
pub struct SyntaxError {
    pub offset: usize,
}

/// A source text together with its characters.
struct Source<'a> {
    text: &'a str,
    chars: Vec<char>,
}

impl<'a> Source<'a> {
    spec fn wf(&self) -> bool {
        self.chars@ == self.text@
    }

    spec fn t(&self) -> Seq<char> {
        self.chars@
    }
}

fn chars_of(text: &str) -> (r: Vec<char>)
    ensures
        r@ == text@,
{
    let mut out: Vec<char> = Vec::new();
    let mut it = text.chars();
    broadcast use vstd::string::next_postcondition, vstd::string::axiom_spec_iter;

    loop
        invariant
            it.obeys_prophetic_iter_laws(),
            out@ + it.remaining() == text@,
        ensures
            out@ == text@,
        decreases text@.len() - out@.len(),
    {
        match it.next() {
            Some(c) => {
                out.push(c);
            },
            None => {
                assert(out@ + it.remaining() =~= out@);
                break ;
            },
        }
    }
    out
}

fn is_blank_char(c: char) -> (r: bool)
    ensures
        r == is_blank(c),
{
    c == ' ' || c == '\t' || c == '\n' || c == '\r'
}

fn is_ident_character(c: char) -> (r: bool)
    ensures
        r == is_ident_char(c),
{
    let n = c as u32;
    (97 <= n && n <= 122) || (65 <= n && n <= 90) || (48 <= n && n <= 57) || n == 95
}

fn skip_blanks_from(t: &Vec<char>, i: usize) -> (r: usize)
    requires
        i <= t@.len(),
    ensures
        r as int == skip_blanks(t@, i as int),
        i <= r <= t@.len(),
{
    let mut k = i;
    while k < t.len() && is_blank_char(t[k])
        invariant
            i <= k <= t@.len(),
            skip_blanks(t@, i as int) == skip_blanks(t@, k as int),
        decreases t@.len() - k,
    {
        k = k + 1;
    }
    k
}

fn ident_end_from(t: &Vec<char>, i: usize) -> (r: usize)
    requires
        i <= t@.len(),
    ensures
        r as int == ident_end(t@, i as int),
        i <= r <= t@.len(),
{
    let mut k = i;
    while k < t.len() && is_ident_character(t[k])
        invariant
            i <= k <= t@.len(),
            ident_end(t@, i as int) == ident_end(t@, k as int),
        decreases t@.len() - k,
    {
        k = k + 1;
    }
    k
}

fn char_at_pos(t: &Vec<char>, i: usize, c: char) -> (r: bool)
    ensures
        r == char_at(t@, i as int, c),
        t@.len() <= usize::MAX,
{
    i < t.len() && t[i] == c
}

fn ident_after_pos(t: &Vec<char>, i: usize) -> (r: Option<(usize, usize)>)
    requires
        i <= t@.len(),
    ensures
        match r {
            Some((a, b)) => ident_after(t@, i as int) == Some((a as int, b as int)) && i <= a
                < b <= t@.len(),
            None => ident_after(t@, i as int) is None,
        },
{
    let j = skip_blanks_from(t, i);
    let e = ident_end_from(t, j);
    if j < e {
        Some((j, e))
    } else {
        None
    }
}

/// Whether the characters `a..b` are exactly `word`.
fn text_is(t: &Vec<char>, a: usize, b: usize, word: &str) -> (r: bool)
    requires
        a <= b <= t@.len(),
    ensures
        r == (t@.subrange(a as int, b as int) == word@),
{
    let n = word.unicode_len();
    if b - a != n {
        return false;
    }
    let mut k: usize = 0;
    while k < n
        invariant
            a <= b <= t@.len(),
            b - a == n,
            n == word@.len(),
            k <= n,
            forall|m: int| 0 <= m < k ==> t@[a + m] == word@[m],
        decreases n - k,
    {
        if t[a + k] != word.get_char(k) {
            assert(t@.subrange(a as int, b as int)[k as int] != word@[k as int]);
            return false;
        }
        k = k + 1;
    }
    assert(t@.subrange(a as int, b as int) =~= word@);
    true
}

fn builtin_word(b: Builtin) -> (r: &'static str)
    ensures
        r@ == builtin_name(b),
{
    match b {
        Builtin::U8 => "u8",
        Builtin::U16 => "u16",
        Builtin::U32 => "u32",
        Builtin::U64 => "u64",
        Builtin::USize => "usize",
        Builtin::I8 => "i8",
        Builtin::I16 => "i16",
        Builtin::I32 => "i32",
        Builtin::I64 => "i64",
        Builtin::ISize => "isize",
        Builtin::UInt => "uint",
        Builtin::Int => "int",
        Builtin::F32 => "f32",
        Builtin::F64 => "f64",
        Builtin::Bool => "bool",
        Builtin::String => "string",
        Builtin::Binary => "binary",
    }
}

fn same_letter_exec(c: char, l: char) -> (r: bool)
    ensures
        r == same_letter(c, l),
{
    c == l || (65 <= c as u32 && c as u32 <= 90 && c as u32 + 32 == l as u32)
}

/// Whether the characters `a..b` spell `word`, ignoring ASCII case.
fn spells_word(t: &Vec<char>, a: usize, b: usize, word: &str) -> (r: bool)
    requires
        a <= b <= t@.len(),
    ensures
        r == spells(t@.subrange(a as int, b as int), word@),
{
    let n = word.unicode_len();
    if b - a != n {
        return false;
    }
    let ghost s = t@.subrange(a as int, b as int);
    let mut k: usize = 0;
    while k < n
        invariant
            a <= b <= t@.len(),
            b - a == n,
            n == word@.len(),
            k <= n,
            s == t@.subrange(a as int, b as int),
            forall|m: int| 0 <= m < k ==> same_letter(#[trigger] s[m], word@[m]),
        decreases n - k,
    {
        if !same_letter_exec(t[a + k], word.get_char(k)) {
            assert(!same_letter(s[k as int], word@[k as int]));
            return false;
        }
        k = k + 1;
    }
    true
}

/// The builtin that the characters `a..b` name, if any.
fn builtin_at(t: &Vec<char>, a: usize, b: usize) -> (r: Option<Builtin>)
    requires
        a <= b <= t@.len(),
    ensures
        r == builtin_named(t@.subrange(a as int, b as int)),
{
    let all = vec![
        Builtin::U8,
        Builtin::U16,
        Builtin::U32,
        Builtin::U64,
        Builtin::USize,
        Builtin::I8,
        Builtin::I16,
        Builtin::I32,
        Builtin::I64,
        Builtin::ISize,
        Builtin::UInt,
        Builtin::Int,
        Builtin::F32,
        Builtin::F64,
        Builtin::Bool,
        Builtin::String,
        Builtin::Binary,
    ];
    let ghost s = t@.subrange(a as int, b as int);
    assert(all@ == all_builtins());
    assert(all@.subrange(0, all@.len() as int) =~= all@);
    let mut k: usize = 0;
    while k < all.len()
        invariant
            a <= b <= t@.len(),
            s == t@.subrange(a as int, b as int),
            all@ == all_builtins(),
            k <= all@.len(),
            builtin_named(s) == first_builtin(s, all@.subrange(k as int, all@.len() as int)),
        decreases all@.len() - k,
    {
        let ghost rest = all@.subrange(k as int, all@.len() as int);
        assert(rest[0] == all@[k as int]);
        assert(rest.drop_first() =~= all@.subrange(k + 1, all@.len() as int));
        if spells_word(t, a, b, builtin_word(all[k])) {
            return Some(all[k]);
        }
        k = k + 1;
    }
    None
}

/// The characters `a..b` as a string.
fn name_at(src: &Source, a: usize, b: usize) -> (r: String)
    requires
        src.wf(),
        a <= b <= src.t().len(),
    ensures
        r@ == src.t().subrange(a as int, b as int),
{
    src.text.substring_char(a, b).to_owned()
}

/// The type that the identifier at `a..b` denotes.
fn ident_type(src: &Source, a: usize, b: usize) -> (r: Type)
    requires
        src.wf(),
        a <= b <= src.t().len(),
    ensures
        type_model(r) == type_of_ident(src.t().subrange(a as int, b as int)),
{
    match builtin_at(&src.chars, a, b) {
        Some(bt) => Type::Builtin(bt),
        None => Type::User(name_at(src, a, b)),
    }
}

fn after_sep_pos(t: &Vec<char>, k: usize) -> (r: usize)
    requires
        k <= t@.len(),
    ensures
        r as int == after_sep(t@, k as int),
        k <= r <= t@.len(),
{
    let m = skip_blanks_from(t, k);
    if char_at_pos(t, m, ';') || char_at_pos(t, m, ',') {
        m + 1
    } else {
        k
    }
}

fn span_between(a: usize, b: usize) -> (r: Span)
    requires
        a <= b,
    ensures
        r == span_of(a as int, b as int),
{
    Span { offset: a, length: b - a }
}

fn parse_type_at(src: &Source, i: usize) -> (r: Result<(usize, Type), SyntaxError>)
    requires
        src.wf(),
        i <= src.t().len(),
    ensures
        match r {
            Ok((e, ty)) => parse_type(src.t(), i as int) == Ok::<_, int>((e as int, type_model(ty))) && i
                < e <= src.t().len(),
            Err(err) => stops_at(parse_type(src.t(), i as int), err.offset as int),
        },
    decreases src.t().len() - i,
{
    let t = &src.chars;
    let j = skip_blanks_from(t, i);
    if char_at_pos(t, j, '[') {
        let (k, inner) = match parse_type_at(src, j + 1) {
            Ok(found) => found,
            Err(err) => {
                return Err(err);
            },
        };
        let m = skip_blanks_from(t, k);
        if char_at_pos(t, m, ']') {
            Ok((m + 1, Type::List(Box::new(inner))))
        } else {
            Err(SyntaxError { offset: m })
        }
    } else {
        match ident_after_pos(t, i) {
            Some((a, b)) => Ok((b, ident_type(src, a, b))),
            None => Err(SyntaxError { offset: j }),
        }
    }
}

fn parse_field_at(src: &Source, i: usize) -> (r: Result<(usize, Spanned<StructField>), SyntaxError>)
    requires
        src.wf(),
        i <= src.t().len(),
    ensures
        match r {
            Ok((e, f)) => parse_field(src.t(), i as int) == Ok::<_, int>((e as int, field_model(f))) && i
                < e <= src.t().len(),
            Err(err) => stops_at(parse_field(src.t(), i as int), err.offset as int),
        },
{
    let t = &src.chars;
    let (a, b) = match ident_after_pos(t, i) {
        Some(found) => found,
        None => {
            return Err(SyntaxError { offset: skip_blanks_from(t, i) });
        },
    };
    let c = skip_blanks_from(t, b);
    if !char_at_pos(t, c, ':') {
        return Err(SyntaxError { offset: c });
    }
    let (k, typ) = match parse_type_at(src, c + 1) {
        Ok(found) => found,
        Err(err) => {
            return Err(err);
        },
    };
    let name = name_at(src, a, b);
    Ok((k, Spanned::new(span_between(a, k), StructField { name, typ })))
}

/// `o` with `pre` put in front of the sequence it holds.
spec fn prepend<A>(pre: Seq<A>, o: Result<(int, Seq<A>), int>) -> Result<(int, Seq<A>), int> {
    match o {
        Ok((e, rest)) => Ok((e, pre + rest)),
        Err(e) => Err(e),
    }
}

fn parse_fields_at(src: &Source, i: usize) -> (r: Result<
    (usize, Vec<Spanned<StructField>>),
    SyntaxError,
>)
    requires
        src.wf(),
        i <= src.t().len(),
    ensures
        match r {
            Ok((e, fs)) => parse_fields(src.t(), i as int) == Ok::<_, int>((e as int, fields_model(fs@)))
                && i < e <= src.t().len(),
            Err(err) => stops_at(parse_fields(src.t(), i as int), err.offset as int),
        },
{
    let t = &src.chars;
    let mut acc: Vec<Spanned<StructField>> = Vec::new();
    let mut p = i;
    loop
        invariant
            src.wf(),
            t == &src.chars,
            i <= p <= src.t().len(),
            parse_fields(src.t(), i as int) == prepend(
                fields_model(acc@),
                parse_fields(src.t(), p as int),
            ),
        decreases src.t().len() - p,
    {
        let j = skip_blanks_from(t, p);
        if char_at_pos(t, j, '}') {
            assert(fields_model(acc@) + Seq::empty() =~= fields_model(acc@));
            return Ok((j + 1, acc));
        }
        let (k, f) = match parse_field_at(src, p) {
            Ok(found) => found,
            Err(err) => {
                return Err(err);
            },
        };
        let n = after_sep_pos(t, k);
        proof {
            let ghost fm = field_model(f);
            let ghost before = fields_model(acc@);
            let ghost after = fields_model(acc@.push(f));
            assert(after =~= before.push(fm));
            match parse_fields(src.t(), n as int) {
                Ok((e, rest)) => {
                    assert(before + (seq![fm] + rest) =~= after + rest);
                },
                Err(_) => {},
            }
        }
        acc.push(f);
        p = n;
    }
}

/// A struct whose keyword occupies `a..b`.
fn parse_struct_at(src: &Source, a: usize, b: usize) -> (r: Result<(usize, UserType), SyntaxError>)
    requires
        src.wf(),
        a < b <= src.t().len(),
    ensures
        match r {
            Ok((e, u)) => parse_struct(src.t(), a as int, b as int) == Ok::<_, int>(
                (e as int, user_type_model(u)),
            ) && b < e <= src.t().len(),
            Err(err) => stops_at(parse_struct(src.t(), a as int, b as int), err.offset as int),
        },
{
    let t = &src.chars;
    let (c, d) = match ident_after_pos(t, b) {
        Some(found) => found,
        None => {
            return Err(SyntaxError { offset: skip_blanks_from(t, b) });
        },
    };
    let name = name_at(src, c, d);
    let m = skip_blanks_from(t, d);
    if char_at_pos(t, m, '{') {
        let (e, fields) = match parse_fields_at(src, m + 1) {
            Ok(found) => found,
            Err(err) => {
                return Err(err);
            },
        };
        Ok((e, UserType::Struct(Spanned::new(span_between(a, e), Struct { name, fields }))))
    } else {
        let fields: Vec<Spanned<StructField>> = Vec::new();
        assert(fields_model(fields@) =~= Seq::empty());
        Ok((d, UserType::Struct(Spanned::new(span_between(a, d), Struct { name, fields }))))
    }
}

fn user_type_span(u: &UserType) -> (r: Span)
    ensures
        r == user_type_model(*u).span(),
{
    match u {
        UserType::Struct(s) => s.span,
        UserType::Enum(e) => e.span,
    }
}

fn parse_user_type_at(src: &Source, i: usize) -> (r: Result<(usize, UserType), SyntaxError>)
    requires
        src.wf(),
        i <= src.t().len(),
    ensures
        match r {
            Ok((e, u)) => parse_user_type(src.t(), i as int) == Ok::<_, int>((e as int, user_type_model(u)))
                && i < e <= src.t().len(),
            Err(err) => stops_at(parse_user_type(src.t(), i as int), err.offset as int),
        },
    decreases src.t().len() - i, 0int,
{
    let t = &src.chars;
    let (a, b) = match ident_after_pos(t, i) {
        Some(found) => found,
        None => {
            return Err(SyntaxError { offset: skip_blanks_from(t, i) });
        },
    };
    if text_is(t, a, b, "struct") {
        return parse_struct_at(src, a, b);
    }
    if !text_is(t, a, b, "enum") {
        return Err(SyntaxError { offset: a });
    }
    let (c, d) = match ident_after_pos(t, b) {
        Some(found) => found,
        None => {
            return Err(SyntaxError { offset: skip_blanks_from(t, b) });
        },
    };
    let name = name_at(src, c, d);
    let m = skip_blanks_from(t, d);
    if char_at_pos(t, m, '{') {
        let (e, definitions) = match parse_variants_at(src, m + 1) {
            Ok(found) => found,
            Err(err) => {
                return Err(err);
            },
        };
        Ok((e, UserType::Enum(Spanned::new(span_between(a, e), Enum { name, definitions }))))
    } else {
        let definitions: Vec<Spanned<EnumVariant>> = Vec::new();
        assert(variants_model(definitions@) =~= Seq::empty());
        Ok((d, UserType::Enum(Spanned::new(span_between(a, d), Enum { name, definitions }))))
    }
}

fn parse_variants_at(src: &Source, i: usize) -> (r: Result<
    (usize, Vec<Spanned<EnumVariant>>),
    SyntaxError,
>)
    requires
        src.wf(),
        i <= src.t().len(),
    ensures
        match r {
            Ok((e, vs)) => parse_variants(src.t(), i as int) == Ok::<_, int>(
                (e as int, variants_model(vs@)),
            ) && i < e <= src.t().len(),
            Err(err) => stops_at(parse_variants(src.t(), i as int), err.offset as int),
        },
    decreases src.t().len() - i, 2int,
{
    let t = &src.chars;
    let mut acc: Vec<Spanned<EnumVariant>> = Vec::new();
    let mut p = i;
    assert(variants_model(acc@) =~= Seq::empty());
    loop
        invariant
            src.wf(),
            t == &src.chars,
            i <= p <= src.t().len(),
            parse_variants(src.t(), i as int) == prepend(
                variants_model(acc@),
                parse_variants(src.t(), p as int),
            ),
        decreases src.t().len() - p,
    {
        let j = skip_blanks_from(t, p);
        if char_at_pos(t, j, '}') {
            assert(variants_model(acc@) + Seq::empty() =~= variants_model(acc@));
            return Ok((j + 1, acc));
        }
        let (k, v) = match parse_variant_at(src, p) {
            Ok(found) => found,
            Err(err) => {
                return Err(err);
            },
        };
        let n = after_sep_pos(t, k);
        proof {
            let ghost vm = variant_model(v);
            let ghost before = variants_model(acc@);
            let ghost after = variants_model(acc@.push(v));
            assert(acc@.push(v).subrange(0, acc@.len() as int) =~= acc@);
            assert(after =~= before.push(vm));
            match parse_variants(src.t(), n as int) {
                Ok((e, rest)) => {
                    assert(before + (seq![vm] + rest) =~= after + rest);
                },
                Err(_) => {},
            }
        }
        acc.push(v);
        p = n;
    }
}

fn parse_variant_at(src: &Source, i: usize) -> (r: Result<(usize, Spanned<EnumVariant>), SyntaxError>)
    requires
        src.wf(),
        i <= src.t().len(),
    ensures
        match r {
            Ok((e, v)) => parse_variant(src.t(), i as int) == Ok::<_, int>((e as int, variant_model(v)))
                && i < e <= src.t().len(),
            Err(err) => stops_at(parse_variant(src.t(), i as int), err.offset as int),
        },
    decreases src.t().len() - i, 1int,
{
    let t = &src.chars;
    let (a, b) = match ident_after_pos(t, i) {
        Some(found) => found,
        None => {
            return Err(SyntaxError { offset: skip_blanks_from(t, i) });
        },
    };
    let c = skip_blanks_from(t, b);
    if char_at_pos(t, c, ':') {
        let (k, typ) = match parse_type_at(src, c + 1) {
            Ok(found) => found,
            Err(err) => {
                return Err(err);
            },
        };
        let name = name_at(src, a, b);
        return Ok(
            (k, Spanned::new(span_between(a, k), EnumVariant::NamedVariant(StructField { name, typ }))),
        );
    }
    if text_is(t, a, b, "struct") || text_is(t, a, b, "enum") {
        let (k, u) = match parse_user_type_at(src, i) {
            Ok(found) => found,
            Err(err) => {
                return Err(err);
            },
        };
        let span = user_type_span(&u);
        return Ok((k, Spanned::new(span, EnumVariant::UserType(u))));
    }
    let typ = ident_type(src, a, b);
    let name = name_at(src, a, b);
    Ok((b, Spanned::new(span_between(a, b), EnumVariant::NamedVariant(StructField { name, typ }))))
}

/// Parses a whole source text into its declarations.
pub fn parse_document(text: &str) -> (r: Result<Document, SyntaxError>)
    ensures
        match r {
            Ok(doc) => parse_text(text@) == Ok::<_, int>(doc.model()),
            Err(err) => parse_text(text@) == Err::<Seq<UserTypeModel>, _>(err.offset as int),
        },
{
    let src = Source { text, chars: chars_of(text) };
    let t = &src.chars;
    let mut acc: Vec<Spanned<UserType>> = Vec::new();
    let mut p: usize = 0;
    assert(user_types_model(acc@) =~= Seq::empty());
    loop
        invariant
            src.wf(),
            src.text == text,
            t == &src.chars,
            p <= src.t().len(),
            parse_items(src.t(), 0) == match parse_items(src.t(), p as int) {
                Ok(rest) => Ok(user_types_model(acc@) + rest),
                Err(e) => Err(e),
            },
        decreases src.t().len() - p,
    {
        if skip_blanks_from(t, p) >= t.len() {
            assert(user_types_model(acc@) + Seq::empty() =~= user_types_model(acc@));
            return Ok(Document { user_types: acc });
        }
        let (k, u) = match parse_user_type_at(&src, p) {
            Ok(found) => found,
            Err(err) => {
                return Err(err);
            },
        };
        let span = user_type_span(&u);
        let item = Spanned::new(span, u);
        proof {
            let ghost um = user_type_model(item.value);
            let ghost before = user_types_model(acc@);
            let ghost after = user_types_model(acc@.push(item));
            assert(after =~= before.push(um));
            match parse_items(src.t(), k as int) {
                Ok(rest) => {
                    assert(before + (seq![um] + rest) =~= after + rest);
                },
                Err(_) => {},
            }
        }
        acc.push(item);
        p = k;
    }
}

/// Parses a text that holds a single type, such as `[[int]]`.
pub fn parse_type_str(text: &str) -> (r: Result<Type, SyntaxError>)
    ensures
        match r {
            Ok(ty) => parse_type_text(text@) == Ok::<_, int>(type_model(ty)),
            Err(err) => parse_type_text(text@) == Err::<TypeModel, _>(err.offset as int),
        },
{
    let src = Source { text, chars: chars_of(text) };
    let (k, ty) = match parse_type_at(&src, 0) {
        Ok(found) => found,
        Err(err) => {
            return Err(err);
        },
    };
    let end = skip_blanks_from(&src.chars, k);
    if end < src.chars.len() {
        return Err(SyntaxError { offset: end });
    }
    Ok(ty)
}

/// Parsing is a function of the text: two documents that both parse from
/// the same text have the same declarations, with the same spans.
pub proof fn lemma_parse_deterministic(text: Seq<char>, d1: Document, d2: Document)
    requires
        parse_text(text) == Ok::<_, int>(d1.model()),
        parse_text(text) == Ok::<_, int>(d2.model()),
    ensures
        d1.model() == d2.model(),
{
}

} // verus!
