//! Semantic analysis: every user type that a field or variant refers to must
//! be declared somewhere in the document.
use vstd::prelude::*;

use crate::ast::{
    lemma_nested_decreases,
    lemma_variants_model, type_model, user_type_model, variant_model, variants_model, Document,
    EnumVariant, FieldModel, Type, TypeModel, UserType, UserTypeModel, VariantModel,
};
use crate::emitter::{join, join_strings};
use crate::span::{Span, Spanned};
use vstd::string::StringExecFns;

use nucleo_matcher::pattern::{Atom, AtomKind, CaseMatching, Normalization};
use nucleo_matcher::Matcher;

verus! {

broadcast use {
    vstd::seq::axiom_seq_index_decreases,
    vstd::seq::axiom_seq_subrange_decreases,
    vstd::std_specs::vec::axiom_vec_decreases_to_view,
    vstd::std_specs::vec::axiom_vec_index_decreases,
};

/// A reference to a user type that no declaration provides.
#[derive(Debug, PartialEq)]
pub struct Undefined {
    /// The name as written, with the span of the field or variant using it.
    pub name: Spanned<String>,
    /// A declared name that the author may have meant.
    pub suggestion: Option<String>,
}

/// What the analysis found wrong with a document.
#[derive(Debug, PartialEq)]
pub enum Error {
    /// The one problem found.
    UndefinedType(Undefined),
    /// Two or more problems, in the order of the text.
    MultipleErrors(Vec<Undefined>),
}

/// The model of one diagnostic: span, name, suggestion.
pub type DiagnosticModel = (Span, Seq<char>, Option<Seq<char>>);

pub open spec fn undefined_model(d: Undefined) -> DiagnosticModel {
    (
        d.name.span,
        d.name.value@,
        match d.suggestion {
            Some(s) => Some(s@),
            None => None,
        },
    )
}

pub open spec fn strings_view(v: Seq<String>) -> Seq<Seq<char>> {
    v.map_values(|s: String| s@)
}

// ---------------------------------------------------------------------------
// Declared names
/// The name of `u` followed by the names declared inside it, in text order.
pub open spec fn names_in(u: UserTypeModel) -> Seq<Seq<char>>
    decreases u,
{
    match u {
        UserTypeModel::Struct { name, .. } => seq![name],
        UserTypeModel::Enum { name, variants, .. } => seq![name] + names_in_variants(variants),
    }
}

pub open spec fn names_in_variants(vs: Seq<VariantModel>) -> Seq<Seq<char>>
    decreases vs,
{
    if vs.len() == 0 {
        Seq::empty()
    } else {
        names_in_variants(vs.subrange(0, vs.len() - 1)) + match vs[vs.len() - 1] {
            VariantModel::Nested(_, u) => names_in(u),
            VariantModel::Named(_) => Seq::empty(),
        }
    }
}

/// Every name that the declarations `us` declare, nested ones included, in text order.
pub open spec fn declared_in(us: Seq<UserTypeModel>) -> Seq<Seq<char>>
    decreases us.len(),
{
    if us.len() == 0 {
        Seq::empty()
    } else {
        declared_in(us.drop_last()) + names_in(us.last())
    }
}

// ---------------------------------------------------------------------------
// References
/// The user type name that a type refers to, looking through lists.
pub open spec fn base_name(t: TypeModel) -> Option<Seq<char>>
    decreases t,
{
    match t {
        TypeModel::Builtin(_) => None,
        TypeModel::List(inner) => base_name(*inner),
        TypeModel::User(name) => Some(name),
    }
}

/// The reference that a type makes, if any, with the given span.
pub open spec fn type_refs(span: Span, t: TypeModel) -> Seq<(Span, Seq<char>)> {
    match base_name(t) {
        Some(name) => seq![(span, name)],
        None => Seq::empty(),
    }
}

/// The reference that a field makes, with the field's span.
pub open spec fn field_refs(f: FieldModel) -> Seq<(Span, Seq<char>)> {
    type_refs(f.span, f.typ)
}

pub open spec fn fields_refs(fs: Seq<FieldModel>) -> Seq<(Span, Seq<char>)>
    decreases fs.len(),
{
    if fs.len() == 0 {
        Seq::empty()
    } else {
        fields_refs(fs.drop_last()) + field_refs(fs.last())
    }
}

/// The references made inside a declaration, nested declarations included, in text order.
pub open spec fn refs_in(u: UserTypeModel) -> Seq<(Span, Seq<char>)>
    decreases u,
{
    match u {
        UserTypeModel::Struct { fields, .. } => fields_refs(fields),
        UserTypeModel::Enum { variants, .. } => refs_in_variants(variants),
    }
}

pub open spec fn refs_in_variants(vs: Seq<VariantModel>) -> Seq<(Span, Seq<char>)>
    decreases vs,
{
    if vs.len() == 0 {
        Seq::empty()
    } else {
        refs_in_variants(vs.subrange(0, vs.len() - 1)) + match vs[vs.len() - 1] {
            VariantModel::Nested(_, u) => refs_in(u),
            VariantModel::Named(f) => field_refs(f),
        }
    }
}

pub open spec fn refs_of(us: Seq<UserTypeModel>) -> Seq<(Span, Seq<char>)>
    decreases us.len(),
{
    if us.len() == 0 {
        Seq::empty()
    } else {
        refs_of(us.drop_last()) + refs_in(us.last())
    }
}

/// The references among `refs` whose name is not among `names`, in order.
pub open spec fn unresolved(refs: Seq<(Span, Seq<char>)>, names: Seq<Seq<char>>) -> Seq<
    (Span, Seq<char>),
>
    decreases refs.len(),
{
    if refs.len() == 0 {
        Seq::empty()
    } else {
        let before = unresolved(refs.drop_last(), names);
        if names.contains(refs.last().1) {
            before
        } else {
            before.push(refs.last())
        }
    }
}

/// The references of a document that no declaration of it provides.
pub open spec fn undefined_refs(us: Seq<UserTypeModel>) -> Seq<(Span, Seq<char>)> {
    unresolved(refs_of(us), declared_in(us))
}

pub open spec fn refs_view(v: Seq<Spanned<String>>) -> Seq<(Span, Seq<char>)> {
    v.map_values(|r: Spanned<String>| (r.span, r.value@))
}

fn push_names(u: &UserType, out: &mut Vec<String>)
    ensures
        strings_view(final(out)@) == strings_view(old(out)@) + names_in(user_type_model(*u)),
    decreases user_type_model(*u),
{
    let ghost start = strings_view(out@);
    let ghost name = user_type_model(*u).name();
    out.push(u.name().to_owned());
    assert(strings_view(out@) =~= start + seq![name]);
    match u {
        UserType::Struct(_) => {},
        UserType::Enum(e) => {
            let defs = &e.value.definitions;
            let ghost vms = variants_model(defs@);
            proof {
                lemma_variants_model(defs@);
            }
            let mut k: usize = 0;
            assert(names_in_variants(vms.subrange(0, 0)) =~= Seq::empty());
            assert(strings_view(out@) =~= start + seq![name] + names_in_variants(vms.subrange(0, 0)));
            while k < defs.len()
                invariant
                    k <= defs@.len(),
                    *u == UserType::Enum(*e),
                    defs == &e.value.definitions,
                    vms == variants_model(defs@),
                    vms.len() == defs@.len(),
                    forall|m: int| 0 <= m < vms.len() ==> #[trigger] vms[m] == variant_model(defs@[m]),
                    strings_view(out@) == start + seq![name] + names_in_variants(
                        vms.subrange(0, k as int),
                    ),
                decreases defs@.len() - k,
            {
                let ghost next = vms.subrange(0, k + 1);
                assert(next.subrange(0, k as int) =~= vms.subrange(0, k as int));
                assert(next[k as int] == variant_model(defs@[k as int]));
                if let EnumVariant::UserType(inner) = &defs[k].value {
                    proof {
                        lemma_nested_decreases(*u, *e, k as int, *inner);
                    }
                    push_names(inner, out);
                }
                assert(strings_view(out@) =~= start + seq![name] + names_in_variants(next));
                k = k + 1;
            }
            assert(vms.subrange(0, vms.len() as int) =~= vms);
            assert(strings_view(out@) =~= start + names_in(user_type_model(*u)));
        },
    }
}

/// Every name that the document declares, nested declarations included, in
/// text order.
pub fn declared_names(document: &Document) -> (r: Vec<String>)
    ensures
        strings_view(r@) == declared_in(document.model()),
{
    let us = &document.user_types;
    let ghost model = document.model();
    let mut out: Vec<String> = Vec::new();
    let mut k: usize = 0;
    assert(strings_view(out@) =~= declared_in(model.subrange(0, 0)));
    while k < us.len()
        invariant
            k <= us@.len(),
            us == &document.user_types,
            model == document.model(),
            model.len() == us@.len(),
            strings_view(out@) == declared_in(model.subrange(0, k as int)),
        decreases us@.len() - k,
    {
        let ghost next = model.subrange(0, k + 1);
        assert(next.drop_last() =~= model.subrange(0, k as int));
        push_names(&us[k].value, &mut out);
        k = k + 1;
    }
    assert(model.subrange(0, model.len() as int) =~= model);
    out
}

fn type_base(t: &Type) -> (r: Option<String>)
    ensures
        match base_name(type_model(*t)) {
            Some(n) => r matches Some(s) && s@ == n,
            None => r is None,
        },
    decreases t,
{
    match t {
        Type::Builtin(_) => None,
        Type::List(inner) => type_base(inner),
        Type::User(name) => Some(name.clone()),
    }
}

fn push_field_ref(span: Span, typ: &Type, out: &mut Vec<Spanned<String>>)
    ensures
        refs_view(final(out)@) == refs_view(old(out)@) + type_refs(span, type_model(*typ)),
{
    let ghost start = refs_view(out@);
    if let Some(name) = type_base(typ) {
        out.push(Spanned::new(span, name));
    }
    assert(refs_view(out@) =~= start + type_refs(span, type_model(*typ)));
}

fn push_refs(u: &UserType, out: &mut Vec<Spanned<String>>)
    ensures
        refs_view(final(out)@) == refs_view(old(out)@) + refs_in(user_type_model(*u)),
    decreases user_type_model(*u),
{
    let ghost start = refs_view(out@);
    match u {
        UserType::Struct(st) => {
            let fs = &st.value.fields;
            let ghost fms = crate::ast::fields_model(fs@);
            let mut k: usize = 0;
            assert(fields_refs(fms.subrange(0, 0)) =~= Seq::empty());
            assert(refs_view(out@) =~= start + fields_refs(fms.subrange(0, 0)));
            while k < fs.len()
                invariant
                    k <= fs@.len(),
                    fms == crate::ast::fields_model(fs@),
                    refs_view(out@) == start + fields_refs(fms.subrange(0, k as int)),
                decreases fs@.len() - k,
            {
                let ghost next = fms.subrange(0, k + 1);
                assert(next.drop_last() =~= fms.subrange(0, k as int));
                let f = &fs[k];
                push_field_ref(f.span, &f.value.typ, out);
                assert(next.last() == FieldModel {
                    span: f.span,
                    name: f.value.name@,
                    typ: type_model(f.value.typ),
                });
                assert(refs_view(out@) =~= start + fields_refs(next));
                k = k + 1;
            }
            assert(fms.subrange(0, fms.len() as int) =~= fms);
        },
        UserType::Enum(e) => {
            let defs = &e.value.definitions;
            let ghost vms = variants_model(defs@);
            proof {
                lemma_variants_model(defs@);
            }
            let mut k: usize = 0;
            assert(refs_in_variants(vms.subrange(0, 0)) =~= Seq::empty());
            assert(refs_view(out@) =~= start + refs_in_variants(vms.subrange(0, 0)));
            while k < defs.len()
                invariant
                    k <= defs@.len(),
                    *u == UserType::Enum(*e),
                    defs == &e.value.definitions,
                    vms == variants_model(defs@),
                    vms.len() == defs@.len(),
                    forall|m: int| 0 <= m < vms.len() ==> #[trigger] vms[m] == variant_model(defs@[m]),
                    refs_view(out@) == start + refs_in_variants(vms.subrange(0, k as int)),
                decreases defs@.len() - k,
            {
                let ghost next = vms.subrange(0, k + 1);
                assert(next.subrange(0, k as int) =~= vms.subrange(0, k as int));
                assert(next[k as int] == variant_model(defs@[k as int]));
                let def = &defs[k];
                match &def.value {
                    EnumVariant::UserType(inner) => {
                        proof {
                            lemma_nested_decreases(*u, *e, k as int, *inner);
                        }
                        push_refs(inner, out);
                    },
                    EnumVariant::NamedVariant(f) => {
                        push_field_ref(def.span, &f.typ, out);
                        assert(variant_model(*def) == VariantModel::Named(
                            FieldModel { span: def.span, name: f.name@, typ: type_model(f.typ) },
                        ));
                    },
                }
                assert(refs_view(out@) =~= start + refs_in_variants(next));
                k = k + 1;
            }
            assert(vms.subrange(0, vms.len() as int) =~= vms);
        },
    }
}

/// Whether `name` is among `names`.
pub(crate) fn contains_name(names: &Vec<String>, name: &String) -> (r: bool)
    ensures
        r == strings_view(names@).contains(name@),
{
    let mut k: usize = 0;
    while k < names.len()
        invariant
            k <= names@.len(),
            forall|m: int| 0 <= m < k ==> names@[m]@ != name@,
        decreases names@.len() - k,
    {
        if names[k] == *name {
            assert(strings_view(names@)[k as int] == name@);
            return true;
        }
        k = k + 1;
    }
    assert forall|m: int| 0 <= m < strings_view(names@).len() implies strings_view(names@)[m]
        != name@ by {}
    false
}

/// The references to user types that the document does not declare, in text
/// order, each with the span of the field or variant that makes it.
pub fn undefined_types(document: &Document) -> (r: Vec<Spanned<String>>)
    ensures
        refs_view(r@) == undefined_refs(document.model()),
{
    let names = declared_names(document);
    let us = &document.user_types;
    let ghost model = document.model();
    let mut refs: Vec<Spanned<String>> = Vec::new();
    let mut k: usize = 0;
    assert(refs_view(refs@) =~= refs_of(model.subrange(0, 0)));
    while k < us.len()
        invariant
            k <= us@.len(),
            us == &document.user_types,
            model == document.model(),
            model.len() == us@.len(),
            refs_view(refs@) == refs_of(model.subrange(0, k as int)),
        decreases us@.len() - k,
    {
        let ghost next = model.subrange(0, k + 1);
        assert(next.drop_last() =~= model.subrange(0, k as int));
        push_refs(&us[k].value, &mut refs);
        k = k + 1;
    }
    assert(model.subrange(0, model.len() as int) =~= model);
    let ghost all = refs_view(refs@);
    let ghost declared = strings_view(names@);
    let mut out: Vec<Spanned<String>> = Vec::new();
    let mut m: usize = 0;
    assert(refs_view(out@) =~= unresolved(all.subrange(0, 0), declared));
    while m < refs.len()
        invariant
            m <= refs@.len(),
            all == refs_view(refs@),
            declared == strings_view(names@),
            refs_view(out@) == unresolved(all.subrange(0, m as int), declared),
        decreases refs@.len() - m,
    {
        let ghost next = all.subrange(0, m + 1);
        assert(next.drop_last() =~= all.subrange(0, m as int));
        if !contains_name(&names, &refs[m].value) {
            out.push(Spanned::new(refs[m].span, refs[m].value.clone()));
        }
        assert(refs_view(out@) =~= unresolved(next, declared));
        m = m + 1;
    }
    assert(all.subrange(0, all.len() as int) =~= all);
    out
}

// ---------------------------------------------------------------------------
// Suggestions and diagnostics
/// The declared name that the fuzzy matcher ranks first for `search`, if any matches.
pub uninterp spec fn fuzzy_pick(search: Seq<char>, candidates: Seq<Seq<char>>) -> Option<Seq<char>>;

/// Relies on nucleo_matcher's `Atom::match_list` for a fuzzy atom with smart
/// case matching and smart normalization: it keeps the candidates that match
/// `search`, best score first, and the first of them is taken.
#[verifier::external_body]
fn fuzzy_best(search: &str, candidates: &Vec<String>) -> (r: Option<String>)
    ensures
        match r {
            Some(s) => fuzzy_pick(search@, strings_view(candidates@)) == Some(s@),
            None => fuzzy_pick(search@, strings_view(candidates@)) is None,
        },
        r matches Some(s) ==> strings_view(candidates@).contains(s@),
        candidates@.len() == 0 ==> r is None,
{
    let mut matcher = Matcher::default();
    Atom::new(search, CaseMatching::Smart, Normalization::Smart, AtomKind::Fuzzy, false)
        .match_list(candidates.iter(), &mut matcher)
        .first()
        .map(|(s, _)| (*s).clone())
}

pub open spec fn opt_view(o: Option<String>) -> Option<Seq<char>> {
    match o {
        Some(s) => Some(s@),
        None => None,
    }
}

/// The suggestion for an undeclared `name`: the declared name at
/// `close_match` when that is given, else the fuzzy matcher's pick.
///
/// `close_match` is the position among `declared` of the name most similar to
/// `name` by Jaro-Winkler similarity, where that similarity exceeds 0.9.
pub open spec fn suggestion_for(
    name: Seq<char>,
    declared: Seq<Seq<char>>,
    close_match: Option<usize>,
) -> Option<Seq<char>> {
    match close_match {
        Some(k) => if k < declared.len() {
            Some(declared[k as int])
        } else {
            fuzzy_pick(name, declared)
        },
        None => fuzzy_pick(name, declared),
    }
}

/// Chooses the suggestion for an undeclared `name` among the `declared` names.
pub fn suggest(name: &str, declared: &Vec<String>, close_match: Option<usize>) -> (r: Option<String>)
    ensures
        opt_view(r) == suggestion_for(name@, strings_view(declared@), close_match),
        r matches Some(s) ==> strings_view(declared@).contains(s@),
        declared@.len() == 0 ==> r is None,
{
    match close_match {
        Some(k) => if k < declared.len() {
            Some(declared[k].clone())
        } else {
            fuzzy_best(name, declared)
        },
        None => fuzzy_best(name, declared),
    }
}

pub open spec fn close_at(close: Seq<Option<usize>>, i: int) -> Option<usize> {
    if 0 <= i < close.len() {
        close[i]
    } else {
        None
    }
}

/// One diagnostic per undeclared reference, in text order; the `i`-th takes
/// its suggestion from `close[i]`, where given.
pub open spec fn diagnostics(us: Seq<UserTypeModel>, close: Seq<Option<usize>>) -> Seq<
    DiagnosticModel,
> {
    let refs = undefined_refs(us);
    Seq::new(
        refs.len(),
        |i: int| (refs[i].0, refs[i].1, suggestion_for(refs[i].1, declared_in(us), close_at(close, i))),
    )
}

/// A diagnostic names an undeclared type, and suggests a declared one if any:
/// none where nothing is declared.
pub open spec fn sound_diagnostic(d: DiagnosticModel, declared: Seq<Seq<char>>) -> bool {
    &&& !declared.contains(d.1)
    &&& (d.2 matches Some(s) ==> declared.contains(s) && s != d.1)
    &&& (declared.len() == 0 ==> d.2 is None)
}

proof fn lemma_unresolved_undeclared(refs: Seq<(Span, Seq<char>)>, names: Seq<Seq<char>>)
    ensures
        forall|i: int|
            0 <= i < unresolved(refs, names).len() ==> !names.contains(
                #[trigger] unresolved(refs, names)[i].1,
            ),
    decreases refs.len(),
{
    if refs.len() > 0 {
        let before = unresolved(refs.drop_last(), names);
        lemma_unresolved_undeclared(refs.drop_last(), names);
        assert forall|i: int| 0 <= i < unresolved(refs, names).len() implies !names.contains(
            #[trigger] unresolved(refs, names)[i].1,
        ) by {
            if i < before.len() {
                assert(unresolved(refs, names)[i] == before[i]);
            }
        }
    }
}

/// Checks that every user type the document refers to is declared in it.
///
/// `close_matches[i]`, where present, gives the suggestion for the `i`-th
/// reference of [`undefined_types`] as a position in [`declared_names`];
/// elsewhere the fuzzy matcher picks one. One problem is reported on its own,
/// several together.
pub fn analyze_errors(document: &Document, close_matches: &Vec<Option<usize>>) -> (r: Result<
    (),
    Error,
>)
    ensures
        reports(document.model(), close_matches@, r),
        forall|i: int|
            0 <= i < result_model(r).len() ==> sound_diagnostic(
                #[trigger] result_model(r)[i],
                declared_in(document.model()),
            ),
        ({
            let ds = diagnostics(document.model(), close_matches@);
            match r {
                Ok(()) => ds.len() == 0,
                Err(Error::UndefinedType(d)) => ds.len() == 1 && undefined_model(d) == ds[0],
                Err(Error::MultipleErrors(v)) => ds.len() > 1 && v@.map_values(
                    |d: Undefined| undefined_model(d),
                ) == ds,
            }
        }),
{
    let ghost ds = diagnostics(document.model(), close_matches@);
    let names = declared_names(document);
    let missing = undefined_types(document);
    let ghost refs = undefined_refs(document.model());
    let ghost declared = declared_in(document.model());
    proof {
        lemma_unresolved_undeclared(refs_of(document.model()), declared);
    }
    let mut found: Vec<Undefined> = Vec::new();
    let mut k: usize = 0;
    while k < missing.len()
        invariant
            k <= missing@.len(),
            refs_view(missing@) == refs,
            refs == undefined_refs(document.model()),
            strings_view(names@) == declared_in(document.model()),
            ds == diagnostics(document.model(), close_matches@),
            found@.len() == k,
            forall|m: int| 0 <= m < k ==> undefined_model(#[trigger] found@[m]) == ds[m],
            declared == declared_in(document.model()),
            forall|m: int|
                0 <= m < refs.len() ==> !declared.contains(#[trigger] refs[m].1),
            forall|m: int| 0 <= m < k ==> sound_diagnostic(#[trigger] ds[m], declared),
        decreases missing@.len() - k,
    {
        let close = if k < close_matches.len() {
            close_matches[k]
        } else {
            None
        };
        let suggestion = suggest(missing[k].value.as_str(), &names, close);
        let name = Spanned::new(missing[k].span, missing[k].value.clone());
        assert(refs[k as int] == (missing@[k as int].span, missing@[k as int].value@));
        assert(!declared.contains(refs[k as int].1));
        assert(sound_diagnostic(ds[k as int], declared));
        found.push(Undefined { name, suggestion });
        k = k + 1;
    }
    assert(forall|m: int| 0 <= m < ds.len() ==> sound_diagnostic(#[trigger] ds[m], declared));
    if found.len() == 0 {
        assert(result_model(Ok(())) =~= ds);
        Ok(())
    } else if found.len() == 1 {
        let ghost first = found@[0];
        let one = found.pop().unwrap();
        assert(one == first);
        assert(result_model(Err(Error::UndefinedType(one))) =~= ds);
        Err(Error::UndefinedType(one))
    } else {
        assert(found@.map_values(|d: Undefined| undefined_model(d)) =~= ds);
        Err(Error::MultipleErrors(found))
    }
}

/// The diagnostics that a result of [`analyze_errors`] reports, in order.
pub open spec fn result_model(r: Result<(), Error>) -> Seq<DiagnosticModel> {
    match r {
        Ok(()) => Seq::empty(),
        Err(Error::UndefinedType(d)) => seq![undefined_model(d)],
        Err(Error::MultipleErrors(v)) => v@.map_values(|d: Undefined| undefined_model(d)),
    }
}

/// What [`analyze_errors`] promises of its result.
pub open spec fn reports(us: Seq<UserTypeModel>, close: Seq<Option<usize>>, r: Result<(), Error>) -> bool {
    &&& result_model(r) == diagnostics(us, close)
    &&& (r matches Err(Error::MultipleErrors(v)) ==> v@.len() > 1)
}

/// Analysis is deterministic: two analyses of the same document, with the
/// same close matches, report the same diagnostics in the same order.
pub proof fn lemma_analysis_deterministic(
    us: Seq<UserTypeModel>,
    close: Seq<Option<usize>>,
    r1: Result<(), Error>,
    r2: Result<(), Error>,
)
    requires
        reports(us, close, r1),
        reports(us, close, r2),
    ensures
        result_model(r1) == result_model(r2),
        r1 is Ok <==> r2 is Ok,
{
    assert(result_model(r1).len() == result_model(r2).len());
    if let Err(Error::MultipleErrors(v)) = r1 {
        assert(result_model(r1).len() == v@.len());
    }
    if let Err(Error::MultipleErrors(v)) = r2 {
        assert(result_model(r2).len() == v@.len());
    }
}

/// A document that refers to no user type, only to builtins and lists of
/// them, has nothing to report.
pub proof fn lemma_no_references_no_diagnostics(us: Seq<UserTypeModel>, close: Seq<Option<usize>>)
    requires
        refs_of(us).len() == 0,
    ensures
        diagnostics(us, close).len() == 0,
{
    assert(refs_of(us) =~= Seq::empty());
}

/// Where a close match is given for an undeclared reference, the declared
/// name at that position is its suggestion.
pub proof fn lemma_close_match_suggested(us: Seq<UserTypeModel>, close: Seq<Option<usize>>, i: int)
    requires
        0 <= i < undefined_refs(us).len(),
        i < close.len(),
        close[i] matches Some(k) && k < declared_in(us).len(),
    ensures
        diagnostics(us, close)[i].2 == Some(declared_in(us)[close[i]->Some_0 as int]),
{
}

pub open spec fn undefined_message(name: Seq<char>) -> Seq<char> {
    "Undefined type '"@ + name + "'."@
}

pub open spec fn messages(ds: Seq<Undefined>) -> Seq<Seq<char>> {
    ds.map_values(|d: Undefined| undefined_message(d.name.value@))
}

impl Undefined {
    /// `Undefined type 'NAME'.`
    pub fn message(&self) -> (r: String)
        ensures
            r@ == undefined_message(self.name.value@),
    {
        let mut s = String::new();
        s.append("Undefined type '");
        s.append(self.name.value.as_str());
        s.append("'.");
        assert(s@ =~= undefined_message(self.name.value@));
        s
    }
}

impl Error {
    /// The text shown to the user: one line per problem, after a heading
    /// when there are several.
    pub fn message(&self) -> (r: String)
        ensures
            match self {
                Error::UndefinedType(d) => r@ == undefined_message(d.name.value@),
                Error::MultipleErrors(ds) => r@ == "Many errors were found.\n"@ + join(
                    messages(ds@),
                    "\n"@,
                ),
            },
    {
        match self {
            Error::UndefinedType(d) => d.message(),
            Error::MultipleErrors(ds) => {
                let mut lines: Vec<String> = Vec::new();
                let mut k: usize = 0;
                while k < ds.len()
                    invariant
                        k <= ds@.len(),
                        lines@.len() == k,
                        forall|j: int|
                            0 <= j < k ==> (#[trigger] lines@[j])@ == undefined_message(
                                ds@[j].name.value@,
                            ),
                    decreases ds@.len() - k,
                {
                    lines.push(ds[k].message());
                    k = k + 1;
                }
                assert(strings_view(lines@) =~= messages(ds@));
                let mut s = String::new();
                s.append("Many errors were found.\n");
                s.append(join_strings(&lines, "\n").as_str());
                s
            },
        }
    }
}

} // verus!
