//! What every backend shares: the order in which declarations are emitted,
//! and text helpers.
use vstd::prelude::*;
use vstd::string::{StrSliceExecFns, StringExecFns};

use crate::analyzer::strings_view;
use crate::rust::{declared_types, types_in, types_in_variants};
use crate::ast::{
    lemma_nested_decreases,
    lemma_variants_model, nested_types, refs_model, user_type_model, variant_model, variants_model, Document,
    EnumVariant, UserType, UserTypeModel, VariantModel,
};

verus! {

broadcast use {
    vstd::seq::axiom_seq_index_decreases,
    vstd::seq::axiom_seq_subrange_decreases,
};

/// The target languages.
#[derive(Debug, Clone, Copy, PartialEq, Eq, Structural)]
pub enum Lang {
    Rust,
    Python,
}

/// The language that a name or file extension selects.
pub open spec fn lang_named(name: Seq<char>) -> Option<Lang> {
    if name == "py"@ || name == "python"@ {
        Some(Lang::Python)
    } else if name == "rs"@ || name == "rust"@ {
        Some(Lang::Rust)
    } else {
        None
    }
}

impl Lang {
    /// Selects a backend by name (`python`, `rust`) or by file extension (`py`, `rs`).
    pub fn from_name(name: &str) -> (r: Option<Lang>)
        ensures
            r == lang_named(name@),
    {
        if same_text(name, "py") || same_text(name, "python") {
            Some(Lang::Python)
        } else if same_text(name, "rs") || same_text(name, "rust") {
            Some(Lang::Rust)
        } else {
            None
        }
    }
}

/// Whether two strings hold the same characters.
pub fn same_text(a: &str, b: &str) -> (r: bool)
    ensures
        r == (a@ == b@),
{
    let n = a.unicode_len();
    if n != b.unicode_len() {
        return false;
    }
    let mut k: usize = 0;
    while k < n
        invariant
            n == a@.len(),
            n == b@.len(),
            k <= n,
            forall|m: int| 0 <= m < k ==> a@[m] == b@[m],
        decreases n - k,
    {
        if a.get_char(k) != b.get_char(k) {
            return false;
        }
        k = k + 1;
    }
    assert(a@ =~= b@);
    true
}

/// A backend: turns a document into source text of its target language.
pub trait Emitter {
    fn emit(&mut self, document: &Document) -> String;
}

/// `u` after everything declared inside it, each nested declaration after
/// its own nested ones.
pub open spec fn order_of(u: UserTypeModel) -> Seq<UserTypeModel>
    decreases u,
{
    match u {
        UserTypeModel::Struct { .. } => seq![u],
        UserTypeModel::Enum { variants, .. } => order_in_variants(variants).push(u),
    }
}

pub open spec fn order_in_variants(vs: Seq<VariantModel>) -> Seq<UserTypeModel>
    decreases vs,
{
    if vs.len() == 0 {
        Seq::empty()
    } else {
        order_in_variants(vs.subrange(0, vs.len() - 1)) + match vs[vs.len() - 1] {
            VariantModel::Nested(_, u) => order_of(u),
            VariantModel::Named(_) => Seq::empty(),
        }
    }
}

/// The order in which a document's declarations are emitted.
pub open spec fn emission_order(us: Seq<UserTypeModel>) -> Seq<UserTypeModel>
    decreases us.len(),
{
    if us.len() == 0 {
        Seq::empty()
    } else {
        emission_order(us.drop_last()) + order_of(us.last())
    }
}

fn push_order<'a>(u: &'a UserType, out: &mut Vec<&'a UserType>)
    ensures
        refs_model(final(out)@) == refs_model(old(out)@) + order_of(user_type_model(*u)),
    decreases user_type_model(*u),
{
    let ghost start = refs_model(out@);
    match u {
        UserType::Struct(_) => {
            out.push(u);
            assert(refs_model(out@) =~= start + order_of(user_type_model(*u)));
        },
        UserType::Enum(e) => {
            let defs = &e.value.definitions;
            let ghost vms = variants_model(defs@);
            proof {
                lemma_variants_model(defs@);
            }
            let mut k: usize = 0;
            assert(refs_model(out@) =~= start + order_in_variants(vms.subrange(0, 0)));
            while k < defs.len()
                invariant
                    k <= defs@.len(),
                    *u == UserType::Enum(*e),
                    defs == &e.value.definitions,
                    vms == variants_model(defs@),
                    vms.len() == defs@.len(),
                    forall|m: int| 0 <= m < vms.len() ==> #[trigger] vms[m] == variant_model(defs@[m]),
                    refs_model(out@) == start + order_in_variants(vms.subrange(0, k as int)),
                decreases defs@.len() - k,
            {
                let ghost next = vms.subrange(0, k + 1);
                assert(next.subrange(0, k as int) =~= vms.subrange(0, k as int));
                assert(next[k as int] == variant_model(defs@[k as int]));
                if let EnumVariant::UserType(inner) = &defs[k].value {
                    proof {
                        lemma_nested_decreases(*u, *e, k as int, *inner);
                    }
                    push_order(inner, out);
                }
                assert(refs_model(out@) =~= start + order_in_variants(next));
                k = k + 1;
            }
            assert(vms.subrange(0, vms.len() as int) =~= vms);
            assert(user_type_model(*u)->Enum_variants == vms);
            let ghost before = out@;
            out.push(u);
            assert(refs_model(out@) =~= refs_model(before).push(user_type_model(*u)));
            assert(refs_model(out@) =~= start + order_of(user_type_model(*u)));
        },
    }
}

/// The document's declarations in the order they are emitted: each one after
/// the declarations nested inside it.
pub fn emission_order_of(document: &Document) -> (r: Vec<&UserType>)
    ensures
        refs_model(r@) == emission_order(document.model()),
{
    let us = &document.user_types;
    let ghost model = document.model();
    let mut out: Vec<&UserType> = Vec::new();
    let mut k: usize = 0;
    assert(refs_model(out@) =~= emission_order(model.subrange(0, 0)));
    while k < us.len()
        invariant
            k <= us@.len(),
            us == &document.user_types,
            model == document.model(),
            model.len() == us@.len(),
            refs_model(out@) == emission_order(model.subrange(0, k as int)),
        decreases us@.len() - k,
    {
        let ghost next = model.subrange(0, k + 1);
        assert(next.drop_last() =~= model.subrange(0, k as int));
        push_order(&us[k].value, &mut out);
        k = k + 1;
    }
    assert(model.subrange(0, model.len() as int) =~= model);
    out
}

/// The parts joined with `sep` between each two.
pub open spec fn join(parts: Seq<Seq<char>>, sep: Seq<char>) -> Seq<char>
    decreases parts.len(),
{
    if parts.len() == 0 {
        Seq::empty()
    } else if parts.len() == 1 {
        parts[0]
    } else {
        join(parts.drop_last(), sep) + sep + parts.last()
    }
}

pub fn join_strings(parts: &Vec<String>, sep: &str) -> (r: String)
    ensures
        r@ == join(strings_view(parts@), sep@),
{
    let ghost ps = strings_view(parts@);
    let mut out = String::new();
    let mut k: usize = 0;
    while k < parts.len()
        invariant
            k <= parts@.len(),
            ps == strings_view(parts@),
            out@ == join(ps.subrange(0, k as int), sep@),
        decreases parts@.len() - k,
    {
        let ghost next = ps.subrange(0, k + 1);
        assert(next.drop_last() =~= ps.subrange(0, k as int));
        if k > 0 {
            out.append(sep);
        }
        out.append(parts[k].as_str());
        assert(out@ =~= join(next, sep@));
        k = k + 1;
    }
    assert(ps.subrange(0, ps.len() as int) =~= ps);
    out
}

// ---------------------------------------------------------------------------
// What the emission order guarantees
proof fn lemma_order_of_rearranges(u: UserTypeModel)
    ensures
        order_of(u).to_multiset() == types_in(u).to_multiset(),
    decreases u,
{
    broadcast use vstd::seq_lib::lemma_multiset_commutative, vstd::multiset::group_multiset_axioms;

    match u {
        UserTypeModel::Struct { .. } => {},
        UserTypeModel::Enum { variants, .. } => {
            lemma_order_in_variants_rearranges(variants);
            assert(order_in_variants(variants).push(u) =~= order_in_variants(variants) + seq![u]);
            assert(order_of(u).to_multiset() =~= types_in(u).to_multiset());
        },
    }
}

proof fn lemma_order_in_variants_rearranges(vs: Seq<VariantModel>)
    ensures
        order_in_variants(vs).to_multiset() == types_in_variants(vs).to_multiset(),
    decreases vs,
{
    broadcast use vstd::seq_lib::lemma_multiset_commutative, vstd::multiset::group_multiset_axioms;

    if vs.len() > 0 {
        lemma_order_in_variants_rearranges(vs.subrange(0, vs.len() - 1));
        match vs[vs.len() - 1] {
            VariantModel::Nested(_, u) => {
                lemma_order_of_rearranges(u);
            },
            VariantModel::Named(_) => {},
        }
    }
}

/// Emission writes every declaration exactly once: the emission order is a
/// rearrangement of the document's declarations, nested ones included.
pub proof fn lemma_emission_order_rearranges(us: Seq<UserTypeModel>)
    ensures
        emission_order(us).to_multiset() == declared_types(us).to_multiset(),
    decreases us.len(),
{
    broadcast use vstd::seq_lib::lemma_multiset_commutative, vstd::multiset::group_multiset_axioms;

    if us.len() > 0 {
        lemma_emission_order_rearranges(us.drop_last());
        lemma_order_of_rearranges(us.last());
    }
}

/// Each declaration of `s` is preceded in `s` by every declaration nested
/// directly in it.
pub open spec fn children_first(s: Seq<UserTypeModel>) -> bool {
    forall|i: int, c: UserTypeModel|
        0 <= i < s.len() && #[trigger] s[i].children().contains(c) ==> exists|j: int|
            0 <= j < i && s[j] == c
}

proof fn lemma_children_first_concat(a: Seq<UserTypeModel>, b: Seq<UserTypeModel>)
    requires
        children_first(a),
        children_first(b),
    ensures
        children_first(a + b),
{
    let s = a + b;
    assert forall|i: int, c: UserTypeModel|
        0 <= i < s.len() && #[trigger] s[i].children().contains(c) implies exists|j: int|
            0 <= j < i && s[j] == c by {
        if i < a.len() {
            assert(s[i] == a[i]);
            let j = choose|j: int| 0 <= j < i && a[j] == c;
            assert(s[j] == c);
        } else {
            assert(s[i] == b[i - a.len()]);
            assert(b[i - a.len()].children().contains(c));
            let j = choose|j: int| 0 <= j < i - a.len() && b[j] == c;
            assert(s[j + a.len()] == c);
        }
    }
}

proof fn lemma_nested_are_ordered(vs: Seq<VariantModel>, c: UserTypeModel)
    requires
        nested_types(vs).contains(c),
    ensures
        order_in_variants(vs).contains(c),
    decreases vs.len(),
{
    let pre = vs.subrange(0, vs.len() - 1);
    match vs[vs.len() - 1] {
        VariantModel::Nested(_, u) => {
            if nested_types(pre).contains(c) {
                lemma_nested_are_ordered(pre, c);
                let j = choose|j: int| 0 <= j < order_in_variants(pre).len() && order_in_variants(pre)[j] == c;
                assert(order_in_variants(vs)[j] == c);
            } else {
                assert(c == u);
                let o = order_of(u);
                assert(o[o.len() - 1] == u);
                assert(order_in_variants(vs)[order_in_variants(pre).len() + o.len() - 1] == c);
            }
        },
        VariantModel::Named(_) => {
            lemma_nested_are_ordered(pre, c);
            let j = choose|j: int| 0 <= j < order_in_variants(pre).len() && order_in_variants(pre)[j] == c;
            assert(order_in_variants(vs)[j] == c);
        },
    }
}

proof fn lemma_order_of_children_first(u: UserTypeModel)
    ensures
        children_first(order_of(u)),
    decreases u,
{
    match u {
        UserTypeModel::Struct { .. } => {
            assert(u.children() =~= Seq::empty());
        },
        UserTypeModel::Enum { variants, .. } => {
            lemma_order_in_variants_children_first(variants);
            let o = order_in_variants(variants);
            let s = o.push(u);
            assert forall|i: int, c: UserTypeModel|
                0 <= i < s.len() && #[trigger] s[i].children().contains(c) implies exists|j: int|
                    0 <= j < i && s[j] == c by {
                if i < o.len() {
                    assert(s[i] == o[i]);
                    let j = choose|j: int| 0 <= j < i && o[j] == c;
                    assert(s[j] == c);
                } else {
                    assert(s[i] == u);
                    lemma_nested_are_ordered(variants, c);
                    let j = choose|j: int| 0 <= j < o.len() && o[j] == c;
                    assert(s[j] == c);
                }
            }
        },
    }
}

proof fn lemma_order_in_variants_children_first(vs: Seq<VariantModel>)
    ensures
        children_first(order_in_variants(vs)),
    decreases vs,
{
    if vs.len() > 0 {
        let pre = vs.subrange(0, vs.len() - 1);
        lemma_order_in_variants_children_first(pre);
        match vs[vs.len() - 1] {
            VariantModel::Nested(_, u) => {
                lemma_order_of_children_first(u);
                lemma_children_first_concat(order_in_variants(pre), order_of(u));
            },
            VariantModel::Named(_) => {
                assert(order_in_variants(vs) =~= order_in_variants(pre));
            },
        }
    }
}

/// A declaration nested in another is emitted before it: in the emission
/// order, each declaration comes after those declared directly inside it.
pub proof fn lemma_children_emitted_first(us: Seq<UserTypeModel>)
    ensures
        children_first(emission_order(us)),
    decreases us.len(),
{
    if us.len() > 0 {
        lemma_children_emitted_first(us.drop_last());
        lemma_order_of_children_first(us.last());
        lemma_children_first_concat(emission_order(us.drop_last()), order_of(us.last()));
    }
}

} // verus!
