//! The Rust backend: one serializable data type per declaration.
use vstd::prelude::*;
use vstd::string::StringExecFns;

use crate::ast::{
    lemma_nested_decreases,
    fields_model, lemma_variants_model, refs_model, type_model, user_type_model, variant_model,
    variants_model, Builtin, Document, EnumVariant, FieldModel, StructField, Type, TypeModel,
    UserType, UserTypeModel, VariantModel,
};
use crate::emitter::{emission_order, emission_order_of, same_text, Emitter};
use crate::span::Spanned;

verus! {

broadcast use {
    vstd::seq::axiom_seq_index_decreases,
    vstd::seq::axiom_seq_subrange_decreases,
};

pub open spec fn rs_builtin(b: Builtin) -> Seq<char> {
    match b {
        Builtin::U8 => "u8"@,
        Builtin::U16 => "u16"@,
        Builtin::U32 => "u32"@,
        Builtin::U64 => "u64"@,
        Builtin::USize => "usize"@,
        Builtin::I8 => "i8"@,
        Builtin::I16 => "i16"@,
        Builtin::I32 => "i32"@,
        Builtin::I64 => "i64"@,
        Builtin::ISize => "isize"@,
        Builtin::UInt => "u32"@,
        Builtin::Int => "i32"@,
        Builtin::F32 => "f32"@,
        Builtin::F64 => "f64"@,
        Builtin::Bool => "bool"@,
        Builtin::String => "String"@,
        Builtin::Binary => "Vec<u8>"@,
    }
}

pub open spec fn rs_type(t: TypeModel) -> Seq<char>
    decreases t,
{
    match t {
        TypeModel::Builtin(b) => rs_builtin(b),
        TypeModel::List(inner) => "Vec<"@ + rs_type(*inner) + ">"@,
        TypeModel::User(name) => name,
    }
}

// ---------------------------------------------------------------------------
// The registry of declarations, and equality
/// `u` followed by the declarations inside it, in text order.
pub open spec fn types_in(u: UserTypeModel) -> Seq<UserTypeModel>
    decreases u,
{
    match u {
        UserTypeModel::Struct { .. } => seq![u],
        UserTypeModel::Enum { variants, .. } => seq![u] + types_in_variants(variants),
    }
}

pub open spec fn types_in_variants(vs: Seq<VariantModel>) -> Seq<UserTypeModel>
    decreases vs,
{
    if vs.len() == 0 {
        Seq::empty()
    } else {
        types_in_variants(vs.subrange(0, vs.len() - 1)) + match vs[vs.len() - 1] {
            VariantModel::Nested(_, u) => types_in(u),
            VariantModel::Named(_) => Seq::empty(),
        }
    }
}

/// Every declaration of a document, nested ones included, in text order.
pub open spec fn declared_types(us: Seq<UserTypeModel>) -> Seq<UserTypeModel>
    decreases us.len(),
{
    if us.len() == 0 {
        Seq::empty()
    } else {
        declared_types(us.drop_last()) + types_in(us.last())
    }
}

/// The first declaration in `types` with the given name.
pub open spec fn lookup(types: Seq<UserTypeModel>, name: Seq<char>) -> Option<UserTypeModel>
    decreases types.len(),
{
    if types.len() == 0 {
        None
    } else if types[0].name() == name {
        Some(types[0])
    } else {
        lookup(types.drop_first(), name)
    }
}

/// Whether values of `t` can be compared for equality: no floating-point
/// type is reachable from it within `fuel` lookups of user types.
///
/// A path to a floating-point type that repeats no declaration takes at most
/// as many lookups as there are declarations, so with that much fuel this is
/// reachability. A name without a declaration counts as comparable.
pub open spec fn eq_type(types: Seq<UserTypeModel>, t: TypeModel, fuel: nat) -> bool
    decreases fuel, t,
{
    match t {
        TypeModel::Builtin(b) => b != Builtin::F32 && b != Builtin::F64,
        TypeModel::List(inner) => eq_type(types, *inner, fuel),
        TypeModel::User(name) => if fuel == 0 {
            true
        } else {
            match lookup(types, name) {
                Some(u) => eq_members(types, member_types(u), (fuel - 1) as nat),
                None => true,
            }
        },
    }
}

pub open spec fn eq_members(types: Seq<UserTypeModel>, ms: Seq<TypeModel>, fuel: nat) -> bool
    decreases fuel, ms,
{
    if ms.len() == 0 {
        true
    } else {
        proof {
            assert(decreases_to!(ms => ms[ms.len() - 1]));
        }
        eq_members(types, ms.subrange(0, ms.len() - 1), fuel) && eq_type(
            types,
            ms[ms.len() - 1],
            fuel,
        )
    }
}

/// The types of the fields of a struct, or of the variants of an enum.
pub open spec fn member_types(u: UserTypeModel) -> Seq<TypeModel> {
    u.members().map_values(|f: FieldModel| f.typ)
}

/// Whether the type generated for `u` can derive `PartialEq`.
pub open spec fn derives_eq(types: Seq<UserTypeModel>, u: UserTypeModel) -> bool {
    eq_members(types, member_types(u), types.len())
}

// ---------------------------------------------------------------------------
// Text
pub open spec fn rs_derives(eq: bool) -> Seq<char> {
    if eq {
        "#[derive(Debug, Clone, PartialEq, Serialize, Deserialize)]\n"@
    } else {
        "#[derive(Debug, Clone, Serialize, Deserialize)]\n"@
    }
}

pub open spec fn rs_field_lines(fs: Seq<FieldModel>) -> Seq<char>
    decreases fs.len(),
{
    if fs.len() == 0 {
        Seq::empty()
    } else {
        rs_field_lines(fs.drop_last()) + "    pub "@ + fs.last().name + ": "@ + rs_type(
            fs.last().typ,
        ) + ",\n"@
    }
}

pub open spec fn rs_variant_lines(fs: Seq<FieldModel>) -> Seq<char>
    decreases fs.len(),
{
    if fs.len() == 0 {
        Seq::empty()
    } else {
        rs_variant_lines(fs.drop_last()) + "    "@ + fs.last().name + "("@ + rs_type(
            fs.last().typ,
        ) + "),\n"@
    }
}

/// The message-identity implementation: a constant holding the declared name.
pub open spec fn rs_message_impl(name: Seq<char>) -> Seq<char> {
    "impl<'a> WingMessage<'a> for "@ + name + " {\n"@ + "    const NAME: &'static str = \""@
        + name + "\";\n"@ + "}\n\n"@
}

/// The item for `u`, given every declaration of the document.
pub open spec fn rs_item(u: UserTypeModel, types: Seq<UserTypeModel>) -> Seq<char> {
    rs_derives(derives_eq(types, u)) + match u {
        UserTypeModel::Struct { name, fields, .. } => "pub struct "@ + name + " {\n"@
            + rs_field_lines(fields) + "}\n\n"@,
        UserTypeModel::Enum { name, .. } => "pub enum "@ + name + " {\n"@ + rs_variant_lines(
            u.members(),
        ) + "}\n\n"@,
    } + rs_message_impl(u.name())
}

pub open spec fn rs_items(order: Seq<UserTypeModel>, types: Seq<UserTypeModel>) -> Seq<char>
    decreases order.len(),
{
    if order.len() == 0 {
        Seq::empty()
    } else {
        rs_items(order.drop_last(), types) + rs_item(order.last(), types)
    }
}

pub open spec fn rs_header() -> Seq<char> {
    "use serde::{Serialize, Deserialize};\nuse wing_rpc::Message as WingMessage;\n\n\n"@
}

/// The Rust module for a document's declarations.
pub open spec fn rust_module(us: Seq<UserTypeModel>) -> Seq<char> {
    rs_header() + rs_items(emission_order(us), declared_types(us))
}

/// Emits Rust data types, each naming itself as a message.
pub struct RustEmitter {}

fn rs_builtin_text(b: Builtin) -> (r: &'static str)
    ensures
        r@ == rs_builtin(b),
{
    match b {
        Builtin::U8 => "u8",
        Builtin::U16 => "u16",
        Builtin::U32 => "u32",
        Builtin::U64 => "u64",
        Builtin::USize => "usize",
        Builtin::I8 => "i8",
        Builtin::I16 => "i16",
        Builtin::I32 => "i32",
        Builtin::I64 => "i64",
        Builtin::ISize => "isize",
        Builtin::UInt => "u32",
        Builtin::Int => "i32",
        Builtin::F32 => "f32",
        Builtin::F64 => "f64",
        Builtin::Bool => "bool",
        Builtin::String => "String",
        Builtin::Binary => "Vec<u8>",
    }
}

fn rs_type_text(t: &Type) -> (r: String)
    ensures
        r@ == rs_type(type_model(*t)),
    decreases t,
{
    match t {
        Type::Builtin(b) => rs_builtin_text(*b).to_owned(),
        Type::List(inner) => {
            let inner_text = rs_type_text(inner);
            let mut s = String::new();
            s.append("Vec<");
            s.append(inner_text.as_str());
            s.append(">");
            assert(s@ =~= rs_type(type_model(*t)));
            s
        },
        Type::User(name) => name.clone(),
    }
}

fn push_types<'a>(u: &'a UserType, out: &mut Vec<&'a UserType>)
    ensures
        refs_model(final(out)@) == refs_model(old(out)@) + types_in(user_type_model(*u)),
    decreases user_type_model(*u),
{
    let ghost start = refs_model(out@);
    out.push(u);
    assert(refs_model(out@) =~= start + seq![user_type_model(*u)]);
    match u {
        UserType::Struct(_) => {},
        UserType::Enum(e) => {
            let defs = &e.value.definitions;
            let ghost vms = variants_model(defs@);
            proof {
                lemma_variants_model(defs@);
            }
            let mut k: usize = 0;
            assert(refs_model(out@) =~= start + seq![user_type_model(*u)] + types_in_variants(
                vms.subrange(0, 0),
            ));
            while k < defs.len()
                invariant
                    k <= defs@.len(),
                    *u == UserType::Enum(*e),
                    defs == &e.value.definitions,
                    vms == variants_model(defs@),
                    vms.len() == defs@.len(),
                    forall|m: int| 0 <= m < vms.len() ==> #[trigger] vms[m] == variant_model(defs@[m]),
                    refs_model(out@) == start + seq![user_type_model(*u)] + types_in_variants(
                        vms.subrange(0, k as int),
                    ),
                decreases defs@.len() - k,
            {
                let ghost next = vms.subrange(0, k + 1);
                assert(next.subrange(0, k as int) =~= vms.subrange(0, k as int));
                assert(next[k as int] == variant_model(defs@[k as int]));
                if let EnumVariant::UserType(inner) = &defs[k].value {
                    proof {
                        lemma_nested_decreases(*u, *e, k as int, *inner);
                    }
                    push_types(inner, out);
                }
                assert(refs_model(out@) =~= start + seq![user_type_model(*u)] + types_in_variants(
                    next,
                ));
                k = k + 1;
            }
            assert(vms.subrange(0, vms.len() as int) =~= vms);
            assert(user_type_model(*u)->Enum_variants == vms);
            assert(refs_model(out@) =~= start + types_in(user_type_model(*u)));
        },
    }
}

/// Every declaration of the document, nested ones included, in text order.
pub fn declarations(document: &Document) -> (r: Vec<&UserType>)
    ensures
        refs_model(r@) == declared_types(document.model()),
{
    let us = &document.user_types;
    let ghost model = document.model();
    let mut out: Vec<&UserType> = Vec::new();
    let mut k: usize = 0;
    assert(refs_model(out@) =~= declared_types(model.subrange(0, 0)));
    while k < us.len()
        invariant
            k <= us@.len(),
            us == &document.user_types,
            model == document.model(),
            model.len() == us@.len(),
            refs_model(out@) == declared_types(model.subrange(0, k as int)),
        decreases us@.len() - k,
    {
        let ghost next = model.subrange(0, k + 1);
        assert(next.drop_last() =~= model.subrange(0, k as int));
        push_types(&us[k].value, &mut out);
        k = k + 1;
    }
    assert(model.subrange(0, model.len() as int) =~= model);
    out
}

fn lookup_type<'a>(types: &Vec<&'a UserType>, name: &str) -> (r: Option<&'a UserType>)
    ensures
        match lookup(refs_model(types@), name@) {
            Some(m) => r matches Some(u) && user_type_model(*u) == m,
            None => r is None,
        },
{
    let ghost all = refs_model(types@);
    let mut k: usize = 0;
    assert(all.subrange(0, all.len() as int) =~= all);
    while k < types.len()
        invariant
            k <= types@.len(),
            all == refs_model(types@),
            lookup(all, name@) == lookup(all.subrange(k as int, all.len() as int), name@),
        decreases types@.len() - k,
    {
        let ghost rest = all.subrange(k as int, all.len() as int);
        assert(rest[0] == user_type_model(*types@[k as int]));
        assert(rest.drop_first() =~= all.subrange(k + 1, all.len() as int));
        if same_text(types[k].name(), name) {
            return Some(types[k]);
        }
        k = k + 1;
    }
    None
}

fn is_eq_type(types: &Vec<&UserType>, t: &Type, fuel: usize) -> (r: bool)
    ensures
        r == eq_type(refs_model(types@), type_model(*t), fuel as nat),
    decreases fuel, type_model(*t),
{
    match t {
        Type::Builtin(b) => !(*b == Builtin::F32 || *b == Builtin::F64),
        Type::List(inner) => {
            proof {
                assert(type_model(*t) is List);
                assert(decreases_to!(type_model(*t) => *(type_model(*t)->List_0)));
            }
            is_eq_type(types, inner, fuel)
        },
        Type::User(name) => {
            if fuel == 0 {
                return true;
            }
            let u = match lookup_type(types, name.as_str()) {
                Some(u) => u,
                None => {
                    return true;
                },
            };
            let ghost ms = member_types(user_type_model(*u));
            let members = u.children_types();
            let mut ok = true;
            let mut k: usize = 0;
            assert(ms.subrange(0, 0) =~= Seq::<TypeModel>::empty());
            while k < members.len()
                invariant
                    0 < fuel,
                    k <= members@.len(),
                    members@.len() == ms.len(),
                    forall|j: int|
                        0 <= j < members@.len() ==> type_model((#[trigger] members@[j]).value)
                            == ms[j],
                    ok == eq_members(refs_model(types@), ms.subrange(0, k as int), (fuel - 1) as nat),
                decreases members@.len() - k,
            {
                let ghost next = ms.subrange(0, k + 1);
                assert(next.subrange(0, k as int) =~= ms.subrange(0, k as int));
                ok = ok && is_eq_type(types, &members[k].value, fuel - 1);
                k = k + 1;
            }
            assert(ms.subrange(0, ms.len() as int) =~= ms);
            ok
        },
    }
}

fn derives_partial_eq(types: &Vec<&UserType>, u: &UserType) -> (r: bool)
    ensures
        r == derives_eq(refs_model(types@), user_type_model(*u)),
{
    let ghost ms = member_types(user_type_model(*u));
    let members = u.children_types();
    let fuel = types.len();
    let mut ok = true;
    let mut k: usize = 0;
    assert(ms.subrange(0, 0) =~= Seq::<TypeModel>::empty());
    while k < members.len()
        invariant
            fuel == types@.len(),
            k <= members@.len(),
            members@.len() == ms.len(),
            forall|j: int|
                0 <= j < members@.len() ==> type_model((#[trigger] members@[j]).value) == ms[j],
            ok == eq_members(refs_model(types@), ms.subrange(0, k as int), fuel as nat),
        decreases members@.len() - k,
    {
        let ghost next = ms.subrange(0, k + 1);
        assert(next.subrange(0, k as int) =~= ms.subrange(0, k as int));
        ok = ok && is_eq_type(types, &members[k].value, fuel);
        k = k + 1;
    }
    assert(ms.subrange(0, ms.len() as int) =~= ms);
    ok
}

/// The field lines of a struct, or the variant lines of an enum when `variants` is set.
fn member_lines(fs: &Vec<Spanned<StructField>>, variants: bool) -> (r: String)
    ensures
        variants ==> r@ == rs_variant_lines(fields_model(fs@)),
        !variants ==> r@ == rs_field_lines(fields_model(fs@)),
{
    let ghost fms = fields_model(fs@);
    let mut s = String::new();
    let mut k: usize = 0;
    assert(fms.subrange(0, 0) =~= Seq::<FieldModel>::empty());
    while k < fs.len()
        invariant
            k <= fs@.len(),
            fms == fields_model(fs@),
            variants ==> s@ == rs_variant_lines(fms.subrange(0, k as int)),
            !variants ==> s@ == rs_field_lines(fms.subrange(0, k as int)),
        decreases fs@.len() - k,
    {
        let ghost next = fms.subrange(0, k + 1);
        assert(next.drop_last() =~= fms.subrange(0, k as int));
        let f = &fs[k];
        if variants {
            s.append("    ");
            s.append(f.value.name.as_str());
            s.append("(");
            s.append(rs_type_text(&f.value.typ).as_str());
            s.append("),\n");
        } else {
            s.append("    pub ");
            s.append(f.value.name.as_str());
            s.append(": ");
            s.append(rs_type_text(&f.value.typ).as_str());
            s.append(",\n");
        }
        assert(variants ==> s@ =~= rs_variant_lines(next));
        assert(!variants ==> s@ =~= rs_field_lines(next));
        k = k + 1;
    }
    assert(fms.subrange(0, fms.len() as int) =~= fms);
    s
}

fn rs_item_text(u: &UserType, types: &Vec<&UserType>) -> (r: String)
    ensures
        r@ == rs_item(user_type_model(*u), refs_model(types@)),
{
    let ghost m = user_type_model(*u);
    let mut s = String::new();
    if derives_partial_eq(types, u) {
        s.append("#[derive(Debug, Clone, PartialEq, Serialize, Deserialize)]\n");
    } else {
        s.append("#[derive(Debug, Clone, Serialize, Deserialize)]\n");
    }
    let ghost head = s@;
    let name = u.name();
    match u {
        UserType::Struct(st) => {
            s.append("pub struct ");
            s.append(name);
            s.append(" {\n");
            s.append(member_lines(&st.value.fields, false).as_str());
            s.append("}\n\n");
        },
        UserType::Enum(en) => {
            let members = en.value.variants();
            assert(fields_model(members@) == m.members());
            s.append("pub enum ");
            s.append(name);
            s.append(" {\n");
            s.append(member_lines(&members, true).as_str());
            s.append("}\n\n");
        },
    }
    let ghost body = s@;
    s.append("impl<'a> WingMessage<'a> for ");
    s.append(name);
    s.append(" {\n");
    s.append("    const NAME: &'static str = \"");
    s.append(name);
    s.append("\";\n");
    s.append("}\n\n");
    assert(s@ =~= body + rs_message_impl(m.name()));
    assert(s@ =~= rs_item(m, refs_model(types@)));
    s
}

impl RustEmitter {
    pub fn new() -> (r: Self) {
        RustEmitter {  }
    }

    /// The Rust module for `document`.
    pub fn render(&self, document: &Document) -> (r: String)
        ensures
            r@ == rust_module(document.model()),
    {
        let types = declarations(document);
        let order = emission_order_of(document);
        let ghost models = refs_model(order@);
        let mut out = String::new();
        out.append("use serde::{Serialize, Deserialize};\nuse wing_rpc::Message as WingMessage;\n\n\n");
        let mut k: usize = 0;
        assert(out@ =~= rs_header() + rs_items(models.subrange(0, 0), refs_model(types@)));
        while k < order.len()
            invariant
                k <= order@.len(),
                models == refs_model(order@),
                models == emission_order(document.model()),
                refs_model(types@) == declared_types(document.model()),
                out@ == rs_header() + rs_items(models.subrange(0, k as int), refs_model(types@)),
            decreases order@.len() - k,
        {
            let ghost next = models.subrange(0, k + 1);
            assert(next.drop_last() =~= models.subrange(0, k as int));
            let u = order[k];
            assert(models[k as int] == user_type_model(*u));
            out.append(rs_item_text(u, &types).as_str());
            assert(out@ =~= rs_header() + rs_items(next, refs_model(types@)));
            k = k + 1;
        }
        assert(models.subrange(0, models.len() as int) =~= models);
        out
    }
}

impl Emitter for RustEmitter {
    fn emit(&mut self, document: &Document) -> (r: String)
        ensures
            r@ == rust_module(document.model()),
    {
        self.render(document)
    }
}

} // verus!
