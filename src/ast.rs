use vstd::prelude::*;

use crate::span::{Span, Spanned};

verus! {

broadcast use {
    vstd::seq::axiom_seq_index_decreases,
    vstd::seq::axiom_seq_subrange_decreases,
    vstd::std_specs::vec::axiom_vec_decreases_to_view,
};

/// The primitive types that the language knows by name.
#[derive(Debug, Clone, Copy, PartialEq, Eq, Hash, Structural)]
pub enum Builtin {
    U8,
    U16,
    U32,
    U64,
    USize,
    I8,
    I16,
    I32,
    I64,
    ISize,
    UInt,
    Int,
    F32,
    F64,
    Bool,
    String,
    Binary,
}

/// The type of a field or of an enum variant.
#[derive(Debug, PartialEq)]
pub enum Type {
    Builtin(Builtin),
    List(Box<Type>),
    /// A name that is not a builtin; the analyzer checks that it is declared.
    User(String),
}

#[derive(Debug, PartialEq)]
pub struct StructField {
    pub name: String,
    pub typ: Type,
}

#[derive(Debug, PartialEq)]
pub struct Struct {
    pub name: String,
    pub fields: Vec<Spanned<StructField>>,
}

#[derive(Debug, PartialEq)]
pub enum EnumVariant {
    /// A tag carrying a value of the given type.
    NamedVariant(StructField),
    /// A struct or enum declared inside the enum's body.
    UserType(UserType),
}

#[derive(Debug, PartialEq)]
pub struct Enum {
    pub name: String,
    pub definitions: Vec<Spanned<EnumVariant>>,
}

#[derive(Debug, PartialEq)]
pub enum UserType {
    Struct(Spanned<Struct>),
    Enum(Spanned<Enum>),
}

/// A parsed source file: its top-level declarations in order.
#[derive(Debug, PartialEq)]
pub struct Document {
    pub user_types: Vec<Spanned<UserType>>,
}

// ---------------------------------------------------------------------------
// Mathematical models of the syntax tree: names as character sequences.
/// The model of a [`Type`].
pub enum TypeModel {
    Builtin(Builtin),
    List(Box<TypeModel>),
    User(Seq<char>),
}

/// The model of a spanned [`StructField`].
pub struct FieldModel {
    pub span: Span,
    pub name: Seq<char>,
    pub typ: TypeModel,
}

/// The model of a [`UserType`], with the span of its declaration.
pub enum UserTypeModel {
    Struct { span: Span, name: Seq<char>, fields: Seq<FieldModel> },
    Enum { span: Span, name: Seq<char>, variants: Seq<VariantModel> },
}

/// The model of a spanned [`EnumVariant`].
pub enum VariantModel {
    Named(FieldModel),
    Nested(Span, UserTypeModel),
}

impl UserTypeModel {
    pub open spec fn name(self) -> Seq<char> {
        match self {
            UserTypeModel::Struct { name, .. } => name,
            UserTypeModel::Enum { name, .. } => name,
        }
    }

    pub open spec fn span(self) -> Span {
        match self {
            UserTypeModel::Struct { span, .. } => span,
            UserTypeModel::Enum { span, .. } => span,
        }
    }
}

pub open spec fn type_model(t: Type) -> TypeModel
    decreases t,
{
    match t {
        Type::Builtin(b) => TypeModel::Builtin(b),
        Type::List(inner) => TypeModel::List(Box::new(type_model(*inner))),
        Type::User(name) => TypeModel::User(name@),
    }
}

pub open spec fn field_model(f: Spanned<StructField>) -> FieldModel {
    FieldModel { span: f.span, name: f.value.name@, typ: type_model(f.value.typ) }
}

pub open spec fn fields_model(fs: Seq<Spanned<StructField>>) -> Seq<FieldModel> {
    fs.map_values(|f: Spanned<StructField>| field_model(f))
}

pub open spec fn user_type_model(u: UserType) -> UserTypeModel
    decreases u,
{
    match u {
        UserType::Struct(s) => UserTypeModel::Struct {
            span: s.span,
            name: s.value.name@,
            fields: fields_model(s.value.fields@),
        },
        UserType::Enum(e) => UserTypeModel::Enum {
            span: e.span,
            name: e.value.name@,
            variants: variants_model(e.value.definitions@),
        },
    }
}

pub open spec fn variants_model(vs: Seq<Spanned<EnumVariant>>) -> Seq<VariantModel>
    decreases vs,
{
    if vs.len() == 0 {
        Seq::empty()
    } else {
        variants_model(vs.subrange(0, vs.len() - 1)).push(variant_model(vs[vs.len() - 1]))
    }
}

pub open spec fn variant_model(v: Spanned<EnumVariant>) -> VariantModel
    decreases v,
{
    match v.value {
        EnumVariant::NamedVariant(f) => VariantModel::Named(
            FieldModel { span: v.span, name: f.name@, typ: type_model(f.typ) },
        ),
        EnumVariant::UserType(u) => VariantModel::Nested(v.span, user_type_model(u)),
    }
}

pub open spec fn user_types_model(us: Seq<Spanned<UserType>>) -> Seq<UserTypeModel> {
    us.map_values(|u: Spanned<UserType>| user_type_model(u.value))
}

impl Document {
    /// The models of the top-level declarations, in order.
    pub open spec fn model(self) -> Seq<UserTypeModel> {
        user_types_model(self.user_types@)
    }
}

impl UserTypeModel {
    pub open spec fn is_empty(self) -> bool {
        match self {
            UserTypeModel::Struct { fields, .. } => fields.len() == 0,
            UserTypeModel::Enum { variants, .. } => variants.len() == 0,
        }
    }

    /// The declarations nested directly in this one, in order.
    pub open spec fn children(self) -> Seq<UserTypeModel> {
        match self {
            UserTypeModel::Struct { .. } => Seq::empty(),
            UserTypeModel::Enum { variants, .. } => nested_types(variants),
        }
    }

    /// Each field of a struct, or each variant of an enum seen as a field.
    pub open spec fn members(self) -> Seq<FieldModel> {
        match self {
            UserTypeModel::Struct { fields, .. } => fields,
            UserTypeModel::Enum { variants, .. } => variants.map_values(
                |v: VariantModel| variant_field(v),
            ),
        }
    }
}

/// A variant as a field: a nested declaration names a variant of its own type.
pub open spec fn variant_field(v: VariantModel) -> FieldModel {
    match v {
        VariantModel::Named(f) => f,
        VariantModel::Nested(span, u) => FieldModel {
            span,
            name: u.name(),
            typ: TypeModel::User(u.name()),
        },
    }
}

/// The declarations nested directly among `vs`, in order.
pub open spec fn nested_types(vs: Seq<VariantModel>) -> Seq<UserTypeModel>
    decreases vs.len(),
{
    if vs.len() == 0 {
        Seq::empty()
    } else {
        let before = nested_types(vs.subrange(0, vs.len() - 1));
        match vs[vs.len() - 1] {
            VariantModel::Nested(_, u) => before.push(u),
            VariantModel::Named(_) => before,
        }
    }
}

/// The model of a variant list is the model of each variant, in order.
pub proof fn lemma_variants_model(vs: Seq<Spanned<EnumVariant>>)
    ensures
        variants_model(vs).len() == vs.len(),
        forall|m: int| 0 <= m < vs.len() ==> #[trigger] variants_model(vs)[m] == variant_model(vs[m]),
    decreases vs.len(),
{
    if vs.len() > 0 {
        lemma_variants_model(vs.subrange(0, vs.len() - 1));
    }
}

/// A declaration nested in an enum is smaller than the enum: recursion over
/// nested declarations terminates.
pub proof fn lemma_nested_decreases(u: UserType, e: Spanned<Enum>, k: int, inner: UserType)
    requires
        u == UserType::Enum(e),
        0 <= k < e.value.definitions@.len(),
        e.value.definitions@[k].value == EnumVariant::UserType(inner),
    ensures
        decreases_to!(user_type_model(u) => user_type_model(inner)),
{
    let vms = variants_model(e.value.definitions@);
    lemma_variants_model(e.value.definitions@);
    assert(user_type_model(u)->Enum_variants == vms);
    assert(decreases_to!(user_type_model(u) => user_type_model(u)->Enum_variants));
    assert(vms[k] is Nested);
    assert(vms[k]->Nested_1 == user_type_model(inner));
    assert(decreases_to!(vms => vms[k]));
    assert(decreases_to!(vms[k] => vms[k]->Nested_1));
}

pub open spec fn refs_model(us: Seq<&UserType>) -> Seq<UserTypeModel> {
    us.map_values(|u: &UserType| user_type_model(*u))
}

impl Type {
    /// The name of a user type, or `None` for a builtin or a list.
    pub fn as_user(&self) -> (r: Option<&str>)
        ensures
            match type_model(*self) {
                TypeModel::User(name) => r matches Some(s) && s@ == name,
                _ => r is None,
            },
    {
        match self {
            Type::User(name) => Some(name.as_str()),
            _ => None,
        }
    }

    /// A copy of this type.
    pub fn copied(&self) -> (r: Type)
        ensures
            type_model(r) == type_model(*self),
        decreases self,
    {
        match self {
            Type::Builtin(b) => Type::Builtin(*b),
            Type::List(inner) => Type::List(Box::new(inner.copied())),
            Type::User(name) => Type::User(name.clone()),
        }
    }
}

impl StructField {
    pub fn new(name: &str, typ: Type) -> (r: StructField)
        ensures
            r.name@ == name@,
            r.typ == typ,
    {
        StructField { name: name.to_owned(), typ }
    }
}

impl Struct {
    /// The declarations nested in a struct: there are none.
    pub fn children_user_types(&self) -> (r: Vec<&UserType>)
        ensures
            r@.len() == 0,
    {
        Vec::new()
    }
}

impl Enum {
    /// The declarations nested directly in this enum, in order.
    pub fn children_user_types(&self) -> (r: Vec<&UserType>)
        ensures
            refs_model(r@) == nested_types(variants_model(self.definitions@)),
    {
        let ghost vms = variants_model(self.definitions@);
        proof {
            lemma_variants_model(self.definitions@);
        }
        let mut out: Vec<&UserType> = Vec::new();
        let mut k: usize = 0;
        assert(refs_model(out@) =~= Seq::empty());
        while k < self.definitions.len()
            invariant
                k <= self.definitions@.len(),
                vms == variants_model(self.definitions@),
                vms.len() == self.definitions@.len(),
                forall|m: int|
                    0 <= m < vms.len() ==> #[trigger] vms[m] == variant_model(
                        self.definitions@[m],
                    ),
                refs_model(out@) == nested_types(vms.subrange(0, k as int)),
            decreases self.definitions@.len() - k,
        {
            let ghost next = vms.subrange(0, k + 1);
            assert(next.subrange(0, k as int) =~= vms.subrange(0, k as int));
            assert(next[k as int] == variant_model(self.definitions@[k as int]));
            if let EnumVariant::UserType(u) = &self.definitions[k].value {
                out.push(u);
            }
            assert(refs_model(out@) =~= nested_types(next));
            k = k + 1;
        }
        assert(vms.subrange(0, vms.len() as int) =~= vms);
        out
    }

    /// Each variant seen as a field; a nested declaration names a variant of
    /// its own type.
    pub fn variants(&self) -> (r: Vec<Spanned<StructField>>)
        ensures
            fields_model(r@) == variants_model(self.definitions@).map_values(
                |v: VariantModel| variant_field(v),
            ),
    {
        proof {
            lemma_variants_model(self.definitions@);
        }
        let mut out: Vec<Spanned<StructField>> = Vec::new();
        let mut k: usize = 0;
        while k < self.definitions.len()
            invariant
                k <= self.definitions@.len(),
                out@.len() == k,
                forall|m: int|
                    0 <= m < k ==> field_model(#[trigger] out@[m]) == variant_field(
                        variant_model(self.definitions@[m]),
                    ),
            decreases self.definitions@.len() - k,
        {
            let def = &self.definitions[k];
            let field = match &def.value {
                EnumVariant::NamedVariant(f) => StructField { name: f.name.clone(), typ: f.typ.copied() },
                EnumVariant::UserType(u) => {
                    let name = u.name();
                    StructField { name: name.to_owned(), typ: Type::User(name.to_owned()) }
                },
            };
            out.push(Spanned::new(def.span, field));
            k = k + 1;
        }
        assert(fields_model(out@) =~= variants_model(self.definitions@).map_values(
            |v: VariantModel| variant_field(v),
        ));
        out
    }
}

impl UserType {
    /// The declared name.
    pub fn name(&self) -> (r: &str)
        ensures
            r@ == user_type_model(*self).name(),
    {
        match self {
            UserType::Struct(s) => s.value.name.as_str(),
            UserType::Enum(e) => e.value.name.as_str(),
        }
    }

    /// Whether a struct has no fields, or an enum no variants.
    pub fn is_empty(&self) -> (r: bool)
        ensures
            r == user_type_model(*self).is_empty(),
    {
        match self {
            UserType::Struct(s) => s.value.fields.len() == 0,
            UserType::Enum(e) => e.value.definitions.len() == 0,
        }
    }

    /// The declarations nested directly in this one, in order.
    pub fn children_user_types(&self) -> (r: Vec<&UserType>)
        ensures
            refs_model(r@) == user_type_model(*self).children(),
    {
        match self {
            UserType::Struct(s) => {
                let r = s.value.children_user_types();
                assert(refs_model(r@) =~= Seq::empty());
                r
            },
            UserType::Enum(e) => e.value.children_user_types(),
        }
    }

    /// The type of each field, or of each variant, with its span.
    pub fn children_types(&self) -> (r: Vec<Spanned<Type>>)
        ensures
            r@.len() == user_type_model(*self).members().len(),
            forall|k: int|
                0 <= k < r@.len() ==> (#[trigger] r@[k]).span == user_type_model(
                    *self,
                ).members()[k].span && type_model(r@[k].value) == user_type_model(
                    *self,
                ).members()[k].typ,
    {
        let fields = match self {
            UserType::Struct(s) => {
                let mut copy: Vec<Spanned<StructField>> = Vec::new();
                let mut k: usize = 0;
                while k < s.value.fields.len()
                    invariant
                        k <= s.value.fields@.len(),
                        copy@.len() == k,
                        forall|m: int|
                            0 <= m < k ==> field_model(#[trigger] copy@[m]) == field_model(
                                s.value.fields@[m],
                            ),
                    decreases s.value.fields@.len() - k,
                {
                    let f = &s.value.fields[k];
                    copy.push(
                        Spanned::new(
                            f.span,
                            StructField { name: f.value.name.clone(), typ: f.value.typ.copied() },
                        ),
                    );
                    k = k + 1;
                }
                assert(fields_model(copy@) =~= fields_model(s.value.fields@));
                copy
            },
            UserType::Enum(e) => e.value.variants(),
        };
        assert(fields_model(fields@) == user_type_model(*self).members());
        let mut out: Vec<Spanned<Type>> = Vec::new();
        let mut k: usize = 0;
        while k < fields.len()
            invariant
                k <= fields@.len(),
                out@.len() == k,
                fields_model(fields@) == user_type_model(*self).members(),
                forall|m: int|
                    0 <= m < k ==> (#[trigger] out@[m]).span == fields@[m].span && type_model(
                        out@[m].value,
                    ) == type_model(fields@[m].value.typ),
            decreases fields@.len() - k,
        {
            out.push(Spanned::new(fields[k].span, fields[k].value.typ.copied()));
            k = k + 1;
        }
        proof {
            assert forall|m: int| 0 <= m < out@.len() implies (#[trigger] out@[m]).span
                == user_type_model(*self).members()[m].span && type_model(out@[m].value)
                == user_type_model(*self).members()[m].typ by {
                assert(fields_model(fields@)[m] == field_model(fields@[m]));
            }
        }
        out
    }
}

} // verus!
