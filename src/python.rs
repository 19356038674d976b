//! The Python backend: one schema class per declaration.
use vstd::prelude::*;
use vstd::string::StringExecFns;

use crate::analyzer::{contains_name, strings_view};
use crate::ast::{
    fields_model, refs_model, type_model, user_type_model, Builtin, Document, FieldModel,
    StructField, Type, TypeModel, UserType, UserTypeModel,
};
use crate::emitter::{emission_order, emission_order_of, join, join_strings, Emitter};
use crate::span::Spanned;

verus! {

pub open spec fn py_builtin(b: Builtin) -> Seq<char> {
    match b {
        Builtin::F32 | Builtin::F64 => "float"@,
        Builtin::Bool => "bool"@,
        Builtin::String => "str"@,
        Builtin::Binary => "bytes"@,
        _ => "int"@,
    }
}

pub open spec fn quoted(s: Seq<char>) -> Seq<char> {
    "'"@ + s + "'"@
}

/// A type annotation; a user type not yet defined above is a quoted forward reference.
pub open spec fn py_type(t: TypeModel, seen: Seq<Seq<char>>) -> Seq<char>
    decreases t,
{
    match t {
        TypeModel::Builtin(b) => py_builtin(b),
        TypeModel::List(inner) => "list["@ + py_type(*inner, seen) + "]"@,
        TypeModel::User(name) => if seen.contains(name) {
            name
        } else {
            quoted(name)
        },
    }
}

pub open spec fn py_field_lines(fs: Seq<FieldModel>, seen: Seq<Seq<char>>) -> Seq<char>
    decreases fs.len(),
{
    if fs.len() == 0 {
        Seq::empty()
    } else {
        py_field_lines(fs.drop_last(), seen) + "    "@ + fs.last().name + ": "@ + py_type(
            fs.last().typ,
            seen,
        ) + "\n"@
    }
}

pub open spec fn py_tag_lines(fs: Seq<FieldModel>) -> Seq<char>
    decreases fs.len(),
{
    if fs.len() == 0 {
        Seq::empty()
    } else {
        py_tag_lines(fs.drop_last()) + "        "@ + fs.last().name + " = "@ + quoted(
            fs.last().name,
        ) + "\n"@
    }
}

pub open spec fn match_args_line(names: Seq<Seq<char>>) -> Seq<char> {
    "    __match_args__: ClassVar[tuple] = ("@ + join(
        names.map_values(|n: Seq<char>| quoted(n)),
        ", "@,
    ) + ",)\n"@
}

pub open spec fn field_names(fs: Seq<FieldModel>) -> Seq<Seq<char>> {
    fs.map_values(|f: FieldModel| f.name)
}

pub open spec fn py_body(u: UserTypeModel, seen: Seq<Seq<char>>) -> Seq<char> {
    if u.is_empty() {
        "    pass\n"@
    } else {
        match u {
            UserTypeModel::Struct { fields, .. } => match_args_line(field_names(fields))
                + py_field_lines(fields, seen),
            UserTypeModel::Enum { .. } => match_args_line(seq!["tag"@, "value"@])
                + "    class Tag(StrEnum):\n"@ + py_tag_lines(u.members()) + "    tag: Tag\n"@
                + "    value: "@ + join(
                u.members().map_values(|f: FieldModel| py_type(f.typ, seen)),
                " | "@,
            ) + "\n"@,
        }
    }
}

pub open spec fn py_base(u: UserTypeModel) -> Seq<char> {
    match u {
        UserTypeModel::Struct { .. } => "Schema"@,
        UserTypeModel::Enum { .. } => "Enum"@,
    }
}

/// The class for `u`, where `seen` holds the names already defined above it.
pub open spec fn py_class(u: UserTypeModel, seen: Seq<Seq<char>>) -> Seq<char> {
    "class "@ + u.name() + "("@ + py_base(u) + "):\n"@ + py_body(u, seen) + "\n\n"@
}

pub open spec fn names_of(us: Seq<UserTypeModel>) -> Seq<Seq<char>> {
    us.map_values(|u: UserTypeModel| u.name())
}

/// The classes for `order`, each knowing the names defined before it.
pub open spec fn py_classes(order: Seq<UserTypeModel>) -> Seq<char>
    decreases order.len(),
{
    if order.len() == 0 {
        Seq::empty()
    } else {
        py_classes(order.drop_last()) + py_class(order.last(), names_of(order.drop_last()))
    }
}

pub open spec fn py_header() -> Seq<char> {
    "from wing_rpc import Schema, Enum\nfrom typing import ClassVar\nfrom enum import StrEnum\n\n\n"@
}

/// The Python module for a document's declarations.
pub open spec fn python_module(us: Seq<UserTypeModel>) -> Seq<char> {
    py_header() + py_classes(emission_order(us))
}

/// Emits Python classes: a schema per struct, a tagged union per enum.
pub struct PyEmitter {}

fn py_builtin_text(b: Builtin) -> (r: &'static str)
    ensures
        r@ == py_builtin(b),
{
    match b {
        Builtin::F32 | Builtin::F64 => "float",
        Builtin::Bool => "bool",
        Builtin::String => "str",
        Builtin::Binary => "bytes",
        _ => "int",
    }
}

fn py_type_text(t: &Type, seen: &Vec<String>) -> (r: String)
    ensures
        r@ == py_type(type_model(*t), strings_view(seen@)),
    decreases t,
{
    match t {
        Type::Builtin(b) => py_builtin_text(*b).to_owned(),
        Type::List(inner) => {
            let inner_text = py_type_text(inner, seen);
            let mut s = String::new();
            s.append("list[");
            s.append(inner_text.as_str());
            s.append("]");
            assert(s@ =~= py_type(type_model(*t), strings_view(seen@)));
            s
        },
        Type::User(name) => {
            if contains_name(seen, name) {
                name.clone()
            } else {
                let mut s = String::new();
                s.append("'");
                s.append(name.as_str());
                s.append("'");
                assert(s@ =~= py_type(type_model(*t), strings_view(seen@)));
                s
            }
        },
    }
}

fn quote(s: &str) -> (r: String)
    ensures
        r@ == quoted(s@),
{
    let mut q = String::new();
    q.append("'");
    q.append(s);
    q.append("'");
    assert(q@ =~= quoted(s@));
    q
}

fn match_args_text(names: &Vec<String>) -> (r: String)
    ensures
        r@ == match_args_line(strings_view(names@)),
{
    let mut quoted_names: Vec<String> = Vec::new();
    let mut k: usize = 0;
    while k < names.len()
        invariant
            k <= names@.len(),
            quoted_names@.len() == k,
            forall|m: int| 0 <= m < k ==> (#[trigger] quoted_names@[m])@ == quoted(names@[m]@),
        decreases names@.len() - k,
    {
        quoted_names.push(quote(names[k].as_str()));
        k = k + 1;
    }
    assert(strings_view(quoted_names@) =~= strings_view(names@).map_values(
        |n: Seq<char>| quoted(n),
    ));
    let mut s = String::new();
    s.append("    __match_args__: ClassVar[tuple] = (");
    s.append(join_strings(&quoted_names, ", ").as_str());
    s.append(",)\n");
    assert(s@ =~= match_args_line(strings_view(names@)));
    s
}

/// The field lines of a struct, or the tag lines of an enum when `tags` is set.
fn member_lines(fs: &Vec<Spanned<StructField>>, seen: &Vec<String>, tags: bool) -> (r: String)
    ensures
        tags ==> r@ == py_tag_lines(fields_model(fs@)),
        !tags ==> r@ == py_field_lines(fields_model(fs@), strings_view(seen@)),
{
    let ghost fms = fields_model(fs@);
    let ghost sv = strings_view(seen@);
    let mut s = String::new();
    let mut k: usize = 0;
    assert(fms.subrange(0, 0) =~= Seq::<FieldModel>::empty());
    while k < fs.len()
        invariant
            k <= fs@.len(),
            fms == fields_model(fs@),
            sv == strings_view(seen@),
            tags ==> s@ == py_tag_lines(fms.subrange(0, k as int)),
            !tags ==> s@ == py_field_lines(fms.subrange(0, k as int), sv),
        decreases fs@.len() - k,
    {
        let ghost next = fms.subrange(0, k + 1);
        assert(next.drop_last() =~= fms.subrange(0, k as int));
        let f = &fs[k];
        if tags {
            s.append("        ");
            s.append(f.value.name.as_str());
            s.append(" = ");
            s.append(quote(f.value.name.as_str()).as_str());
            s.append("\n");
        } else {
            s.append("    ");
            s.append(f.value.name.as_str());
            s.append(": ");
            s.append(py_type_text(&f.value.typ, seen).as_str());
            s.append("\n");
        }
        assert(tags ==> s@ =~= py_tag_lines(next));
        assert(!tags ==> s@ =~= py_field_lines(next, sv));
        k = k + 1;
    }
    assert(fms.subrange(0, fms.len() as int) =~= fms);
    s
}

fn py_class_text(u: &UserType, seen: &Vec<String>) -> (r: String)
    ensures
        r@ == py_class(user_type_model(*u), strings_view(seen@)),
{
    let ghost m = user_type_model(*u);
    let ghost sv = strings_view(seen@);
    let mut s = String::new();
    s.append("class ");
    s.append(u.name());
    s.append("(");
    match u {
        UserType::Struct(_) => s.append("Schema"),
        UserType::Enum(_) => s.append("Enum"),
    }
    s.append("):\n");
    let ghost head = s@;
    assert(head =~= "class "@ + m.name() + "("@ + py_base(m) + "):\n"@);
    if u.is_empty() {
        s.append("    pass\n");
    } else {
        match u {
            UserType::Struct(st) => {
                let fs = &st.value.fields;
                let mut names: Vec<String> = Vec::new();
                let mut k: usize = 0;
                while k < fs.len()
                    invariant
                        k <= fs@.len(),
                        names@.len() == k,
                        forall|j: int| 0 <= j < k ==> (#[trigger] names@[j])@ == fs@[j].value.name@,
                    decreases fs@.len() - k,
                {
                    names.push(fs[k].value.name.clone());
                    k = k + 1;
                }
                assert(strings_view(names@) =~= field_names(fields_model(fs@)));
                s.append(match_args_text(&names).as_str());
                s.append(member_lines(fs, seen, false).as_str());
            },
            UserType::Enum(en) => {
                let members = en.value.variants();
                assert(fields_model(members@) == m.members());
                let mut tag_value: Vec<String> = Vec::new();
                tag_value.push("tag".to_owned());
                tag_value.push("value".to_owned());
                assert(strings_view(tag_value@) =~= seq!["tag"@, "value"@]);
                s.append(match_args_text(&tag_value).as_str());
                s.append("    class Tag(StrEnum):\n");
                s.append(member_lines(&members, seen, true).as_str());
                s.append("    tag: Tag\n");
                let mut types: Vec<String> = Vec::new();
                let mut k: usize = 0;
                while k < members.len()
                    invariant
                        k <= members@.len(),
                        types@.len() == k,
                        forall|j: int|
                            0 <= j < k ==> (#[trigger] types@[j])@ == py_type(
                                type_model(members@[j].value.typ),
                                strings_view(seen@),
                            ),
                    decreases members@.len() - k,
                {
                    types.push(py_type_text(&members[k].value.typ, seen));
                    k = k + 1;
                }
                assert(strings_view(types@) =~= m.members().map_values(
                    |f: FieldModel| py_type(f.typ, sv),
                ));
                s.append("    value: ");
                s.append(join_strings(&types, " | ").as_str());
                s.append("\n");
            },
        }
    }
    assert(s@ =~= head + py_body(m, sv));
    s.append("\n\n");
    s
}

impl PyEmitter {
    pub fn new() -> (r: Self) {
        PyEmitter {  }
    }

    /// The Python module for `document`.
    pub fn render(&self, document: &Document) -> (r: String)
        ensures
            r@ == python_module(document.model()),
    {
        let order = emission_order_of(document);
        let ghost models = refs_model(order@);
        let mut out = String::new();
        out.append(
            "from wing_rpc import Schema, Enum\nfrom typing import ClassVar\nfrom enum import StrEnum\n\n\n",
        );
        let mut seen: Vec<String> = Vec::new();
        let mut k: usize = 0;
        assert(out@ =~= py_header() + py_classes(models.subrange(0, 0)));
        assert(strings_view(seen@) =~= names_of(models.subrange(0, 0)));
        while k < order.len()
            invariant
                k <= order@.len(),
                models == refs_model(order@),
                models == emission_order(document.model()),
                out@ == py_header() + py_classes(models.subrange(0, k as int)),
                strings_view(seen@) == names_of(models.subrange(0, k as int)),
            decreases order@.len() - k,
        {
            let ghost next = models.subrange(0, k + 1);
            assert(next.drop_last() =~= models.subrange(0, k as int));
            let u = order[k];
            assert(models[k as int] == user_type_model(*u));
            out.append(py_class_text(u, &seen).as_str());
            let ghost seen_before = seen@;
            let name = u.name().to_owned();
            assert(name@ == models[k as int].name());
            seen.push(name);
            assert(strings_view(seen@) =~= strings_view(seen_before).push(models[k as int].name()));
            assert(names_of(next) =~= names_of(models.subrange(0, k as int)).push(
                models[k as int].name(),
            ));
            assert(out@ =~= py_header() + py_classes(next));
            assert(strings_view(seen@) =~= names_of(next));
            k = k + 1;
        }
        assert(models.subrange(0, models.len() as int) =~= models);
        out
    }
}

impl Emitter for PyEmitter {
    fn emit(&mut self, document: &Document) -> (r: String)
        ensures
            r@ == python_module(document.model()),
    {
        self.render(document)
    }
}

} // verus!
