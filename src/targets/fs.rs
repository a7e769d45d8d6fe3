//! The F# dialect: records, tuples and unions, with the enum's tag encoding
//! expressed as a converter attribute.
use vstd::prelude::*;

use crate::builder::{Target, TypesBuilder};
use crate::kind::{
    check_enum, child, enum_fault, find_unskipped, first_unskipped, tuple_tys, variant_child, BuiltinTypeKind, Enum,
    EnumVariant, Field, FieldName, GenError, GenErrorKind, Struct, TagType, TypeKind, VariantKind,
};
use crate::targets::ts::{decl_outcome, tuple_field_tys};
use crate::text::{
    debug_quoted, decimal, join, join_strs, push_str, qualified, qualify, quoted, to_decimal, views,
};
use crate::types::{type_error, DynTapi, TapiDyn, Types};

verus! {

/// The spelling of a primitive.
pub open spec fn fs_builtin(b: BuiltinTypeKind) -> Seq<char> {
    match b {
        BuiltinTypeKind::U8 => "uint8"@,
        BuiltinTypeKind::U16 => "uint16"@,
        BuiltinTypeKind::U32 => "uint32"@,
        BuiltinTypeKind::U64 => "uint64"@,
        BuiltinTypeKind::U128 => "uint128"@,
        BuiltinTypeKind::I8 => "int8"@,
        BuiltinTypeKind::I16 => "int16"@,
        BuiltinTypeKind::I32 => "int32"@,
        BuiltinTypeKind::I64 => "int64"@,
        BuiltinTypeKind::I128 => "int128"@,
        BuiltinTypeKind::F32 => "float32"@,
        BuiltinTypeKind::F64 => "float"@,
        BuiltinTypeKind::Usize => "uint"@,
        BuiltinTypeKind::Isize => "int"@,
        BuiltinTypeKind::Bool => "bool"@,
        BuiltinTypeKind::Char => "char"@,
        BuiltinTypeKind::String => "string"@,
        BuiltinTypeKind::Unit => "unit"@,
    }
}

/// The use-site spelling of `ty`, qualified by its module path.
pub open spec fn fs_full_name(s: Seq<TapiDyn>, ty: int) -> Seq<char>
    decreases ty, 2nat, 0nat,
{
    if 0 <= ty < s.len() {
        qualify(views(s[ty].path@), fs_name(s, ty))
    } else {
        Seq::empty()
    }
}

/// The use-site spelling of `ty`, not qualified.
pub open spec fn fs_name(s: Seq<TapiDyn>, ty: int) -> Seq<char>
    decreases ty, 1nat, 0nat,
{
    if 0 <= ty < s.len() {
        match s[ty].kind {
            TypeKind::Struct(st) => st.attr.name.serialize_name@,
            TypeKind::TupleStruct(st) => st.attr.name.serialize_name@,
            TypeKind::Enum(e) => e.attr.name.serialize_name@,
            TypeKind::List(t) => if t < ty {
                "List<"@ + fs_full_name(s, t as int) + ">"@
            } else {
                Seq::empty()
            },
            TypeKind::Option(t) => if t < ty {
                "Option<"@ + fs_full_name(s, t as int) + ">"@
            } else {
                Seq::empty()
            },
            TypeKind::Tuple(tys) => join(fs_names(s, tys@, ty), " * "@),
            TypeKind::Record(k, v) => if k < ty && v < ty {
                "Map<"@ + fs_full_name(s, k as int) + ", "@ + fs_full_name(s, v as int) + ">"@
            } else {
                Seq::empty()
            },
            TypeKind::Any => "any"@,
            TypeKind::Builtin(b) => fs_builtin(b),
        }
    } else {
        Seq::empty()
    }
}

/// The qualified names of `tys`, each below `bound`.
pub open spec fn fs_names(s: Seq<TapiDyn>, tys: Seq<DynTapi>, bound: int) -> Seq<Seq<char>>
    decreases bound, 0nat, tys.len(),
{
    if tys.len() == 0 {
        Seq::empty()
    } else {
        fs_names(s, tys.drop_last(), bound).push(
            if 0 <= tys.last() < bound {
                fs_full_name(s, tys.last() as int)
            } else {
                Seq::empty()
            },
        )
    }
}

/// A field's label as written in a record.
pub open spec fn field_label(n: FieldName) -> Seq<char> {
    match n {
        FieldName::Named(name) => name.serialize_name@,
        FieldName::Index(i) => decimal(i as nat),
    }
}

/// The record entries of the serialized fields.
pub open spec fn fs_field_entries(s: Seq<TapiDyn>, fields: Seq<Field>) -> Seq<Seq<char>>
    decreases fields.len(),
{
    if fields.len() == 0 {
        Seq::empty()
    } else {
        let rest = fs_field_entries(s, fields.drop_last());
        let f = fields.last();
        if f.attr.skip_serializing {
            rest
        } else {
            rest.push(field_label(f.name) + ": "@ + fs_full_name(s, f.ty as int))
        }
    }
}

/// The labelled elements of a struct variant's payload.
pub open spec fn fs_named_entries(s: Seq<TapiDyn>, fields: Seq<Field>) -> Seq<Seq<char>> {
    fields.map_values(|f: Field| f.attr.name.serialize_name@ + ": "@ + fs_full_name(s, f.ty as int))
}

/// The converter options that spell out a tag encoding.
pub open spec fn fs_converter_options(tag: TagType) -> Seq<Seq<char>> {
    match tag {
        TagType::Internal { tag } => seq![
            "BaseUnionEncoding = JsonUnionEncoding.UnwrapSingleFieldCases"@,
            "UnionTagName = "@ + debug_quoted(tag@),
        ],
        TagType::Adjacent { tag, content } => seq![
            "BaseUnionEncoding = JsonUnionEncoding.UnwrapSingleFieldCases"@,
            "UnionTagName = "@ + debug_quoted(tag@),
            "UnionFieldsName = "@ + debug_quoted(content@),
        ],
        _ => seq![
            "BaseUnionEncoding = JsonUnionEncoding.ExternalTag + JsonUnionEncoding.UnwrapFieldlessTags + JsonUnionEncoding.UnwrapSingleFieldCases"@,
        ],
    }
}

/// The line of one union case.
pub open spec fn fs_case(s: Seq<TapiDyn>, v: EnumVariant) -> Seq<char> {
    match v.kind {
        VariantKind::Unit => "\n  | "@ + v.name@,
        VariantKind::Tuple(tys) => "\n  | "@ + v.name@ + " of "@ + join(
            fs_names(s, tys@, s.len() as int),
            " * "@,
        ),
        VariantKind::Struct(fields) => "\n  | "@ + v.name@ + " of "@ + join(
            fs_named_entries(s, fields@),
            " * "@,
        ),
    }
}

/// The lines of all union cases.
pub open spec fn fs_cases(s: Seq<TapiDyn>, vs: Seq<EnumVariant>) -> Seq<char>
    decreases vs.len(),
{
    if vs.len() == 0 {
        Seq::empty()
    } else {
        fs_cases(s, vs.drop_last()) + fs_case(s, vs.last())
    }
}

/// The declaration of `ty`: `None` for structural kinds, an error for a
/// shape that cannot be rendered.
pub open spec fn fs_decl(s: Seq<TapiDyn>, ty: int) -> Result<Option<Seq<char>>, GenErrorKind> {
    match s[ty].kind {
        TypeKind::Struct(st) => if st.attr.transparent {
            match first_unskipped(st.fields@) {
                Some(i) => Ok(
                    Some(
                        "type "@ + st.attr.name.serialize_name@ + " = "@ + fs_name(
                            s,
                            st.fields@[i].ty as int,
                        ),
                    ),
                ),
                None => Err(GenErrorKind::NoFieldInTransparent),
            }
        } else {
            Ok(
                Some(
                    "type "@ + st.attr.name.serialize_name@ + " =\n  { "@ + join(
                        fs_field_entries(s, st.fields@),
                        "\n    "@,
                    ) + " }"@,
                ),
            )
        },
        TypeKind::TupleStruct(st) => Ok(
            Some(
                "type "@ + st.attr.name.serialize_name@ + " = "@ + join(
                    fs_names(s, tuple_field_tys(st.fields@), s.len() as int),
                    " * "@,
                ),
            ),
        ),
        TypeKind::Enum(e) => match enum_fault(e) {
            Some(k) => Err(k),
            None => Ok(
                Some(
                    "[<JsonFSharpConverter("@ + join(fs_converter_options(e.attr.tag), ", "@)
                        + ")>]\ntype "@ + e.attr.name.serialize_name@ + " ="@ + fs_cases(
                        s,
                        e.variants@,
                    ),
                ),
            ),
        },
        _ => Ok(None),
    }
}

/// The F# prelude and namespace markers.
pub fn builder() -> (r: TypesBuilder)
    ensures
        r.target == Target::Fs,
        r.prelude@ == crate::builder::prelude_of(Target::Fs),
{
    TypesBuilder::new(Target::Fs)
}

/// The use-site spelling of `ty`, qualified by its module path.
pub fn full_ty_name(types: &Types, ty: DynTapi) -> (r: String)
    requires
        types.wf(),
        ty < types@.len(),
    ensures
        r@ == fs_full_name(types@, ty as int),
    decreases ty, 2nat, 0nat,
{
    let name = ty_name(types, ty);
    qualified(&types.get(ty).path, name)
}

fn wrap(open: &str, inner: &str, close: &str) -> (r: String)
    ensures
        r@ == open@ + inner@ + close@,
{
    let mut r = String::new();
    push_str(&mut r, open);
    push_str(&mut r, inner);
    push_str(&mut r, close);
    assert(r@ =~= open@ + inner@ + close@);
    r
}

fn builtin_name(b: &BuiltinTypeKind) -> (r: &'static str)
    ensures
        r@ == fs_builtin(*b),
{
    match b {
        BuiltinTypeKind::U8 => "uint8",
        BuiltinTypeKind::U16 => "uint16",
        BuiltinTypeKind::U32 => "uint32",
        BuiltinTypeKind::U64 => "uint64",
        BuiltinTypeKind::U128 => "uint128",
        BuiltinTypeKind::I8 => "int8",
        BuiltinTypeKind::I16 => "int16",
        BuiltinTypeKind::I32 => "int32",
        BuiltinTypeKind::I64 => "int64",
        BuiltinTypeKind::I128 => "int128",
        BuiltinTypeKind::F32 => "float32",
        BuiltinTypeKind::F64 => "float",
        BuiltinTypeKind::Usize => "uint",
        BuiltinTypeKind::Isize => "int",
        BuiltinTypeKind::Bool => "bool",
        BuiltinTypeKind::Char => "char",
        BuiltinTypeKind::String => "string",
        BuiltinTypeKind::Unit => "unit",
    }
}

/// The use-site spelling of `ty`.
pub fn ty_name(types: &Types, ty: DynTapi) -> (r: String)
    requires
        types.wf(),
        ty < types@.len(),
    ensures
        r@ == fs_name(types@, ty as int),
    decreases ty, 1nat, 0nat,
{
    let ghost s = types@;
    proof {
        assert(crate::types::kind_fits(s[ty as int].kind, ty as int, s.len() as int));
    }
    match &types.get(ty).kind {
        TypeKind::Struct(st) => st.attr.name.serialize_name.clone(),
        TypeKind::TupleStruct(st) => st.attr.name.serialize_name.clone(),
        TypeKind::Enum(e) => e.attr.name.serialize_name.clone(),
        TypeKind::List(t) => {
            assert(child(s[ty as int].kind, *t));
            let inner = full_ty_name(types, *t);
            wrap("List<", inner.as_str(), ">")
        },
        TypeKind::Option(t) => {
            assert(child(s[ty as int].kind, *t));
            let inner = full_ty_name(types, *t);
            wrap("Option<", inner.as_str(), ">")
        },
        TypeKind::Tuple(tys) => {
            assert forall|k: int| 0 <= k < tys@.len() implies tys@[k] < ty by {
                assert(child(s[ty as int].kind, tys@[k]));
            }
            fs_tuple(types, tys, Ghost(ty as int))
        },
        TypeKind::Record(k, v) => {
            assert(child(s[ty as int].kind, *k));
            assert(child(s[ty as int].kind, *v));
            let kn = full_ty_name(types, *k);
            let vn = full_ty_name(types, *v);
            let mut r = wrap("Map<", kn.as_str(), ", ");
            push_str(&mut r, vn.as_str());
            push_str(&mut r, ">");
            assert(r@ =~= "Map<"@ + kn@ + ", "@ + vn@ + ">"@);
            r
        },
        TypeKind::Any => String::from_str("any"),
        TypeKind::Builtin(b) => String::from_str(builtin_name(b)),
    }
}

/// The types `fields`, each below `bound`, as an F# tuple.
pub(crate) fn fs_tuple(types: &Types, fields: &Vec<DynTapi>, bound: Ghost<int>) -> (r: String)
    requires
        types.wf(),
        bound@ <= types@.len(),
        forall|k: int| 0 <= k < fields@.len() ==> fields@[k] < bound@,
    ensures
        r@ == join(fs_names(types@, fields@, bound@), " * "@),
    decreases bound@, 0nat, 0nat,
{
    let ghost s = types@;
    let mut names: Vec<String> = Vec::new();
    let mut i: usize = 0;
    while i < fields.len()
        invariant
            types.wf(),
            s == types@,
            bound@ <= s.len(),
            forall|k: int| 0 <= k < fields@.len() ==> fields@[k] < bound@,
            0 <= i <= fields@.len(),
            views(names@) == fs_names(s, fields@.take(i as int), bound@),
        decreases fields@.len() - i,
    {
        let n = full_ty_name(types, fields[i]);
        proof {
            assert(fields@.take(i + 1).drop_last() =~= fields@.take(i as int));
        }
        names.push(n);
        assert(views(names@) =~= fs_names(s, fields@.take(i + 1), bound@));
        i = i + 1;
    }
    assert(fields@.take(fields@.len() as int) =~= fields@);
    join_strs(&names, " * ")
}

fn field_label_text(n: &FieldName) -> (r: String)
    ensures
        r@ == field_label(*n),
{
    match n {
        FieldName::Named(name) => name.serialize_name.clone(),
        FieldName::Index(i) => to_decimal(*i),
    }
}

/// The record entries of a struct's serialized fields.
fn fs_fields(types: &Types, fields: &Vec<Field>) -> (r: String)
    requires
        types.wf(),
        forall|k: int| 0 <= k < fields@.len() ==> (#[trigger] fields@[k]).ty < types@.len(),
    ensures
        r@ == join(fs_field_entries(types@, fields@), "\n    "@),
{
    let ghost s = types@;
    let mut entries: Vec<String> = Vec::new();
    let mut i: usize = 0;
    while i < fields.len()
        invariant
            types.wf(),
            s == types@,
            forall|k: int| 0 <= k < fields@.len() ==> (#[trigger] fields@[k]).ty < s.len(),
            0 <= i <= fields@.len(),
            views(entries@) == fs_field_entries(s, fields@.take(i as int)),
        decreases fields@.len() - i,
    {
        let f = &fields[i];
        proof {
            assert(fields@.take(i + 1).drop_last() =~= fields@.take(i as int));
            assert(fields@.take(i + 1).last() == fields@[i as int]);
        }
        if !f.attr.skip_serializing {
            let mut e = field_label_text(&f.name);
            push_str(&mut e, ": ");
            assert(fields@[i as int].ty < s.len());
            let n = full_ty_name(types, f.ty);
            push_str(&mut e, n.as_str());
            entries.push(e);
        }
        assert(views(entries@) =~= fs_field_entries(s, fields@.take(i + 1)));
        i = i + 1;
    }
    assert(fields@.take(fields@.len() as int) =~= fields@);
    join_strs(&entries, "\n    ")
}

/// The labelled elements of a struct variant's payload.
fn fs_named_tuple(types: &Types, fields: &Vec<Field>) -> (r: String)
    requires
        types.wf(),
        forall|k: int| 0 <= k < fields@.len() ==> (#[trigger] fields@[k]).ty < types@.len(),
    ensures
        r@ == join(fs_named_entries(types@, fields@), " * "@),
{
    let ghost s = types@;
    let ghost f = |f: Field| f.attr.name.serialize_name@ + ": "@ + fs_full_name(s, f.ty as int);
    let mut entries: Vec<String> = Vec::new();
    let mut i: usize = 0;
    while i < fields.len()
        invariant
            types.wf(),
            s == types@,
            f == (|f: Field| f.attr.name.serialize_name@ + ": "@ + fs_full_name(s, f.ty as int)),
            forall|k: int| 0 <= k < fields@.len() ==> (#[trigger] fields@[k]).ty < s.len(),
            0 <= i <= fields@.len(),
            views(entries@) == fields@.take(i as int).map_values(f),
        decreases fields@.len() - i,
    {
        let mut e = fields[i].attr.name.serialize_name.clone();
        push_str(&mut e, ": ");
        assert(fields@[i as int].ty < s.len());
        let n = full_ty_name(types, fields[i].ty);
        push_str(&mut e, n.as_str());
        let ghost before = entries@;
        entries.push(e);
        proof {
            assert(fields@.take(i + 1) =~= fields@.take(i as int).push(fields@[i as int]));
            assert(fields@.take(i + 1).map_values(f) =~= fields@.take(i as int).map_values(f).push(
                f(fields@[i as int]),
            ));
            assert(views(entries@) =~= views(before).push(e@));
        }
        i = i + 1;
    }
    assert(fields@.take(fields@.len() as int) =~= fields@);
    join_strs(&entries, " * ")
}

fn fs_case_text(types: &Types, v: &EnumVariant) -> (r: String)
    requires
        types.wf(),
        forall|x: DynTapi| variant_child(v.kind, x) ==> x < types@.len(),
    ensures
        r@ == fs_case(types@, *v),
{
    let ghost s = types@;
    let mut out = String::new();
    push_str(&mut out, "\n  | ");
    push_str(&mut out, v.name.as_str());
    match &v.kind {
        VariantKind::Unit => {},
        VariantKind::Tuple(tys) => {
            assert forall|k: int| 0 <= k < tys@.len() implies tys@[k] < s.len() by {
                assert(variant_child(v.kind, tys@[k]));
            }
            let t = fs_tuple(types, tys, Ghost(s.len() as int));
            push_str(&mut out, " of ");
            push_str(&mut out, t.as_str());
        },
        VariantKind::Struct(fields) => {
            assert forall|k: int| 0 <= k < fields@.len() implies (#[trigger] fields@[k]).ty < s.len() by {
                assert(variant_child(v.kind, fields@[k].ty));
            }
            let t = fs_named_tuple(types, fields);
            push_str(&mut out, " of ");
            push_str(&mut out, t.as_str());
        },
    }
    assert(out@ =~= fs_case(s, *v));
    out
}

fn fs_options(tag: &TagType) -> (r: Vec<String>)
    ensures
        views(r@) == fs_converter_options(*tag),
{
    let mut r: Vec<String> = Vec::new();
    match tag {
        TagType::Internal { tag } => {
            r.push(String::from_str("BaseUnionEncoding = JsonUnionEncoding.UnwrapSingleFieldCases"));
            r.push(wrap("UnionTagName = ", quoted(tag.as_str()).as_str(), ""));
        },
        TagType::Adjacent { tag, content } => {
            r.push(String::from_str("BaseUnionEncoding = JsonUnionEncoding.UnwrapSingleFieldCases"));
            r.push(wrap("UnionTagName = ", quoted(tag.as_str()).as_str(), ""));
            r.push(wrap("UnionFieldsName = ", quoted(content.as_str()).as_str(), ""));
        },
        _ => {
            r.push(
                String::from_str(
                    "BaseUnionEncoding = JsonUnionEncoding.ExternalTag + JsonUnionEncoding.UnwrapFieldlessTags + JsonUnionEncoding.UnwrapSingleFieldCases",
                ),
            );
        },
    }
    proof {
        reveal_strlit("");
    }
    assert(views(r@) =~= fs_converter_options(*tag));
    r
}

fn fs_enum_decl(types: &Types, ty: DynTapi, e: &Enum) -> (r: Result<Option<String>, GenError>)
    requires
        types.wf(),
        ty < types@.len(),
        types@[ty as int].kind == TypeKind::Enum(*e),
    ensures
        decl_outcome(types@, ty as int, r, fs_decl(types@, ty as int)),
{
    let ghost s = types@;
    proof {
        assert(crate::types::kind_fits(s[ty as int].kind, ty as int, s.len() as int));
    }
    let name = &e.attr.name.serialize_name;
    match check_enum(e) {
        Some(k) => Err(type_error(types, ty, k, name)),
        None => {
            let opts = fs_options(&e.attr.tag);
            let o = join_strs(&opts, ", ");
            let mut out = wrap("[<JsonFSharpConverter(", o.as_str(), ")>]\ntype ");
            push_str(&mut out, name.as_str());
            push_str(&mut out, " =");
            let ghost head = out@;
            let mut i: usize = 0;
            while i < e.variants.len()
                invariant
                    types.wf(),
                    s == types@,
                    0 <= ty < s.len(),
                    s[ty as int].kind == TypeKind::Enum(*e),
                    crate::types::kind_fits(s[ty as int].kind, ty as int, s.len() as int),
                    0 <= i <= e.variants@.len(),
                    out@ == head + fs_cases(s, e.variants@.take(i as int)),
                decreases e.variants@.len() - i,
            {
                let v = &e.variants[i];
                assert forall|x: DynTapi| variant_child(v.kind, x) implies x < s.len() by {
                    assert(child(s[ty as int].kind, x));
                }
                let c = fs_case_text(types, v);
                push_str(&mut out, c.as_str());
                proof {
                    assert(e.variants@.take(i + 1).drop_last() =~= e.variants@.take(i as int));
                    assert(e.variants@.take(i + 1).last() == e.variants@[i as int]);
                    assert(out@ =~= head + fs_cases(s, e.variants@.take(i + 1)));
                }
                i = i + 1;
            }
            assert(e.variants@.take(e.variants@.len() as int) =~= e.variants@);
            assert(head =~= "[<JsonFSharpConverter("@ + o@ + ")>]\ntype "@ + name@ + " ="@);
            Ok(Some(out))
        },
    }
}

/// The standalone declaration of `ty`, `None` for a structural kind, or
/// an error naming the type where its shape cannot be rendered.
pub fn ty_decl(types: &Types, ty: DynTapi) -> (r: Result<Option<String>, GenError>)
    requires
        types.wf(),
        ty < types@.len(),
    ensures
        decl_outcome(types@, ty as int, r, fs_decl(types@, ty as int)),
{
    let ghost s = types@;
    proof {
        assert(crate::types::kind_fits(s[ty as int].kind, ty as int, s.len() as int));
    }
    match &types.get(ty).kind {
        TypeKind::Struct(st) => {
            assert forall|k: int| 0 <= k < st.fields@.len() implies (#[trigger] st.fields@[k]).ty
                < s.len() by {
                assert(child(s[ty as int].kind, st.fields@[k].ty));
            }
            let name = &st.attr.name.serialize_name;
            if st.attr.transparent {
                match find_unskipped(&st.fields) {
                    Some(i) => {
                        let n = ty_name(types, st.fields[i].ty);
                        Ok(Some(wrap("type ", name.as_str(), " = ").concat(n.as_str())))
                    },
                    None => Err(type_error(types, ty, GenErrorKind::NoFieldInTransparent, name)),
                }
            } else {
                let f = fs_fields(types, &st.fields);
                let mut out = wrap("type ", name.as_str(), " =\n  { ");
                push_str(&mut out, f.as_str());
                push_str(&mut out, " }");
                Ok(Some(out))
            }
        },
        TypeKind::TupleStruct(st) => {
            let tys = tuple_tys(&st.fields);
            assert forall|k: int| 0 <= k < tys@.len() implies tys@[k] < s.len() by {
                assert(tys@[k] == st.fields@[k].ty);
                assert(child(s[ty as int].kind, st.fields@[k].ty));
            }
            let t = fs_tuple(types, &tys, Ghost(s.len() as int));
            let mut out = wrap("type ", st.attr.name.serialize_name.as_str(), " = ");
            push_str(&mut out, t.as_str());
            Ok(Some(out))
        },
        TypeKind::Enum(e) => fs_enum_decl(types, ty, e),
        _ => Ok(None),
    }
}

} // verus!
