//! The TypeScript dialect.
use vstd::prelude::*;

use crate::builder::{Target, TypesBuilder};
use crate::kind::{
    decl_name, enum_fault, first_unskipped, has_data, check_enum, enum_has_data, find_unskipped,
    BuiltinTypeKind, EnumVariant, Field, FieldName, GenError, GenErrorKind, TagType, TupleStructField,
    TypeKind, VariantKind,
};
use crate::text::{
    debug_quoted, decimal, join, join_strs, push_str, qualified, qualify, quoted, shouty_snake,
    to_decimal, to_shouty_snake, views,
};
use crate::types::{DynTapi, TapiDyn, Types};
use crate::kind::{child, variant_child, Enum, Struct, TupleStruct, tuple_tys};
use crate::types::type_error;

verus! {

/// The spelling of a primitive.
pub open spec fn ts_builtin(b: BuiltinTypeKind) -> Seq<char> {
    match b {
        BuiltinTypeKind::Bool => "boolean"@,
        BuiltinTypeKind::Char | BuiltinTypeKind::String => "string"@,
        BuiltinTypeKind::Unit => "void"@,
        _ => "number"@,
    }
}

/// The use-site spelling of `ty`, qualified by its module path.
pub open spec fn ts_full_name(s: Seq<TapiDyn>, ty: int) -> Seq<char>
    decreases ty, 2nat, 0nat,
{
    if 0 <= ty < s.len() {
        qualify(views(s[ty].path@), ts_name(s, ty))
    } else {
        Seq::empty()
    }
}

/// The use-site spelling of `ty`, not qualified.
pub open spec fn ts_name(s: Seq<TapiDyn>, ty: int) -> Seq<char>
    decreases ty, 1nat, 0nat,
{
    if 0 <= ty < s.len() {
        match s[ty].kind {
            TypeKind::Struct(st) => st.attr.name.serialize_name@,
            TypeKind::TupleStruct(st) => st.attr.name.serialize_name@,
            TypeKind::Enum(e) => e.attr.name.serialize_name@,
            TypeKind::List(t) => if t < ty {
                ts_full_name(s, t as int) + "[]"@
            } else {
                Seq::empty()
            },
            TypeKind::Option(t) => if t < ty {
                "("@ + ts_full_name(s, t as int) + " | null)"@
            } else {
                Seq::empty()
            },
            TypeKind::Tuple(tys) => ts_tuple_of(ts_names(s, tys@, ty)),
            TypeKind::Record(k, v) => if k < ty && v < ty {
                "Record<"@ + ts_full_name(s, k as int) + ", "@ + ts_full_name(s, v as int) + ">"@
            } else {
                Seq::empty()
            },
            TypeKind::Any => "any"@,
            TypeKind::Builtin(b) => ts_builtin(b),
        }
    } else {
        Seq::empty()
    }
}

/// The qualified names of `tys`, each below `bound`.
pub open spec fn ts_names(s: Seq<TapiDyn>, tys: Seq<DynTapi>, bound: int) -> Seq<Seq<char>>
    decreases bound, 0nat, tys.len(),
{
    if tys.len() == 0 {
        Seq::empty()
    } else {
        ts_names(s, tys.drop_last(), bound).push(
            if 0 <= tys.last() < bound {
                ts_full_name(s, tys.last() as int)
            } else {
                Seq::empty()
            },
        )
    }
}

/// A positional tuple: a bare name for one element, else a bracketed list.
pub open spec fn ts_tuple_of(names: Seq<Seq<char>>) -> Seq<char> {
    if names.len() == 1 {
        names[0]
    } else {
        "["@ + join(names, ", "@) + "]"@
    }
}

/// The key under which a field is written.
pub open spec fn field_key(n: FieldName) -> Seq<char> {
    match n {
        FieldName::Named(name) => debug_quoted(name.serialize_name@),
        FieldName::Index(i) => decimal(i as nat),
    }
}

pub open spec fn ts_field_entry(s: Seq<TapiDyn>, f: Field, multi_line: bool) -> Seq<char> {
    (if multi_line {
        "  "@
    } else {
        Seq::empty()
    }) + field_key(f.name) + ": "@ + ts_full_name(s, f.ty as int)
}

/// One entry for each serialized field, in declaration order.
pub open spec fn ts_field_entries(s: Seq<TapiDyn>, fields: Seq<Field>, multi_line: bool) -> Seq<
    Seq<char>,
>
    decreases fields.len(),
{
    if fields.len() == 0 {
        Seq::empty()
    } else {
        let rest = ts_field_entries(s, fields.drop_last(), multi_line);
        if fields.last().attr.skip_serializing {
            rest
        } else {
            rest.push(ts_field_entry(s, fields.last(), multi_line))
        }
    }
}

/// The serialized fields, one per line or on one line.
pub open spec fn ts_fields_text(s: Seq<TapiDyn>, fields: Seq<Field>, multi_line: bool) -> Seq<char> {
    join(
        ts_field_entries(s, fields, multi_line),
        if multi_line {
            ",\n"@
        } else {
            ", "@
        },
    )
}

/// The handles of a tuple struct's fields.
pub open spec fn tuple_field_tys(fields: Seq<TupleStructField>) -> Seq<DynTapi> {
    fields.map_values(|f: TupleStructField| f.ty)
}

/// The literal for a variant under the enum's tag encoding.
pub open spec fn ts_variant(s: Seq<TapiDyn>, tag: TagType, v: EnumVariant) -> Seq<char> {
    let name = debug_quoted(v.name@);
    match v.kind {
        VariantKind::Unit => match tag {
            TagType::Internal { tag } => "{ "@ + debug_quoted(tag@) + ": "@ + name + " }"@,
            TagType::Adjacent { tag, content } => "{ "@ + debug_quoted(tag@) + ": "@ + name + " }"@,
            _ => name,
        },
        VariantKind::Tuple(tys) => {
            let payload = ts_tuple_of(ts_names(s, tys@, s.len() as int));
            match tag {
                TagType::Adjacent { tag, content } => "{ "@ + debug_quoted(tag@) + ": "@ + name + ", "@
                    + debug_quoted(content@) + ": "@ + payload + " }"@,
                _ => "{ "@ + name + ": "@ + payload + " }"@,
            }
        },
        VariantKind::Struct(fields) => {
            let body = ts_fields_text(s, fields@, false);
            match tag {
                TagType::Internal { tag } => "{ "@ + debug_quoted(tag@) + ": "@ + name + ", "@ + body
                    + " }"@,
                TagType::Adjacent { tag, content } => "{ "@ + debug_quoted(tag@) + ": "@ + name + ", "@
                    + debug_quoted(content@) + ": { "@ + body + " } }"@,
                _ => "{ "@ + name + ": { "@ + body + " } }"@,
            }
        },
    }
}

pub open spec fn ts_variants(s: Seq<TapiDyn>, tag: TagType, vs: Seq<EnumVariant>) -> Seq<Seq<char>> {
    vs.map_values(|v: EnumVariant| ts_variant(s, tag, v))
}

/// The declaration of `ty`: `None` for structural kinds, an error for a
/// shape that cannot be rendered.
pub open spec fn ts_decl(s: Seq<TapiDyn>, ty: int) -> Result<Option<Seq<char>>, GenErrorKind> {
    match s[ty].kind {
        TypeKind::Struct(st) => {
            let name = st.attr.name.serialize_name@;
            if st.attr.transparent {
                match first_unskipped(st.fields@) {
                    Some(i) => Ok(
                        Some(
                            "export type "@ + name + " = "@ + ts_name(s, st.fields@[i].ty as int)
                                + ";"@,
                        ),
                    ),
                    None => Err(GenErrorKind::NoFieldInTransparent),
                }
            } else {
                Ok(
                    Some(
                        "export type "@ + name + " = {\n"@ + ts_fields_text(s, st.fields@, true)
                            + "\n};"@,
                    ),
                )
            }
        },
        TypeKind::TupleStruct(st) => Ok(
            Some(
                "export type "@ + st.attr.name.serialize_name@ + " = "@ + ts_tuple_of(
                    ts_names(s, tuple_field_tys(st.fields@), s.len() as int),
                ) + ";"@,
            ),
        ),
        TypeKind::Enum(e) => match enum_fault(e) {
            Some(k) => Err(k),
            None => {
                let name = e.attr.name.serialize_name@;
                let vs = ts_variants(s, e.attr.tag, e.variants@);
                Ok(
                    Some(
                        "export type "@ + name + " =\n  | "@ + join(vs, "\n  | "@) + ";"@ + if has_data(
                            e.variants@,
                        ) {
                            Seq::empty()
                        } else {
                            "\nexport const "@ + shouty_snake(name) + ": "@ + name + "[] = ["@ + join(
                                vs,
                                ", "@,
                            ) + "];"@
                        },
                    ),
                )
            },
        },
        _ => Ok(None),
    }
}

/// `r` is what `ty_decl` owes for `expected`: the text, no declaration, or
/// an error naming the type.
pub open spec fn decl_outcome(
    s: Seq<TapiDyn>,
    ty: int,
    r: Result<Option<String>, GenError>,
    expected: Result<Option<Seq<char>>, GenErrorKind>,
) -> bool {
    match (r, expected) {
        (Ok(Some(x)), Ok(Some(y))) => x@ == y,
        (Ok(None), Ok(None)) => true,
        (Err(e), Err(k)) => e.kind == k && e.name@ == decl_name(s[ty].kind) && views(e.path@) == views(
            s[ty].path@,
        ),
        _ => false,
    }
}

/// The TypeScript prelude and namespace markers.
pub fn builder() -> (r: TypesBuilder)
    ensures
        r.target == Target::Ts,
        r.prelude@ == crate::builder::prelude_of(Target::Ts),
{
    TypesBuilder::new(Target::Ts)
}

/// The use-site spelling of `ty`, qualified by its module path.
pub fn full_ty_name(types: &Types, ty: DynTapi) -> (r: String)
    requires
        types.wf(),
        ty < types@.len(),
    ensures
        r@ == ts_full_name(types@, ty as int),
    decreases ty, 2nat, 0nat,
{
    let name = ty_name(types, ty);
    qualified(&types.get(ty).path, name)
}

/// The use-site spelling of `ty`.
pub fn ty_name(types: &Types, ty: DynTapi) -> (r: String)
    requires
        types.wf(),
        ty < types@.len(),
    ensures
        r@ == ts_name(types@, ty as int),
    decreases ty, 1nat, 0nat,
{
    let ghost s = types@;
    proof {
        assert(crate::types::kind_fits(s[ty as int].kind, ty as int, s.len() as int));
    }
    match &types.get(ty).kind {
        TypeKind::Struct(st) => st.attr.name.serialize_name.clone(),
        TypeKind::TupleStruct(st) => st.attr.name.serialize_name.clone(),
        TypeKind::Enum(e) => e.attr.name.serialize_name.clone(),
        TypeKind::List(t) => {
            assert(child(s[ty as int].kind, *t));
            let mut r = full_ty_name(types, *t);
            proof {
                reveal_strlit("[]");
            }
            push_str(&mut r, "[]");
            r
        },
        TypeKind::Option(t) => {
            assert(child(s[ty as int].kind, *t));
            let inner = full_ty_name(types, *t);
            let mut r = String::new();
            proof {
                reveal_strlit("(");
                reveal_strlit(" | null)");
            }
            push_str(&mut r, "(");
            push_str(&mut r, inner.as_str());
            push_str(&mut r, " | null)");
            assert(r@ =~= "("@ + inner@ + " | null)"@);
            r
        },
        TypeKind::Tuple(tys) => {
            assert forall|k: int| 0 <= k < tys@.len() implies tys@[k] < ty by {
                assert(child(s[ty as int].kind, tys@[k]));
            }
            ts_tuple(types, tys, Ghost(ty as int))
        },
        TypeKind::Record(k, v) => {
            assert(child(s[ty as int].kind, *k));
            assert(child(s[ty as int].kind, *v));
            let kn = full_ty_name(types, *k);
            let vn = full_ty_name(types, *v);
            let mut r = String::new();
            proof {
                reveal_strlit("Record<");
                reveal_strlit(", ");
                reveal_strlit(">");
            }
            push_str(&mut r, "Record<");
            push_str(&mut r, kn.as_str());
            push_str(&mut r, ", ");
            push_str(&mut r, vn.as_str());
            push_str(&mut r, ">");
            assert(r@ =~= "Record<"@ + kn@ + ", "@ + vn@ + ">"@);
            r
        },
        TypeKind::Any => {
            proof {
                reveal_strlit("any");
            }
            String::from_str("any")
        },
        TypeKind::Builtin(b) => {
            let t = match b {
                BuiltinTypeKind::Bool => "boolean",
                BuiltinTypeKind::Char | BuiltinTypeKind::String => "string",
                BuiltinTypeKind::Unit => "void",
                _ => "number",
            };
            proof {
                reveal_strlit("boolean");
                reveal_strlit("string");
                reveal_strlit("void");
                reveal_strlit("number");
            }
            String::from_str(t)
        },
    }
}

/// A positional tuple of the types `fields`, each below `bound`.
pub(crate) fn ts_tuple(types: &Types, fields: &Vec<DynTapi>, bound: Ghost<int>) -> (r: String)
    requires
        types.wf(),
        bound@ <= types@.len(),
        forall|k: int| 0 <= k < fields@.len() ==> fields@[k] < bound@,
    ensures
        r@ == ts_tuple_of(ts_names(types@, fields@, bound@)),
    decreases bound@, 0nat, 0nat,
{
    let ghost s = types@;
    let mut names: Vec<String> = Vec::new();
    let mut i: usize = 0;
    while i < fields.len()
        invariant
            types.wf(),
            s == types@,
            bound@ <= s.len(),
            forall|k: int| 0 <= k < fields@.len() ==> fields@[k] < bound@,
            0 <= i <= fields@.len(),
            views(names@) == ts_names(s, fields@.take(i as int), bound@),
        decreases fields@.len() - i,
    {
        let n = full_ty_name(types, fields[i]);
        proof {
            assert(fields@.take(i + 1).drop_last() =~= fields@.take(i as int));
        }
        names.push(n);
        assert(views(names@) =~= ts_names(s, fields@.take(i + 1), bound@));
        i = i + 1;
    }
    assert(fields@.take(fields@.len() as int) =~= fields@);
    let ghost ns = ts_names(s, fields@, bound@);
    if names.len() == 1 {
        let r = names[0].clone();
        assert(views(names@)[0] == names@[0]@);
        r
    } else {
        let mut r = String::new();
        proof {
            reveal_strlit("[");
            reveal_strlit(", ");
            reveal_strlit("]");
        }
        push_str(&mut r, "[");
        let j = join_strs(&names, ", ");
        push_str(&mut r, j.as_str());
        push_str(&mut r, "]");
        assert(r@ =~= "["@ + join(ns, ", "@) + "]"@);
        r
    }
}

/// The key under which a field is written.
pub(crate) fn field_key_text(n: &FieldName) -> (r: String)
    ensures
        r@ == field_key(*n),
{
    match n {
        FieldName::Named(name) => quoted(name.serialize_name.as_str()),
        FieldName::Index(i) => to_decimal(*i),
    }
}

/// The serialized fields of a struct, one per line or on one line.
pub(crate) fn ts_fields(types: &Types, multi_line: bool, fields: &Vec<Field>) -> (r: String)
    requires
        types.wf(),
        forall|k: int| 0 <= k < fields@.len() ==> (#[trigger] fields@[k]).ty < types@.len(),
    ensures
        r@ == ts_fields_text(types@, fields@, multi_line),
{
    let ghost s = types@;
    let mut entries: Vec<String> = Vec::new();
    let mut i: usize = 0;
    while i < fields.len()
        invariant
            types.wf(),
            s == types@,
            forall|k: int| 0 <= k < fields@.len() ==> (#[trigger] fields@[k]).ty < s.len(),
            0 <= i <= fields@.len(),
            views(entries@) == ts_field_entries(s, fields@.take(i as int), multi_line),
        decreases fields@.len() - i,
    {
        let f = &fields[i];
        proof {
            assert(fields@.take(i + 1).drop_last() =~= fields@.take(i as int));
            assert(fields@.take(i + 1).last() == fields@[i as int]);
        }
        if !f.attr.skip_serializing {
            let mut e = String::new();
            if multi_line {
                proof {
                    reveal_strlit("  ");
                }
                push_str(&mut e, "  ");
            }
            let key = field_key_text(&f.name);
            push_str(&mut e, key.as_str());
            proof {
                reveal_strlit(": ");
            }
            push_str(&mut e, ": ");
            assert(fields@[i as int].ty < s.len());
            let n = full_ty_name(types, f.ty);
            push_str(&mut e, n.as_str());
            assert(e@ =~= ts_field_entry(s, fields@[i as int], multi_line));
            entries.push(e);
        }
        assert(views(entries@) =~= ts_field_entries(s, fields@.take(i + 1), multi_line));
        i = i + 1;
    }
    assert(fields@.take(fields@.len() as int) =~= fields@);
    proof {
        reveal_strlit(",\n");
        reveal_strlit(", ");
    }
    if multi_line {
        join_strs(&entries, ",\n")
    } else {
        join_strs(&entries, ", ")
    }
}


/// The literal for one variant under the tag encoding `tag`.
pub(crate) fn ts_variant_text(types: &Types, tag: &TagType, v: &EnumVariant) -> (r: String)
    requires
        types.wf(),
        !(tag is Untagged),
        !(tag is Internal && v.kind is Tuple),
        forall|x: DynTapi| variant_child(v.kind, x) ==> x < types@.len(),
    ensures
        r@ == ts_variant(types@, *tag, *v),
{
    let ghost s = types@;
    let name = quoted(v.name.as_str());
    let mut out = String::new();
    match &v.kind {
        VariantKind::Unit => {
            match tag {
                TagType::Internal { tag } => {
                    let t = quoted(tag.as_str());
                    push_str(&mut out, "{ ");
                    push_str(&mut out, t.as_str());
                    push_str(&mut out, ": ");
                    push_str(&mut out, name.as_str());
                    push_str(&mut out, " }");
                    assert(out@ =~= "{ "@ + t@ + ": "@ + name@ + " }"@);
                },
                TagType::Adjacent { tag, content } => {
                    let t = quoted(tag.as_str());
                    push_str(&mut out, "{ ");
                    push_str(&mut out, t.as_str());
                    push_str(&mut out, ": ");
                    push_str(&mut out, name.as_str());
                    push_str(&mut out, " }");
                    assert(out@ =~= "{ "@ + t@ + ": "@ + name@ + " }"@);
                },
                _ => {
                    push_str(&mut out, name.as_str());
                    assert(out@ =~= name@);
                },
            }
        },
        VariantKind::Tuple(tys) => {
            assert forall|k: int| 0 <= k < tys@.len() implies tys@[k] < s.len() by {
                assert(variant_child(v.kind, tys@[k]));
            }
            let payload = ts_tuple(types, tys, Ghost(s.len() as int));
            match tag {
                TagType::Adjacent { tag, content } => {
                    let t = quoted(tag.as_str());
                    let c = quoted(content.as_str());
                    push_str(&mut out, "{ ");
                    push_str(&mut out, t.as_str());
                    push_str(&mut out, ": ");
                    push_str(&mut out, name.as_str());
                    push_str(&mut out, ", ");
                    push_str(&mut out, c.as_str());
                    push_str(&mut out, ": ");
                    push_str(&mut out, payload.as_str());
                    push_str(&mut out, " }");
                    assert(out@ =~= "{ "@ + t@ + ": "@ + name@ + ", "@ + c@ + ": "@ + payload@ + " }"@);
                },
                _ => {
                    push_str(&mut out, "{ ");
                    push_str(&mut out, name.as_str());
                    push_str(&mut out, ": ");
                    push_str(&mut out, payload.as_str());
                    push_str(&mut out, " }");
                    assert(out@ =~= "{ "@ + name@ + ": "@ + payload@ + " }"@);
                },
            }
        },
        VariantKind::Struct(fields) => {
            assert forall|k: int| 0 <= k < fields@.len() implies (#[trigger] fields@[k]).ty < s.len() by {
                assert(variant_child(v.kind, fields@[k].ty));
            }
            let body = ts_fields(types, false, fields);
            match tag {
                TagType::Internal { tag } => {
                    let t = quoted(tag.as_str());
                    push_str(&mut out, "{ ");
                    push_str(&mut out, t.as_str());
                    push_str(&mut out, ": ");
                    push_str(&mut out, name.as_str());
                    push_str(&mut out, ", ");
                    push_str(&mut out, body.as_str());
                    push_str(&mut out, " }");
                    assert(out@ =~= "{ "@ + t@ + ": "@ + name@ + ", "@ + body@ + " }"@);
                },
                TagType::Adjacent { tag, content } => {
                    let t = quoted(tag.as_str());
                    let c = quoted(content.as_str());
                    push_str(&mut out, "{ ");
                    push_str(&mut out, t.as_str());
                    push_str(&mut out, ": ");
                    push_str(&mut out, name.as_str());
                    push_str(&mut out, ", ");
                    push_str(&mut out, c.as_str());
                    push_str(&mut out, ": { ");
                    push_str(&mut out, body.as_str());
                    push_str(&mut out, " } }");
                    assert(out@ =~= "{ "@ + t@ + ": "@ + name@ + ", "@ + c@ + ": { "@ + body@ + " } }"@);
                },
                _ => {
                    push_str(&mut out, "{ ");
                    push_str(&mut out, name.as_str());
                    push_str(&mut out, ": { ");
                    push_str(&mut out, body.as_str());
                    push_str(&mut out, " } }");
                    assert(out@ =~= "{ "@ + name@ + ": { "@ + body@ + " } }"@);
                },
            }
        },
    }
    out
}

/// The literals of all variants of `e`, in declaration order.
pub(crate) fn ts_variant_texts(types: &Types, e: &Enum, ty: Ghost<int>) -> (r: Vec<String>)
    requires
        types.wf(),
        0 <= ty@ < types@.len(),
        types@[ty@].kind == TypeKind::Enum(*e),
        enum_fault(*e) is None,
    ensures
        views(r@) == ts_variants(types@, e.attr.tag, e.variants@),
{
    let ghost s = types@;
    proof {
        assert(crate::types::kind_fits(s[ty@].kind, ty@, s.len() as int));
    }
    let mut vs: Vec<String> = Vec::new();
    let mut i: usize = 0;
    while i < e.variants.len()
        invariant
            types.wf(),
            s == types@,
            0 <= ty@ < s.len(),
            s[ty@].kind == TypeKind::Enum(*e),
            crate::types::kind_fits(s[ty@].kind, ty@, s.len() as int),
            enum_fault(*e) is None,
            0 <= i <= e.variants@.len(),
            views(vs@) == ts_variants(s, e.attr.tag, e.variants@.take(i as int)),
        decreases e.variants@.len() - i,
    {
        let v = &e.variants[i];
        assert forall|x: DynTapi| variant_child(v.kind, x) implies x < s.len() by {
            assert(child(s[ty@].kind, x));
        }
        if let TagType::Internal { .. } = &e.attr.tag {
            if let VariantKind::Tuple(_) = &v.kind {
                assert(e.variants@[i as int].kind is Tuple);
                assert(false);
            }
        }
        let t = ts_variant_text(types, &e.attr.tag, v);
        let ghost before = vs@;
        vs.push(t);
        proof {
            let f = |v: EnumVariant| ts_variant(s, e.attr.tag, v);
            assert(e.variants@.take(i + 1) =~= e.variants@.take(i as int).push(e.variants@[i as int]));
            assert(e.variants@.take(i + 1).map_values(f) =~= e.variants@.take(i as int).map_values(f).push(
                f(e.variants@[i as int]),
            ));
            assert(views(vs@) =~= views(before).push(t@));
        }
        i = i + 1;
    }
    assert(e.variants@.take(e.variants@.len() as int) =~= e.variants@);
    vs
}

fn ts_struct_decl(types: &Types, ty: DynTapi, st: &Struct) -> (r: Result<Option<String>, GenError>)
    requires
        types.wf(),
        ty < types@.len(),
        types@[ty as int].kind == TypeKind::Struct(*st),
    ensures
        decl_outcome(types@, ty as int, r, ts_decl(types@, ty as int)),
{
    let ghost s = types@;
    proof {
        assert(crate::types::kind_fits(s[ty as int].kind, ty as int, s.len() as int));
    }
    assert forall|k: int| 0 <= k < st.fields@.len() implies (#[trigger] st.fields@[k]).ty < s.len() by {
        assert(child(s[ty as int].kind, st.fields@[k].ty));
    }
    let mut out = String::new();
    let name = &st.attr.name.serialize_name;
    if st.attr.transparent {
        match find_unskipped(&st.fields) {
            Some(i) => {
                let n = ty_name(types, st.fields[i].ty);
                push_str(&mut out, "export type ");
                push_str(&mut out, name.as_str());
                push_str(&mut out, " = ");
                push_str(&mut out, n.as_str());
                push_str(&mut out, ";");
                assert(out@ =~= "export type "@ + name@ + " = "@ + n@ + ";"@);
                Ok(Some(out))
            },
            None => Err(type_error(types, ty, GenErrorKind::NoFieldInTransparent, name)),
        }
    } else {
        let f = ts_fields(types, true, &st.fields);
        push_str(&mut out, "export type ");
        push_str(&mut out, name.as_str());
        push_str(&mut out, " = {\n");
        push_str(&mut out, f.as_str());
        push_str(&mut out, "\n};");
        assert(out@ =~= "export type "@ + name@ + " = {\n"@ + f@ + "\n};"@);
        Ok(Some(out))
    }
}

fn ts_tuple_struct_decl(types: &Types, ty: DynTapi, st: &TupleStruct) -> (r: String)
    requires
        types.wf(),
        ty < types@.len(),
        types@[ty as int].kind == TypeKind::TupleStruct(*st),
    ensures
        ts_decl(types@, ty as int) == Ok::<Option<Seq<char>>, GenErrorKind>(Some(r@)),
{
    let ghost s = types@;
    proof {
        assert(crate::types::kind_fits(s[ty as int].kind, ty as int, s.len() as int));
    }
    let tys = tuple_tys(&st.fields);
    assert forall|k: int| 0 <= k < tys@.len() implies tys@[k] < s.len() by {
        assert(tys@[k] == st.fields@[k].ty);
        assert(child(s[ty as int].kind, st.fields@[k].ty));
    }
    let t = ts_tuple(types, &tys, Ghost(s.len() as int));
    let name = &st.attr.name.serialize_name;
    let mut out = String::new();
    push_str(&mut out, "export type ");
    push_str(&mut out, name.as_str());
    push_str(&mut out, " = ");
    push_str(&mut out, t.as_str());
    push_str(&mut out, ";");
    assert(out@ =~= "export type "@ + name@ + " = "@ + t@ + ";"@);
    out
}

fn ts_enum_decl(types: &Types, ty: DynTapi, e: &Enum) -> (r: Result<Option<String>, GenError>)
    requires
        types.wf(),
        ty < types@.len(),
        types@[ty as int].kind == TypeKind::Enum(*e),
    ensures
        decl_outcome(types@, ty as int, r, ts_decl(types@, ty as int)),
{
    let name = &e.attr.name.serialize_name;
    match check_enum(e) {
        Some(k) => Err(type_error(types, ty, k, name)),
        None => {
            let vs = ts_variant_texts(types, e, Ghost(ty as int));
            let body = join_strs(&vs, "\n  | ");
            let mut out = String::new();
            push_str(&mut out, "export type ");
            push_str(&mut out, name.as_str());
            push_str(&mut out, " =\n  | ");
            push_str(&mut out, body.as_str());
            push_str(&mut out, ";");
            let ghost head = out@;
            if !enum_has_data(&e.variants) {
                let konst = to_shouty_snake(name.as_str());
                let list = join_strs(&vs, ", ");
                push_str(&mut out, "\nexport const ");
                push_str(&mut out, konst.as_str());
                push_str(&mut out, ": ");
                push_str(&mut out, name.as_str());
                push_str(&mut out, "[] = [");
                push_str(&mut out, list.as_str());
                push_str(&mut out, "];");
                assert(out@ =~= head + ("\nexport const "@ + konst@ + ": "@ + name@ + "[] = ["@ + list@
                    + "];"@));
            } else {
                assert(out@ =~= head + Seq::<char>::empty());
            }
            assert(head =~= "export type "@ + name@ + " =\n  | "@ + body@ + ";"@);
            Ok(Some(out))
        },
    }
}

/// The standalone declaration of `ty`, `None` for a structural kind, or
/// an error naming the type where its shape cannot be rendered.
pub fn ty_decl(types: &Types, ty: DynTapi) -> (r: Result<Option<String>, GenError>)
    requires
        types.wf(),
        ty < types@.len(),
    ensures
        decl_outcome(types@, ty as int, r, ts_decl(types@, ty as int)),
{
    match &types.get(ty).kind {
        TypeKind::Struct(st) => ts_struct_decl(types, ty, st),
        TypeKind::TupleStruct(st) => Ok(Some(ts_tuple_struct_decl(types, ty, st))),
        TypeKind::Enum(e) => ts_enum_decl(types, ty, e),
        _ => Ok(None),
    }
}

} // verus!
