//! The JavaScript dialect: JSDoc type definitions, with TypeScript's
//! spelling of types.
use vstd::prelude::*;

use crate::builder::{Target, TypesBuilder};
use crate::kind::{
    check_enum, child, enum_fault, enum_has_data, find_unskipped, first_unskipped, has_data,
    tuple_tys, Enum, GenError, GenErrorKind, Struct, TypeKind,
};
use crate::targets::ts::{
    decl_outcome, ts_fields, ts_fields_text, ts_full_name, ts_name, ts_names, ts_tuple, ts_tuple_of,
    ts_variant_texts, ts_variants, tuple_field_tys,
};
use crate::targets::ts;
use crate::text::{join, join_strs, push_str, shouty_snake, to_shouty_snake};
use crate::types::{type_error, DynTapi, TapiDyn, Types};

verus! {

/// The declaration of `ty`: `None` for structural kinds, an error for a
/// shape that cannot be rendered.
pub open spec fn js_decl(s: Seq<TapiDyn>, ty: int) -> Result<Option<Seq<char>>, GenErrorKind> {
    match s[ty].kind {
        TypeKind::Struct(st) => {
            let name = st.attr.name.serialize_name@;
            if st.attr.transparent {
                match first_unskipped(st.fields@) {
                    Some(i) => Ok(
                        Some(
                            "export type "@ + name + " = "@ + ts_name(s, st.fields@[i].ty as int)
                                + ";"@,
                        ),
                    ),
                    None => Err(GenErrorKind::NoFieldInTransparent),
                }
            } else {
                Ok(
                    Some(
                        "/**\n * @typedef {{ "@ + ts_fields_text(s, st.fields@, false) + " }} "@
                            + ts_full_name(s, ty) + " */"@,
                    ),
                )
            }
        },
        TypeKind::TupleStruct(st) => Ok(
            Some(
                "export type "@ + st.attr.name.serialize_name@ + " = "@ + ts_tuple_of(
                    ts_names(s, tuple_field_tys(st.fields@), s.len() as int),
                ) + ";"@,
            ),
        ),
        TypeKind::Enum(e) => match enum_fault(e) {
            Some(k) => Err(k),
            None => {
                let full = ts_full_name(s, ty);
                let vs = ts_variants(s, e.attr.tag, e.variants@);
                Ok(
                    Some(
                        "/** @typedef {"@ + join(vs, " | "@) + "} "@ + full + " */"@ + if has_data(
                            e.variants@,
                        ) {
                            Seq::empty()
                        } else {
                            "\nexport const "@ + shouty_snake(e.attr.name.serialize_name@)
                                + " = /** @type {"@ + full + "[]} */ (["@ + join(vs, ", "@) + "]);"@
                        },
                    ),
                )
            },
        },
        _ => Ok(None),
    }
}

/// The JavaScript prelude and namespace markers.
pub fn builder() -> (r: TypesBuilder)
    ensures
        r.target == Target::Js,
        r.prelude@ == crate::builder::prelude_of(Target::Js),
{
    TypesBuilder::new(Target::Js)
}

/// The use-site spelling of `ty`, qualified by its module path.
pub fn full_ty_name(types: &Types, ty: DynTapi) -> (r: String)
    requires
        types.wf(),
        ty < types@.len(),
    ensures
        r@ == ts_full_name(types@, ty as int),
{
    ts::full_ty_name(types, ty)
}

/// The use-site spelling of `ty`.
pub fn ty_name(types: &Types, ty: DynTapi) -> (r: String)
    requires
        types.wf(),
        ty < types@.len(),
    ensures
        r@ == ts_name(types@, ty as int),
{
    ts::ty_name(types, ty)
}

fn js_struct_decl(types: &Types, ty: DynTapi, st: &Struct) -> (r: Result<Option<String>, GenError>)
    requires
        types.wf(),
        ty < types@.len(),
        types@[ty as int].kind == TypeKind::Struct(*st),
    ensures
        decl_outcome(types@, ty as int, r, js_decl(types@, ty as int)),
{
    let ghost s = types@;
    proof {
        assert(crate::types::kind_fits(s[ty as int].kind, ty as int, s.len() as int));
    }
    assert forall|k: int| 0 <= k < st.fields@.len() implies (#[trigger] st.fields@[k]).ty < s.len() by {
        assert(child(s[ty as int].kind, st.fields@[k].ty));
    }
    let mut out = String::new();
    let name = &st.attr.name.serialize_name;
    if st.attr.transparent {
        match find_unskipped(&st.fields) {
            Some(i) => {
                let n = ts::ty_name(types, st.fields[i].ty);
                push_str(&mut out, "export type ");
                push_str(&mut out, name.as_str());
                push_str(&mut out, " = ");
                push_str(&mut out, n.as_str());
                push_str(&mut out, ";");
                assert(out@ =~= "export type "@ + name@ + " = "@ + n@ + ";"@);
                Ok(Some(out))
            },
            None => Err(type_error(types, ty, GenErrorKind::NoFieldInTransparent, name)),
        }
    } else {
        let f = ts_fields(types, false, &st.fields);
        let full = ts::full_ty_name(types, ty);
        push_str(&mut out, "/**\n * @typedef {{ ");
        push_str(&mut out, f.as_str());
        push_str(&mut out, " }} ");
        push_str(&mut out, full.as_str());
        push_str(&mut out, " */");
        assert(out@ =~= "/**\n * @typedef {{ "@ + f@ + " }} "@ + full@ + " */"@);
        Ok(Some(out))
    }
}

fn js_enum_decl(types: &Types, ty: DynTapi, e: &Enum) -> (r: Result<Option<String>, GenError>)
    requires
        types.wf(),
        ty < types@.len(),
        types@[ty as int].kind == TypeKind::Enum(*e),
    ensures
        decl_outcome(types@, ty as int, r, js_decl(types@, ty as int)),
{
    let name = &e.attr.name.serialize_name;
    match check_enum(e) {
        Some(k) => Err(type_error(types, ty, k, name)),
        None => {
            let vs = ts_variant_texts(types, e, Ghost(ty as int));
            let full = ts::full_ty_name(types, ty);
            let body = join_strs(&vs, " | ");
            let mut out = String::new();
            push_str(&mut out, "/** @typedef {");
            push_str(&mut out, body.as_str());
            push_str(&mut out, "} ");
            push_str(&mut out, full.as_str());
            push_str(&mut out, " */");
            let ghost head = out@;
            if !enum_has_data(&e.variants) {
                let konst = to_shouty_snake(name.as_str());
                let list = join_strs(&vs, ", ");
                push_str(&mut out, "\nexport const ");
                push_str(&mut out, konst.as_str());
                push_str(&mut out, " = /** @type {");
                push_str(&mut out, full.as_str());
                push_str(&mut out, "[]} */ ([");
                push_str(&mut out, list.as_str());
                push_str(&mut out, "]);");
                assert(out@ =~= head + ("\nexport const "@ + konst@ + " = /** @type {"@ + full@
                    + "[]} */ (["@ + list@ + "]);"@));
            } else {
                assert(out@ =~= head + Seq::<char>::empty());
            }
            assert(head =~= "/** @typedef {"@ + body@ + "} "@ + full@ + " */"@);
            Ok(Some(out))
        },
    }
}

/// The standalone declaration of `ty`, `None` for a structural kind, or
/// an error naming the type where its shape cannot be rendered.
pub fn ty_decl(types: &Types, ty: DynTapi) -> (r: Result<Option<String>, GenError>)
    requires
        types.wf(),
        ty < types@.len(),
    ensures
        decl_outcome(types@, ty as int, r, js_decl(types@, ty as int)),
{
    match &types.get(ty).kind {
        TypeKind::Struct(st) => js_struct_decl(types, ty, st),
        TypeKind::TupleStruct(st) => {
            let ghost s = types@;
            proof {
                assert(crate::types::kind_fits(s[ty as int].kind, ty as int, s.len() as int));
            }
            let tys = tuple_tys(&st.fields);
            assert forall|k: int| 0 <= k < tys@.len() implies tys@[k] < s.len() by {
                assert(tys@[k] == st.fields@[k].ty);
                assert(child(s[ty as int].kind, st.fields@[k].ty));
            }
            let t = ts_tuple(types, &tys, Ghost(s.len() as int));
            let name = &st.attr.name.serialize_name;
            let mut out = String::new();
            push_str(&mut out, "export type ");
            push_str(&mut out, name.as_str());
            push_str(&mut out, " = ");
            push_str(&mut out, t.as_str());
            push_str(&mut out, ";");
            assert(out@ =~= "export type "@ + name@ + " = "@ + t@ + ";"@);
            Ok(Some(out))
        },
        TypeKind::Enum(e) => js_enum_decl(types, ty, e),
        _ => Ok(None),
    }
}

} // verus!
