//! The three target dialects, and what holds of all of them.
use vstd::prelude::*;

use crate::builder::{render_ns, items_of, trim_start, Target};
use crate::kind::{GenErrorKind, TypeKind};
use crate::types::{DynTapi, TapiDyn};

pub mod fs;
pub mod js;
pub mod ts;

verus! {

/// A transparent struct with exactly one serialized field is declared as
/// an alias of that field's type, in every dialect.
pub proof fn transparent_struct_is_alias(s: Seq<TapiDyn>, ty: int, i: int)
    requires
        0 <= ty < s.len(),
        s[ty].kind matches TypeKind::Struct(st) && st.attr.transparent && 0 <= i < st.fields@.len()
            && !st.fields@[i].attr.skip_serializing && forall|j: int|
            0 <= j < st.fields@.len() && j != i ==> (#[trigger] st.fields@[j]).attr.skip_serializing,
    ensures
        ({
            let st = s[ty].kind->Struct_0;
            let alias = "export type "@ + st.attr.name.serialize_name@ + " = "@ + ts::ts_name(
                s,
                st.fields@[i].ty as int,
            ) + ";"@;
            let fs_alias = "type "@ + st.attr.name.serialize_name@ + " = "@ + fs::fs_name(
                s,
                st.fields@[i].ty as int,
            );
            ts::ts_decl(s, ty) == Ok::<Option<Seq<char>>, GenErrorKind>(Some(alias))
                && js::js_decl(s, ty) == Ok::<Option<Seq<char>>, GenErrorKind>(Some(alias))
                && fs::fs_decl(s, ty) == Ok::<Option<Seq<char>>, GenErrorKind>(Some(fs_alias))
        }),
{
    let st = s[ty].kind->Struct_0;
    let f = st.fields@;
    assert(!f[i].attr.skip_serializing);
    let c = choose|c: int|
        0 <= c < f.len() && !(#[trigger] f[c]).attr.skip_serializing && forall|j: int|
            0 <= j < c ==> (#[trigger] f[j]).attr.skip_serializing;
    assert(c == i) by {
        if c != i {
            assert(f[c].attr.skip_serializing);
        }
    }
}

/// An internally tagged enum with a tuple variant is rejected by every
/// dialect rather than rendered.
pub proof fn internal_tag_tuple_rejected(s: Seq<TapiDyn>, ty: int, j: int)
    requires
        0 <= ty < s.len(),
        s[ty].kind matches TypeKind::Enum(e) && e.attr.tag is Internal && 0 <= j < e.variants@.len()
            && e.variants@[j].kind is Tuple,
    ensures
        ts::ts_decl(s, ty) == Err::<Option<Seq<char>>, GenErrorKind>(GenErrorKind::InternallyTaggedTuple),
        js::js_decl(s, ty) == Err::<Option<Seq<char>>, GenErrorKind>(GenErrorKind::InternallyTaggedTuple),
        fs::fs_decl(s, ty) == Err::<Option<Seq<char>>, GenErrorKind>(GenErrorKind::InternallyTaggedTuple),
{
    let e = s[ty].kind->Enum_0;
    assert(e.variants@[j].kind is Tuple);
}

/// A transparent struct none of whose fields is serialized is malformed:
/// every dialect rejects it.
pub proof fn empty_transparent_rejected(s: Seq<TapiDyn>, ty: int)
    requires
        0 <= ty < s.len(),
        s[ty].kind matches TypeKind::Struct(st) && st.attr.transparent && forall|j: int|
            0 <= j < st.fields@.len() ==> (#[trigger] st.fields@[j]).attr.skip_serializing,
    ensures
        ts::ts_decl(s, ty) == Err::<Option<Seq<char>>, GenErrorKind>(GenErrorKind::NoFieldInTransparent),
        js::js_decl(s, ty) == Err::<Option<Seq<char>>, GenErrorKind>(GenErrorKind::NoFieldInTransparent),
        fs::fs_decl(s, ty) == Err::<Option<Seq<char>>, GenErrorKind>(GenErrorKind::NoFieldInTransparent),
{
}

/// Rendering is deterministic: two renderings of the same list of types,
/// by builders of the same dialect and prelude, are the same text.
pub proof fn rendering_deterministic(
    t: Target,
    prelude: Seq<char>,
    s: Seq<TapiDyn>,
    tys: Seq<DynTapi>,
    first: Seq<char>,
    second: Seq<char>,
)
    requires
        first == trim_start(prelude) + render_ns(t, items_of(t, s, tys), 0),
        second == trim_start(prelude) + render_ns(t, items_of(t, s, tys), 0),
    ensures
        first == second,
{
}

} // verus!
