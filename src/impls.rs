//! Schema extraction for the primitives, std containers and the outside
//! types whose wire shape is known.
use vstd::prelude::*;
use vstd::string::*;

use crate::kind::{child, is_named, BuiltinTypeKind, TypeKind};
use crate::text::{join, lemma_join_push, push_char, push_str, views};
use crate::types::{
    find_name, lemma_find_stable, lemma_find_unique, DynTapi, Tapi, TapiDyn, Types,
};

verus! {

/// Interns the primitive `b` under `name`.
pub fn intern_builtin(types: &mut Types, name: &str, b: BuiltinTypeKind) -> (r: DynTapi)
    requires
        old(types).wf(),
    ensures
        final(types).wf(),
        old(types)@.is_prefix_of(final(types)@),
        r < final(types)@.len(),
        find_name(final(types)@, name@) == Some(r as int),
        find_name(old(types)@, name@) is None ==> final(types)@[r as int].kind == TypeKind::Builtin(b)
            && final(types)@[r as int].path@.len() == 0,
        find_name(old(types)@, name@) is Some ==> final(types)@ == old(types)@,
{
    let node = TapiDyn { name: String::from_str(name), kind: TypeKind::Builtin(b), path: Vec::new() };
    let r = types.intern(node);
    proof {
        let s = types@;
        assert(s[r as int].name@ == name@);
        crate::types::lemma_find_unique(s, r as int);
    }
    r
}

/// Interns a structural kind under `name`, with an empty module path.
fn intern_structural(types: &mut Types, name: String, kind: TypeKind) -> (r: DynTapi)
    requires
        old(types).wf(),
        forall|x: DynTapi| #[trigger] child(kind, x) ==> x < old(types)@.len(),
        !crate::kind::is_named(kind),
    ensures
        final(types).wf(),
        old(types)@.is_prefix_of(final(types)@),
        r < final(types)@.len(),
        final(types)@[r as int].name@ == name@,
        find_name(old(types)@, name@) is Some ==> final(types)@ == old(types)@,
        find_name(old(types)@, name@) is None ==> final(types)@[r as int].kind == kind
            && final(types)@[r as int].path@.len() == 0,
{
    let node = TapiDyn { name, kind, path: Vec::new() };
    let ghost nm = node.name@;
    let r = types.intern(node);
    proof {
        let s = types@;
        if s.len() == old(types)@.len() {
            let i = crate::types::find_name(old(types)@, nm)->0;
            assert(0 <= i < old(types)@.len() && old(types)@[i].name@ == nm);
        }
    }
    r
}

/// `head<k1, k2, ...>`: the key of a generic type from its arguments' keys.
pub open spec fn generic_key(head: Seq<char>, keys: Seq<Seq<char>>) -> Seq<char> {
    head + "<"@ + join(keys, ", "@) + ">"@
}

/// The interning keys of the nodes `args`.
pub open spec fn arg_names(s: Seq<TapiDyn>, args: Seq<DynTapi>) -> Seq<Seq<char>> {
    args.map_values(|a: DynTapi| s[a as int].name@)
}

/// `head<args>` with the names of the handles `args`.
fn generic_name(types: &Types, head: &str, args: &Vec<DynTapi>) -> (r: String)
    requires
        forall|k: int| 0 <= k < args@.len() ==> args@[k] < types@.len(),
    ensures
        r@ == generic_key(head@, arg_names(types@, args@)),
{
    let ghost s = types@;
    let mut r = String::from_str(head);
    push_str(&mut r, "<");
    let ghost start = r@;
    let mut i: usize = 0;
    assert(arg_names(s, args@.take(0)) =~= Seq::<Seq<char>>::empty());
    while i < args.len()
        invariant
            s == types@,
            forall|k: int| 0 <= k < args@.len() ==> args@[k] < s.len(),
            0 <= i <= args@.len(),
            r@ == start + join(arg_names(s, args@.take(i as int)), ", "@),
        decreases args@.len() - i,
    {
        proof {
            assert(arg_names(s, args@.take(i + 1)) =~= arg_names(s, args@.take(i as int)).push(
                s[args@[i as int] as int].name@,
            ));
            lemma_join_push(arg_names(s, args@.take(i as int)), ", "@, s[args@[i as int] as int].name@);
        }
        let ghost before = r@;
        if i > 0 {
            push_str(&mut r, ", ");
        }
        push_str(&mut r, types.get(args[i]).name.as_str());
        assert(r@ =~= start + join(arg_names(s, args@.take(i + 1)), ", "@));
        i = i + 1;
    }
    assert(args@.take(args@.len() as int) =~= args@);
    push_str(&mut r, ">");
    assert(r@ =~= generic_key(head@, arg_names(s, args@)));
    r
}

/// Interns the structural kind `kind` of a generic type under the key made
/// from `head` and the keys of its arguments `args`.
fn intern_generic(
    types: &mut Types,
    head: &str,
    args: Vec<DynTapi>,
    kind: TypeKind,
    keys: Ghost<Seq<Seq<char>>>,
) -> (r: DynTapi)
    requires
        old(types).wf(),
        keys@.len() == args@.len(),
        forall|k: int|
            0 <= k < args@.len() ==> find_name(old(types)@, #[trigger] keys@[k]) == Some(
                args@[k] as int,
            ),
        forall|x: DynTapi| #[trigger] child(kind, x) ==> args@.contains(x),
        !is_named(kind),
    ensures
        final(types).wf(),
        old(types)@.is_prefix_of(final(types)@),
        r < final(types)@.len(),
        find_name(final(types)@, generic_key(head@, keys@)) == Some(r as int),
        find_name(old(types)@, generic_key(head@, keys@)) is Some ==> final(types)@ == old(types)@,
{
    let ghost s = types@;
    assert forall|k: int| 0 <= k < args@.len() implies (#[trigger] args@[k]) < s.len() && s[args@[k] as int].name@
        == keys@[k] by {
        assert(find_name(s, keys@[k]) == Some(args@[k] as int));
        assert(exists|i: int| 0 <= i < s.len() && (#[trigger] s[i]).name@ == keys@[k]);
    }
    assert forall|x: DynTapi| #[trigger] child(kind, x) implies x < s.len() by {
        assert(args@.contains(x));
        let k = choose|k: int| 0 <= k < args@.len() && args@[k] == x;
        assert(args@[k] < s.len());
    }
    let name = generic_name(types, head, &args);
    assert(arg_names(s, args@) =~= keys@);
    let r = intern_structural(types, name, kind);
    proof {
        lemma_find_unique(types@, r as int);
    }
    r
}

impl Tapi for () {
    open spec fn key() -> Seq<char> {
        "()"@
    }

    open spec fn present(s: Seq<TapiDyn>) -> bool {
        find_name(s, Self::key()) is Some
    }

    proof fn lemma_present_stable(s: Seq<TapiDyn>, s2: Seq<TapiDyn>) {
        lemma_find_stable(s, s2, Self::key());
    }

    fn boxed(types: &mut Types) -> (r: DynTapi) {
        intern_builtin(types, "()", BuiltinTypeKind::Unit)
    }
}

impl Tapi for String {
    open spec fn key() -> Seq<char> {
        "alloc::string::String"@
    }

    open spec fn present(s: Seq<TapiDyn>) -> bool {
        find_name(s, Self::key()) is Some
    }

    proof fn lemma_present_stable(s: Seq<TapiDyn>, s2: Seq<TapiDyn>) {
        lemma_find_stable(s, s2, Self::key());
    }

    fn boxed(types: &mut Types) -> (r: DynTapi) {
        intern_builtin(types, "alloc::string::String", BuiltinTypeKind::String)
    }
}

impl Tapi for bool {
    open spec fn key() -> Seq<char> {
        "bool"@
    }

    open spec fn present(s: Seq<TapiDyn>) -> bool {
        find_name(s, Self::key()) is Some
    }

    proof fn lemma_present_stable(s: Seq<TapiDyn>, s2: Seq<TapiDyn>) {
        lemma_find_stable(s, s2, Self::key());
    }

    fn boxed(types: &mut Types) -> (r: DynTapi) {
        intern_builtin(types, "bool", BuiltinTypeKind::Bool)
    }
}

impl Tapi for char {
    open spec fn key() -> Seq<char> {
        "char"@
    }

    open spec fn present(s: Seq<TapiDyn>) -> bool {
        find_name(s, Self::key()) is Some
    }

    proof fn lemma_present_stable(s: Seq<TapiDyn>, s2: Seq<TapiDyn>) {
        lemma_find_stable(s, s2, Self::key());
    }

    fn boxed(types: &mut Types) -> (r: DynTapi) {
        intern_builtin(types, "char", BuiltinTypeKind::Char)
    }
}

impl Tapi for i8 {
    open spec fn key() -> Seq<char> {
        "i8"@
    }

    open spec fn present(s: Seq<TapiDyn>) -> bool {
        find_name(s, Self::key()) is Some
    }

    proof fn lemma_present_stable(s: Seq<TapiDyn>, s2: Seq<TapiDyn>) {
        lemma_find_stable(s, s2, Self::key());
    }

    fn boxed(types: &mut Types) -> (r: DynTapi) {
        intern_builtin(types, "i8", BuiltinTypeKind::I8)
    }
}

impl Tapi for i16 {
    open spec fn key() -> Seq<char> {
        "i16"@
    }

    open spec fn present(s: Seq<TapiDyn>) -> bool {
        find_name(s, Self::key()) is Some
    }

    proof fn lemma_present_stable(s: Seq<TapiDyn>, s2: Seq<TapiDyn>) {
        lemma_find_stable(s, s2, Self::key());
    }

    fn boxed(types: &mut Types) -> (r: DynTapi) {
        intern_builtin(types, "i16", BuiltinTypeKind::I16)
    }
}

impl Tapi for i32 {
    open spec fn key() -> Seq<char> {
        "i32"@
    }

    open spec fn present(s: Seq<TapiDyn>) -> bool {
        find_name(s, Self::key()) is Some
    }

    proof fn lemma_present_stable(s: Seq<TapiDyn>, s2: Seq<TapiDyn>) {
        lemma_find_stable(s, s2, Self::key());
    }

    fn boxed(types: &mut Types) -> (r: DynTapi) {
        intern_builtin(types, "i32", BuiltinTypeKind::I32)
    }
}

impl Tapi for i64 {
    open spec fn key() -> Seq<char> {
        "i64"@
    }

    open spec fn present(s: Seq<TapiDyn>) -> bool {
        find_name(s, Self::key()) is Some
    }

    proof fn lemma_present_stable(s: Seq<TapiDyn>, s2: Seq<TapiDyn>) {
        lemma_find_stable(s, s2, Self::key());
    }

    fn boxed(types: &mut Types) -> (r: DynTapi) {
        intern_builtin(types, "i64", BuiltinTypeKind::I64)
    }
}

impl Tapi for i128 {
    open spec fn key() -> Seq<char> {
        "i128"@
    }

    open spec fn present(s: Seq<TapiDyn>) -> bool {
        find_name(s, Self::key()) is Some
    }

    proof fn lemma_present_stable(s: Seq<TapiDyn>, s2: Seq<TapiDyn>) {
        lemma_find_stable(s, s2, Self::key());
    }

    fn boxed(types: &mut Types) -> (r: DynTapi) {
        intern_builtin(types, "i128", BuiltinTypeKind::I128)
    }
}

impl Tapi for isize {
    open spec fn key() -> Seq<char> {
        "isize"@
    }

    open spec fn present(s: Seq<TapiDyn>) -> bool {
        find_name(s, Self::key()) is Some
    }

    proof fn lemma_present_stable(s: Seq<TapiDyn>, s2: Seq<TapiDyn>) {
        lemma_find_stable(s, s2, Self::key());
    }

    fn boxed(types: &mut Types) -> (r: DynTapi) {
        intern_builtin(types, "isize", BuiltinTypeKind::Isize)
    }
}

impl Tapi for u8 {
    open spec fn key() -> Seq<char> {
        "u8"@
    }

    open spec fn present(s: Seq<TapiDyn>) -> bool {
        find_name(s, Self::key()) is Some
    }

    proof fn lemma_present_stable(s: Seq<TapiDyn>, s2: Seq<TapiDyn>) {
        lemma_find_stable(s, s2, Self::key());
    }

    fn boxed(types: &mut Types) -> (r: DynTapi) {
        intern_builtin(types, "u8", BuiltinTypeKind::U8)
    }
}

impl Tapi for u16 {
    open spec fn key() -> Seq<char> {
        "u16"@
    }

    open spec fn present(s: Seq<TapiDyn>) -> bool {
        find_name(s, Self::key()) is Some
    }

    proof fn lemma_present_stable(s: Seq<TapiDyn>, s2: Seq<TapiDyn>) {
        lemma_find_stable(s, s2, Self::key());
    }

    fn boxed(types: &mut Types) -> (r: DynTapi) {
        intern_builtin(types, "u16", BuiltinTypeKind::U16)
    }
}

impl Tapi for u32 {
    open spec fn key() -> Seq<char> {
        "u32"@
    }

    open spec fn present(s: Seq<TapiDyn>) -> bool {
        find_name(s, Self::key()) is Some
    }

    proof fn lemma_present_stable(s: Seq<TapiDyn>, s2: Seq<TapiDyn>) {
        lemma_find_stable(s, s2, Self::key());
    }

    fn boxed(types: &mut Types) -> (r: DynTapi) {
        intern_builtin(types, "u32", BuiltinTypeKind::U32)
    }
}

impl Tapi for u64 {
    open spec fn key() -> Seq<char> {
        "u64"@
    }

    open spec fn present(s: Seq<TapiDyn>) -> bool {
        find_name(s, Self::key()) is Some
    }

    proof fn lemma_present_stable(s: Seq<TapiDyn>, s2: Seq<TapiDyn>) {
        lemma_find_stable(s, s2, Self::key());
    }

    fn boxed(types: &mut Types) -> (r: DynTapi) {
        intern_builtin(types, "u64", BuiltinTypeKind::U64)
    }
}

impl Tapi for u128 {
    open spec fn key() -> Seq<char> {
        "u128"@
    }

    open spec fn present(s: Seq<TapiDyn>) -> bool {
        find_name(s, Self::key()) is Some
    }

    proof fn lemma_present_stable(s: Seq<TapiDyn>, s2: Seq<TapiDyn>) {
        lemma_find_stable(s, s2, Self::key());
    }

    fn boxed(types: &mut Types) -> (r: DynTapi) {
        intern_builtin(types, "u128", BuiltinTypeKind::U128)
    }
}

impl Tapi for usize {
    open spec fn key() -> Seq<char> {
        "usize"@
    }

    open spec fn present(s: Seq<TapiDyn>) -> bool {
        find_name(s, Self::key()) is Some
    }

    proof fn lemma_present_stable(s: Seq<TapiDyn>, s2: Seq<TapiDyn>) {
        lemma_find_stable(s, s2, Self::key());
    }

    fn boxed(types: &mut Types) -> (r: DynTapi) {
        intern_builtin(types, "usize", BuiltinTypeKind::Usize)
    }
}

impl Tapi for chrono::NaiveDate {
    open spec fn key() -> Seq<char> {
        "chrono::naive::date::NaiveDate"@
    }

    open spec fn present(s: Seq<TapiDyn>) -> bool {
        find_name(s, Self::key()) is Some
    }

    proof fn lemma_present_stable(s: Seq<TapiDyn>, s2: Seq<TapiDyn>) {
        lemma_find_stable(s, s2, Self::key());
    }

    fn boxed(types: &mut Types) -> (r: DynTapi) {
        intern_builtin(types, "chrono::naive::date::NaiveDate", BuiltinTypeKind::String)
    }
}

impl Tapi for chrono::NaiveTime {
    open spec fn key() -> Seq<char> {
        "chrono::naive::time::NaiveTime"@
    }

    open spec fn present(s: Seq<TapiDyn>) -> bool {
        find_name(s, Self::key()) is Some
    }

    proof fn lemma_present_stable(s: Seq<TapiDyn>, s2: Seq<TapiDyn>) {
        lemma_find_stable(s, s2, Self::key());
    }

    fn boxed(types: &mut Types) -> (r: DynTapi) {
        intern_builtin(types, "chrono::naive::time::NaiveTime", BuiltinTypeKind::String)
    }
}

impl Tapi for chrono::NaiveDateTime {
    open spec fn key() -> Seq<char> {
        "chrono::naive::datetime::NaiveDateTime"@
    }

    open spec fn present(s: Seq<TapiDyn>) -> bool {
        find_name(s, Self::key()) is Some
    }

    proof fn lemma_present_stable(s: Seq<TapiDyn>, s2: Seq<TapiDyn>) {
        lemma_find_stable(s, s2, Self::key());
    }

    fn boxed(types: &mut Types) -> (r: DynTapi) {
        intern_builtin(types, "chrono::naive::datetime::NaiveDateTime", BuiltinTypeKind::String)
    }
}

impl Tapi for toml::value::Date {
    open spec fn key() -> Seq<char> {
        "toml_datetime::datetime::Date"@
    }

    open spec fn present(s: Seq<TapiDyn>) -> bool {
        find_name(s, Self::key()) is Some
    }

    proof fn lemma_present_stable(s: Seq<TapiDyn>, s2: Seq<TapiDyn>) {
        lemma_find_stable(s, s2, Self::key());
    }

    fn boxed(types: &mut Types) -> (r: DynTapi) {
        intern_builtin(types, "toml_datetime::datetime::Date", BuiltinTypeKind::String)
    }
}

impl Tapi for toml::value::Datetime {
    open spec fn key() -> Seq<char> {
        "toml_datetime::datetime::Datetime"@
    }

    open spec fn present(s: Seq<TapiDyn>) -> bool {
        find_name(s, Self::key()) is Some
    }

    proof fn lemma_present_stable(s: Seq<TapiDyn>, s2: Seq<TapiDyn>) {
        lemma_find_stable(s, s2, Self::key());
    }

    fn boxed(types: &mut Types) -> (r: DynTapi) {
        intern_builtin(types, "toml_datetime::datetime::Datetime", BuiltinTypeKind::String)
    }
}

impl Tapi for toml::value::Time {
    open spec fn key() -> Seq<char> {
        "toml_datetime::datetime::Time"@
    }

    open spec fn present(s: Seq<TapiDyn>) -> bool {
        find_name(s, Self::key()) is Some
    }

    proof fn lemma_present_stable(s: Seq<TapiDyn>, s2: Seq<TapiDyn>) {
        lemma_find_stable(s, s2, Self::key());
    }

    fn boxed(types: &mut Types) -> (r: DynTapi) {
        intern_builtin(types, "toml_datetime::datetime::Time", BuiltinTypeKind::String)
    }
}

impl Tapi for smol_str::SmolStr {
    open spec fn key() -> Seq<char> {
        "smol_str::SmolStr"@
    }

    open spec fn present(s: Seq<TapiDyn>) -> bool {
        find_name(s, Self::key()) is Some
    }

    proof fn lemma_present_stable(s: Seq<TapiDyn>, s2: Seq<TapiDyn>) {
        lemma_find_stable(s, s2, Self::key());
    }

    fn boxed(types: &mut Types) -> (r: DynTapi) {
        intern_builtin(types, "smol_str::SmolStr", BuiltinTypeKind::String)
    }
}

impl Tapi for serde_json::Value {
    open spec fn key() -> Seq<char> {
        "serde_json::value::Value"@
    }

    open spec fn present(s: Seq<TapiDyn>) -> bool {
        find_name(s, Self::key()) is Some
    }

    proof fn lemma_present_stable(s: Seq<TapiDyn>, s2: Seq<TapiDyn>) {
        lemma_find_stable(s, s2, Self::key());
    }

    fn boxed(types: &mut Types) -> (r: DynTapi) {
        let r = intern_structural(types, String::from_str("serde_json::value::Value"), TypeKind::Any);
        proof {
            lemma_find_unique(types@, r as int);
        }
        r
    }
}

impl<T: Tapi> Tapi for Vec<T> {
    open spec fn key() -> Seq<char> {
        generic_key("alloc::vec::Vec"@, seq![T::key()])
    }

    open spec fn present(s: Seq<TapiDyn>) -> bool {
        T::present(s) && find_name(s, Self::key()) is Some
    }

    proof fn lemma_present_stable(s: Seq<TapiDyn>, s2: Seq<TapiDyn>) {
        T::lemma_present_stable(s, s2);
        lemma_find_stable(s, s2, Self::key());
    }

    fn boxed(types: &mut Types) -> (r: DynTapi) {
        let t = T::boxed(types);
        let ghost s1 = types@;
        let args = vec![t];
        assert(args@ =~= seq![t]);
        let ghost keys = seq![T::key()];
        let r = intern_generic(types, "alloc::vec::Vec", args, TypeKind::List(t), Ghost(keys));
        proof {
            T::lemma_present_stable(s1, types@);
        }
        r
    }
}

impl<T: Tapi> Tapi for std::collections::BTreeSet<T> {
    open spec fn key() -> Seq<char> {
        generic_key("alloc::collections::btree::set::BTreeSet"@, seq![T::key()])
    }

    open spec fn present(s: Seq<TapiDyn>) -> bool {
        T::present(s) && find_name(s, Self::key()) is Some
    }

    proof fn lemma_present_stable(s: Seq<TapiDyn>, s2: Seq<TapiDyn>) {
        T::lemma_present_stable(s, s2);
        lemma_find_stable(s, s2, Self::key());
    }

    fn boxed(types: &mut Types) -> (r: DynTapi) {
        let t = T::boxed(types);
        let ghost s1 = types@;
        let args = vec![t];
        assert(args@ =~= seq![t]);
        let ghost keys = seq![T::key()];
        let r = intern_generic(types, "alloc::collections::btree::set::BTreeSet", args, TypeKind::List(t), Ghost(keys));
        proof {
            T::lemma_present_stable(s1, types@);
        }
        r
    }
}

impl<T: Tapi> Tapi for std::collections::HashSet<T> {
    open spec fn key() -> Seq<char> {
        generic_key("std::collections::hash::set::HashSet"@, seq![T::key()])
    }

    open spec fn present(s: Seq<TapiDyn>) -> bool {
        T::present(s) && find_name(s, Self::key()) is Some
    }

    proof fn lemma_present_stable(s: Seq<TapiDyn>, s2: Seq<TapiDyn>) {
        T::lemma_present_stable(s, s2);
        lemma_find_stable(s, s2, Self::key());
    }

    fn boxed(types: &mut Types) -> (r: DynTapi) {
        let t = T::boxed(types);
        let ghost s1 = types@;
        let args = vec![t];
        assert(args@ =~= seq![t]);
        let ghost keys = seq![T::key()];
        let r = intern_generic(types, "std::collections::hash::set::HashSet", args, TypeKind::List(t), Ghost(keys));
        proof {
            T::lemma_present_stable(s1, types@);
        }
        r
    }
}

impl<T: Tapi> Tapi for indexmap::IndexSet<T> {
    open spec fn key() -> Seq<char> {
        generic_key("indexmap::set::IndexSet"@, seq![T::key()])
    }

    open spec fn present(s: Seq<TapiDyn>) -> bool {
        T::present(s) && find_name(s, Self::key()) is Some
    }

    proof fn lemma_present_stable(s: Seq<TapiDyn>, s2: Seq<TapiDyn>) {
        T::lemma_present_stable(s, s2);
        lemma_find_stable(s, s2, Self::key());
    }

    fn boxed(types: &mut Types) -> (r: DynTapi) {
        let t = T::boxed(types);
        let ghost s1 = types@;
        let args = vec![t];
        assert(args@ =~= seq![t]);
        let ghost keys = seq![T::key()];
        let r = intern_generic(types, "indexmap::set::IndexSet", args, TypeKind::List(t), Ghost(keys));
        proof {
            T::lemma_present_stable(s1, types@);
        }
        r
    }
}

impl<T: Tapi> Tapi for Option<T> {
    open spec fn key() -> Seq<char> {
        generic_key("core::option::Option"@, seq![T::key()])
    }

    open spec fn present(s: Seq<TapiDyn>) -> bool {
        T::present(s) && find_name(s, Self::key()) is Some
    }

    proof fn lemma_present_stable(s: Seq<TapiDyn>, s2: Seq<TapiDyn>) {
        T::lemma_present_stable(s, s2);
        lemma_find_stable(s, s2, Self::key());
    }

    fn boxed(types: &mut Types) -> (r: DynTapi) {
        let t = T::boxed(types);
        let ghost s1 = types@;
        let args = vec![t];
        assert(args@ =~= seq![t]);
        let ghost keys = seq![T::key()];
        let r = intern_generic(types, "core::option::Option", args, TypeKind::Option(t), Ghost(keys));
        proof {
            T::lemma_present_stable(s1, types@);
        }
        r
    }
}

impl<T: Tapi, const N: usize> Tapi for [T; N] {
    open spec fn key() -> Seq<char> {
        generic_key("array"@, seq![T::key()])
    }

    open spec fn present(s: Seq<TapiDyn>) -> bool {
        T::present(s) && find_name(s, Self::key()) is Some
    }

    proof fn lemma_present_stable(s: Seq<TapiDyn>, s2: Seq<TapiDyn>) {
        T::lemma_present_stable(s, s2);
        lemma_find_stable(s, s2, Self::key());
    }

    fn boxed(types: &mut Types) -> (r: DynTapi) {
        let t = T::boxed(types);
        let ghost s1 = types@;
        let args = vec![t];
        assert(args@ =~= seq![t]);
        let ghost keys = seq![T::key()];
        let r = intern_generic(types, "array", args, TypeKind::List(t), Ghost(keys));
        proof {
            T::lemma_present_stable(s1, types@);
        }
        r
    }
}

impl<T: Tapi> Tapi for Box<T> {
    open spec fn key() -> Seq<char> {
        T::key()
    }

    open spec fn present(s: Seq<TapiDyn>) -> bool {
        T::present(s)
    }

    proof fn lemma_present_stable(s: Seq<TapiDyn>, s2: Seq<TapiDyn>) {
        T::lemma_present_stable(s, s2);
    }

    fn boxed(types: &mut Types) -> (r: DynTapi) {
        T::boxed(types)
    }
}

impl<T: Tapi> Tapi for std::rc::Rc<T> {
    open spec fn key() -> Seq<char> {
        T::key()
    }

    open spec fn present(s: Seq<TapiDyn>) -> bool {
        T::present(s)
    }

    proof fn lemma_present_stable(s: Seq<TapiDyn>, s2: Seq<TapiDyn>) {
        T::lemma_present_stable(s, s2);
    }

    fn boxed(types: &mut Types) -> (r: DynTapi) {
        T::boxed(types)
    }
}

impl<T: Tapi> Tapi for std::sync::Arc<T> {
    open spec fn key() -> Seq<char> {
        T::key()
    }

    open spec fn present(s: Seq<TapiDyn>) -> bool {
        T::present(s)
    }

    proof fn lemma_present_stable(s: Seq<TapiDyn>, s2: Seq<TapiDyn>) {
        T::lemma_present_stable(s, s2);
    }

    fn boxed(types: &mut Types) -> (r: DynTapi) {
        T::boxed(types)
    }
}

impl<K: Tapi, V: Tapi> Tapi for std::collections::HashMap<K, V> {
    open spec fn key() -> Seq<char> {
        generic_key("std::collections::hash::map::HashMap"@, seq![K::key(), V::key()])
    }

    open spec fn present(s: Seq<TapiDyn>) -> bool {
        K::present(s) && V::present(s) && find_name(s, Self::key()) is Some
    }

    proof fn lemma_present_stable(s: Seq<TapiDyn>, s2: Seq<TapiDyn>) {
        K::lemma_present_stable(s, s2);
        V::lemma_present_stable(s, s2);
        lemma_find_stable(s, s2, Self::key());
    }

    fn boxed(types: &mut Types) -> (r: DynTapi) {
        let k_ = K::boxed(types);
        let ghost s0 = types@;
        let v_ = V::boxed(types);
        let ghost s1 = types@;
        proof {
            lemma_find_stable(s0, s1, K::key());
        }
        let args = vec![k_, v_];
        assert(args@ =~= seq![k_, v_]);
        let ghost keys = seq![K::key(), V::key()];
        let r = intern_generic(types, "std::collections::hash::map::HashMap", args, TypeKind::Record(k_, v_), Ghost(keys));
        proof {
            K::lemma_present_stable(s0, types@);
            V::lemma_present_stable(s1, types@);
        }
        r
    }
}

impl<K: Tapi, V: Tapi> Tapi for std::collections::BTreeMap<K, V> {
    open spec fn key() -> Seq<char> {
        generic_key("alloc::collections::btree::map::BTreeMap"@, seq![K::key(), V::key()])
    }

    open spec fn present(s: Seq<TapiDyn>) -> bool {
        K::present(s) && V::present(s) && find_name(s, Self::key()) is Some
    }

    proof fn lemma_present_stable(s: Seq<TapiDyn>, s2: Seq<TapiDyn>) {
        K::lemma_present_stable(s, s2);
        V::lemma_present_stable(s, s2);
        lemma_find_stable(s, s2, Self::key());
    }

    fn boxed(types: &mut Types) -> (r: DynTapi) {
        let k_ = K::boxed(types);
        let ghost s0 = types@;
        let v_ = V::boxed(types);
        let ghost s1 = types@;
        proof {
            lemma_find_stable(s0, s1, K::key());
        }
        let args = vec![k_, v_];
        assert(args@ =~= seq![k_, v_]);
        let ghost keys = seq![K::key(), V::key()];
        let r = intern_generic(types, "alloc::collections::btree::map::BTreeMap", args, TypeKind::Record(k_, v_), Ghost(keys));
        proof {
            K::lemma_present_stable(s0, types@);
            V::lemma_present_stable(s1, types@);
        }
        r
    }
}

impl<K: Tapi, V: Tapi> Tapi for indexmap::IndexMap<K, V> {
    open spec fn key() -> Seq<char> {
        generic_key("indexmap::map::IndexMap"@, seq![K::key(), V::key()])
    }

    open spec fn present(s: Seq<TapiDyn>) -> bool {
        K::present(s) && V::present(s) && find_name(s, Self::key()) is Some
    }

    proof fn lemma_present_stable(s: Seq<TapiDyn>, s2: Seq<TapiDyn>) {
        K::lemma_present_stable(s, s2);
        V::lemma_present_stable(s, s2);
        lemma_find_stable(s, s2, Self::key());
    }

    fn boxed(types: &mut Types) -> (r: DynTapi) {
        let k_ = K::boxed(types);
        let ghost s0 = types@;
        let v_ = V::boxed(types);
        let ghost s1 = types@;
        proof {
            lemma_find_stable(s0, s1, K::key());
        }
        let args = vec![k_, v_];
        assert(args@ =~= seq![k_, v_]);
        let ghost keys = seq![K::key(), V::key()];
        let r = intern_generic(types, "indexmap::map::IndexMap", args, TypeKind::Record(k_, v_), Ghost(keys));
        proof {
            K::lemma_present_stable(s0, types@);
            V::lemma_present_stable(s1, types@);
        }
        r
    }
}

impl<A: Tapi, B: Tapi> Tapi for (A, B) {
    open spec fn key() -> Seq<char> {
        generic_key(""@, seq![A::key(), B::key()])
    }

    open spec fn present(s: Seq<TapiDyn>) -> bool {
        A::present(s) && B::present(s) && find_name(s, Self::key()) is Some
    }

    proof fn lemma_present_stable(s: Seq<TapiDyn>, s2: Seq<TapiDyn>) {
        A::lemma_present_stable(s, s2);
        B::lemma_present_stable(s, s2);
        lemma_find_stable(s, s2, Self::key());
    }

    fn boxed(types: &mut Types) -> (r: DynTapi) {
        let a_ = A::boxed(types);
        let ghost s0 = types@;
        let b_ = B::boxed(types);
        let ghost s1 = types@;
        proof {
            lemma_find_stable(s0, s1, A::key());
        }
        let args = vec![a_, b_];
        assert(args@ =~= seq![a_, b_]);
        let ghost keys = seq![A::key(), B::key()];
        let r = intern_generic(types, "", args, TypeKind::Tuple(vec![a_, b_]), Ghost(keys));
        proof {
            A::lemma_present_stable(s0, types@);
            B::lemma_present_stable(s1, types@);
        }
        r
    }
}

impl<A: Tapi, B: Tapi, C: Tapi> Tapi for (A, B, C) {
    open spec fn key() -> Seq<char> {
        generic_key(""@, seq![A::key(), B::key(), C::key()])
    }

    open spec fn present(s: Seq<TapiDyn>) -> bool {
        A::present(s) && B::present(s) && C::present(s) && find_name(s, Self::key()) is Some
    }

    proof fn lemma_present_stable(s: Seq<TapiDyn>, s2: Seq<TapiDyn>) {
        A::lemma_present_stable(s, s2);
        B::lemma_present_stable(s, s2);
        C::lemma_present_stable(s, s2);
        lemma_find_stable(s, s2, Self::key());
    }

    fn boxed(types: &mut Types) -> (r: DynTapi) {
        let a_ = A::boxed(types);
        let ghost s0 = types@;
        let b_ = B::boxed(types);
        let ghost s1 = types@;
        let c_ = C::boxed(types);
        let ghost s2 = types@;
        proof {
            lemma_find_stable(s0, s2, A::key());
            lemma_find_stable(s1, s2, B::key());
        }
        let args = vec![a_, b_, c_];
        assert(args@ =~= seq![a_, b_, c_]);
        let ghost keys = seq![A::key(), B::key(), C::key()];
        let r = intern_generic(types, "", args, TypeKind::Tuple(vec![a_, b_, c_]), Ghost(keys));
        proof {
            A::lemma_present_stable(s0, types@);
            B::lemma_present_stable(s1, types@);
            C::lemma_present_stable(s2, types@);
        }
        r
    }
}

impl<A: Tapi, B: Tapi, C: Tapi, D: Tapi> Tapi for (A, B, C, D) {
    open spec fn key() -> Seq<char> {
        generic_key(""@, seq![A::key(), B::key(), C::key(), D::key()])
    }

    open spec fn present(s: Seq<TapiDyn>) -> bool {
        A::present(s) && B::present(s) && C::present(s) && D::present(s) && find_name(s, Self::key()) is Some
    }

    proof fn lemma_present_stable(s: Seq<TapiDyn>, s2: Seq<TapiDyn>) {
        A::lemma_present_stable(s, s2);
        B::lemma_present_stable(s, s2);
        C::lemma_present_stable(s, s2);
        D::lemma_present_stable(s, s2);
        lemma_find_stable(s, s2, Self::key());
    }

    fn boxed(types: &mut Types) -> (r: DynTapi) {
        let a_ = A::boxed(types);
        let ghost s0 = types@;
        let b_ = B::boxed(types);
        let ghost s1 = types@;
        let c_ = C::boxed(types);
        let ghost s2 = types@;
        let d_ = D::boxed(types);
        let ghost s3 = types@;
        proof {
            lemma_find_stable(s0, s3, A::key());
            lemma_find_stable(s1, s3, B::key());
            lemma_find_stable(s2, s3, C::key());
        }
        let args = vec![a_, b_, c_, d_];
        assert(args@ =~= seq![a_, b_, c_, d_]);
        let ghost keys = seq![A::key(), B::key(), C::key(), D::key()];
        let r = intern_generic(types, "", args, TypeKind::Tuple(vec![a_, b_, c_, d_]), Ghost(keys));
        proof {
            A::lemma_present_stable(s0, types@);
            B::lemma_present_stable(s1, types@);
            C::lemma_present_stable(s2, types@);
            D::lemma_present_stable(s3, types@);
        }
        r
    }
}

impl<T: Tapi> Tapi for std::cell::Cell<T> {
    open spec fn key() -> Seq<char> {
        T::key()
    }

    open spec fn present(s: Seq<TapiDyn>) -> bool {
        T::present(s)
    }

    proof fn lemma_present_stable(s: Seq<TapiDyn>, s2: Seq<TapiDyn>) {
        T::lemma_present_stable(s, s2);
    }

    fn boxed(types: &mut Types) -> (r: DynTapi) {
        T::boxed(types)
    }
}

impl<T: Tapi> Tapi for std::cell::RefCell<T> {
    open spec fn key() -> Seq<char> {
        T::key()
    }

    open spec fn present(s: Seq<TapiDyn>) -> bool {
        T::present(s)
    }

    proof fn lemma_present_stable(s: Seq<TapiDyn>, s2: Seq<TapiDyn>) {
        T::lemma_present_stable(s, s2);
    }

    fn boxed(types: &mut Types) -> (r: DynTapi) {
        T::boxed(types)
    }
}

/// Interns a list of `elem` under `name`.
pub fn intern_list(types: &mut Types, name: &str, elem: DynTapi) -> (r: DynTapi)
    requires
        old(types).wf(),
        elem < old(types)@.len(),
    ensures
        final(types).wf(),
        old(types)@.is_prefix_of(final(types)@),
        r < final(types)@.len(),
        find_name(final(types)@, name@) == Some(r as int),
        find_name(old(types)@, name@) is Some ==> final(types)@ == old(types)@,
        find_name(old(types)@, name@) is None ==> final(types)@[r as int].kind == TypeKind::List(elem)
            && final(types)@[r as int].path@.len() == 0,
{
    let r = intern_structural(types, String::from_str(name), TypeKind::List(elem));
    proof {
        let s = types@;
        assert(s[r as int].name@ == name@);
        crate::types::lemma_find_unique(s, r as int);
    }
    r
}


/// A value standing for the type `T`, through which its node is interned.
pub struct TypedWrap<T>(std::marker::PhantomData<T>);

impl<T: Tapi> TypedWrap<T> {
    pub fn new() -> Self {
        TypedWrap(std::marker::PhantomData)
    }

    /// The node of `T`: the one `T::boxed` gives.
    pub fn boxed(&self, types: &mut Types) -> (r: DynTapi)
        requires
            old(types).wf(),
        ensures
            final(types).wf(),
            old(types)@.is_prefix_of(final(types)@),
            r < final(types)@.len(),
            find_name(final(types)@, T::key()) == Some(r as int),
            T::present(final(types)@),
            T::present(old(types)@) ==> final(types)@ == old(types)@,
    {
        T::boxed(types)
    }
}

/// `p` split at each `::`, scanning from the left as `str::split` does.
pub open spec fn split_colons(p: Seq<char>) -> Seq<Seq<char>>
    decreases p.len(),
{
    if p.len() == 0 {
        seq![Seq::empty()]
    } else if p.len() >= 2 && p[0] == ':' && p[1] == ':' {
        seq![Seq::<char>::empty()] + split_colons(p.skip(2))
    } else {
        let r = split_colons(p.drop_first());
        r.update(0, seq![p[0]] + r[0])
    }
}

pub proof fn lemma_split_colons_nonempty(p: Seq<char>)
    ensures
        split_colons(p).len() > 0,
    decreases p.len(),
{
    if p.len() >= 2 && p[0] == ':' && p[1] == ':' {
        lemma_split_colons_nonempty(p.skip(2));
    } else if p.len() > 0 {
        lemma_split_colons_nonempty(p.drop_first());
    }
}

/// `cur` put in front of the first segment of `r`.
pub open spec fn prepend_first(cur: Seq<char>, r: Seq<Seq<char>>) -> Seq<Seq<char>> {
    r.update(0, cur + r[0])
}

/// `p` up to its first `<`: a type's name without its generic arguments.
pub open spec fn before_generics(p: Seq<char>) -> Seq<char>
    decreases p.len(),
{
    if p.len() == 0 || p[0] == '<' {
        Seq::empty()
    } else {
        seq![p[0]] + before_generics(p.drop_first())
    }
}

/// The module path of a type from its full path name: the segments before
/// the last, with generic arguments left out.
pub open spec fn namespace_of(full_name: Seq<char>) -> Seq<Seq<char>> {
    split_colons(before_generics(full_name)).drop_last()
}

/// The module path of the type named `full_name`.
pub fn namespace_path(full_name: &str) -> (r: Vec<String>)
    ensures
        views(r@) == namespace_of(full_name@),
{
    let n = full_name.unicode_len();
    let mut end: usize = 0;
    assert(full_name@.take(0) =~= Seq::<char>::empty());
    assert(full_name@.skip(0) =~= full_name@);
    while end < n && full_name.get_char(end) != '<'
        invariant
            n == full_name@.len(),
            0 <= end <= n,
            before_generics(full_name@) == full_name@.take(end as int) + before_generics(
                full_name@.skip(end as int),
            ),
        decreases n - end,
    {
        proof {
            let rest = full_name@.skip(end as int);
            assert(rest.drop_first() =~= full_name@.skip(end + 1));
            assert(full_name@.take(end + 1) =~= full_name@.take(end as int) + seq![rest[0]]);
        }
        end = end + 1;
    }
    proof {
        let rest = full_name@.skip(end as int);
        assert(before_generics(rest) =~= Seq::<char>::empty());
        assert(before_generics(full_name@) =~= full_name@.take(end as int));
    }
    let head = full_name.substring_char(0, end);
    let ghost h = head@;
    let mut done: Vec<String> = Vec::new();
    let mut cur = String::new();
    let mut i: usize = 0;
    assert(h.skip(0) =~= h);
    proof {
        lemma_split_colons_nonempty(h);
        assert(prepend_first(Seq::empty(), split_colons(h)) =~= split_colons(h));
    }
    while i < end
        invariant
            end == h.len(),
            h == head@,
            0 <= i <= end,
            views(done@) + prepend_first(cur@, split_colons(h.skip(i as int))) == split_colons(h),
        decreases end - i,
    {
        let c = head.get_char(i);
        let ghost rest = h.skip(i as int);
        proof {
            lemma_split_colons_nonempty(rest);
        }
        let next = if i + 1 < end {
            head.get_char(i + 1)
        } else {
            ' '
        };
        assert(rest[0] == c);
        assert(i + 1 < end ==> rest[1] == next);
        if c == ':' && i + 1 < end && next == ':' {
            proof {
                assert(rest.skip(2) =~= h.skip(i + 2));
                lemma_split_colons_nonempty(h.skip(i + 2));
                let tail = split_colons(h.skip(i + 2));
                assert(prepend_first(cur@, split_colons(rest)) =~= seq![cur@] + tail);
                assert(prepend_first(Seq::empty(), tail) =~= tail);
                assert(views(done@.push(cur)) =~= views(done@).push(cur@));
            }
            let ghost before = views(done@);
            done.push(cur);
            cur = String::new();
            assert(views(done@) + prepend_first(cur@, split_colons(h.skip(i + 2))) =~= split_colons(h));
            i = i + 2;
        } else {
            proof {
                assert(rest.drop_first() =~= h.skip(i + 1));
                lemma_split_colons_nonempty(h.skip(i + 1));
                let r = split_colons(h.skip(i + 1));
                assert(!(rest.len() >= 2 && rest[0] == ':' && rest[1] == ':'));
                assert(split_colons(rest) == r.update(0, seq![c] + r[0]));
                assert(cur@ + (seq![c] + r[0]) =~= cur@.push(c) + r[0]);
                assert(prepend_first(cur@, split_colons(rest)) =~= prepend_first(cur@.push(c), r));
            }
            push_char(&mut cur, c);
            i = i + 1;
        }
    }
    proof {
        assert(h.skip(end as int) =~= Seq::<char>::empty());
        assert(prepend_first(cur@, split_colons(Seq::<char>::empty())) =~= seq![cur@]);
        assert(views(done@) =~= split_colons(h).drop_last());
    }
    done
}

} // verus!
