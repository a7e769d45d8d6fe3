//! The arena of schema nodes. A node is addressed by a handle, which is its
//! identity: two handles denote the same type exactly when they are equal.
use vstd::prelude::*;
use vstd::string::*;

use crate::kind::{
    child, clone_strings, is_named, variant_child, EnumVariant, Field, GenError, GenErrorKind, TupleStructField, TypeKind,
    VariantKind,
};
use crate::text::views;

verus! {

/// Handle of a schema node in a [`Types`] arena.
pub type DynTapi = usize;

/// One schema node: a display name (which is also the key it is interned
/// under), its shape, and the module path it was declared in.
#[derive(Clone, Debug)]
pub struct TapiDyn {
    pub name: String,
    pub kind: TypeKind,
    pub path: Vec<String>,
}

/// An arena of schema nodes, each addressed by its handle.
#[derive(Clone, Debug)]
pub struct Types {
    nodes: Vec<TapiDyn>,
}

/// The children of a node are in the arena; those of a structural
/// (unnamed) kind were interned before it, so spelling a type out terminates.
pub open spec fn kind_fits(k: TypeKind, at: int, len: int) -> bool {
    forall|x: DynTapi|
        #[trigger] child(k, x) ==> if is_named(k) {
            x < len
        } else {
            x < at
        }
}

pub open spec fn names_unique(s: Seq<TapiDyn>) -> bool {
    forall|i: int, j: int|
        0 <= i < s.len() && 0 <= j < s.len() && i != j ==> (#[trigger] s[i]).name@ != (#[trigger] s[j]).name@
}

pub open spec fn arena_wf(s: Seq<TapiDyn>) -> bool {
    &&& names_unique(s)
    &&& forall|i: int| 0 <= i < s.len() ==> kind_fits(#[trigger] s[i].kind, i, s.len() as int)
}

/// The node interned under `name`, if any.
pub open spec fn find_name(s: Seq<TapiDyn>, name: Seq<char>) -> Option<int> {
    if exists|i: int| 0 <= i < s.len() && (#[trigger] s[i]).name@ == name {
        Some(choose|i: int| 0 <= i < s.len() && (#[trigger] s[i]).name@ == name)
    } else {
        None
    }
}

/// The arena and handle that interning `node` gives: the node already
/// interned under its name, or else `node` appended.
pub open spec fn interned(s: Seq<TapiDyn>, node: TapiDyn) -> (Seq<TapiDyn>, int) {
    match find_name(s, node.name@) {
        Some(i) => (s, i),
        None => (s.push(node), s.len() as int),
    }
}

/// Interning is stable: interning the same node a second time gives the
/// handle of the first call and leaves the arena as it was.
pub proof fn identity_stable(s: Seq<TapiDyn>, node: TapiDyn)
    ensures
        ({
            let (s1, h1) = interned(s, node);
            let (s2, h2) = interned(s1, node);
            h1 == h2 && s2 == s1
        }),
{
    let (s1, h1) = interned(s, node);
    if find_name(s, node.name@) is None {
        assert(s1[s.len() as int].name@ == node.name@);
        assert forall|i: int| 0 <= i < s1.len() && (#[trigger] s1[i]).name@ == node.name@ implies i
            == s.len() by {
            if i < s.len() {
                assert(s[i] == s1[i]);
            }
        }
    }
}

impl View for Types {
    type V = Seq<TapiDyn>;

    closed spec fn view(&self) -> Seq<TapiDyn> {
        self.nodes@
    }
}

impl Types {
    pub open spec fn wf(&self) -> bool {
        arena_wf(self@)
    }

    pub fn new() -> (r: Types)
        ensures
            r@ == Seq::<TapiDyn>::empty(),
            r.wf(),
    {
        Types { nodes: Vec::new() }
    }

    pub fn len(&self) -> (r: usize)
        ensures
            r == self@.len(),
    {
        self.nodes.len()
    }

    /// The node behind a handle.
    pub fn get(&self, ty: DynTapi) -> (r: &TapiDyn)
        requires
            ty < self@.len(),
        ensures
            *r == self@[ty as int],
    {
        &self.nodes[ty]
    }

    /// The handle of the node interned under `name`, if there is one.
    pub fn find(&self, name: &str) -> (r: Option<DynTapi>)
        requires
            self.wf(),
        ensures
            match r {
                Some(h) => find_name(self@, name@) == Some(h as int),
                None => find_name(self@, name@) is None,
            },
    {
        let mut i: usize = 0;
        while i < self.nodes.len()
            invariant
                self.wf(),
                0 <= i <= self@.len(),
                forall|k: int| 0 <= k < i ==> (#[trigger] self@[k]).name@ != name@,
            decreases self@.len() - i,
        {
            if str_eq(self.nodes[i].name.as_str(), name) {
                proof {
                    let s = self@;
                    assert(s[i as int].name@ == name@);
                    assert forall|j: int| 0 <= j < s.len() && (#[trigger] s[j]).name@ == name@ implies j
                        == i by {
                        if j != i {
                            assert(s[i as int].name@ != s[j].name@);
                        }
                    }
                }
                return Some(i);
            }
            i = i + 1;
        }
        None
    }

    /// Interns `node` under its name: if a node with that name is present its
    /// handle is returned and the arena is unchanged, else `node` is added.
    pub fn intern(&mut self, node: TapiDyn) -> (r: DynTapi)
        requires
            old(self).wf(),
            kind_fits(node.kind, old(self)@.len() as int, old(self)@.len() as int),
        ensures
            final(self).wf(),
            (final(self)@, r as int) == interned(old(self)@, node),
            old(self)@.is_prefix_of(final(self)@),
            r < final(self)@.len(),
    {
        match self.find(node.name.as_str()) {
            Some(h) => {
                assert(self@.is_prefix_of(self@));
                h
            },
            None => {
                let h = self.nodes.len();
                proof {
                    let s = old(self)@;
                    let s1 = s.push(node);
                    assert forall|i: int| 0 <= i < s1.len() implies kind_fits(
                        #[trigger] s1[i].kind,
                        i,
                        s1.len() as int,
                    ) by {
                        if i < s.len() {
                            assert(s[i] == s1[i]);
                            assert(kind_fits(s[i].kind, i, s.len() as int));
                        }
                    }
                    assert forall|i: int, j: int|
                        0 <= i < s1.len() && 0 <= j < s1.len() && i != j implies (#[trigger] s1[i]).name@
                        != (#[trigger] s1[j]).name@ by {
                        if i < s.len() && j < s.len() {
                            assert(s[i] == s1[i] && s[j] == s1[j]);
                        } else if i < s.len() {
                            assert(s[i] == s1[i]);
                        } else if j < s.len() {
                            assert(s[j] == s1[j]);
                        }
                    }
                    assert(s.is_prefix_of(s1));
                }
                self.nodes.push(node);
                h
            },
        }
    }

    /// Gives the node `ty` (typically one interned with kind `Any` to stand
    /// for a type not yet described) its kind.
    pub fn define(&mut self, ty: DynTapi, kind: TypeKind)
        requires
            old(self).wf(),
            ty < old(self)@.len(),
            kind_fits(kind, ty as int, old(self)@.len() as int),
        ensures
            final(self).wf(),
            final(self)@ == old(self)@.update(
                ty as int,
                TapiDyn { kind: kind, ..old(self)@[ty as int] },
            ),
    {
        let mut tmp = TapiDyn { name: String::new(), kind: TypeKind::Any, path: Vec::new() };
        self.nodes.set_and_swap(ty, &mut tmp);
        tmp.kind = kind;
        self.nodes.set_and_swap(ty, &mut tmp);
        proof {
            let s = old(self)@;
            let s1 = self@;
            assert forall|i: int| 0 <= i < s1.len() implies kind_fits(
                #[trigger] s1[i].kind,
                i,
                s1.len() as int,
            ) by {
                if i != ty {
                    assert(s[i] == s1[i]);
                    assert(kind_fits(s[i].kind, i, s.len() as int));
                }
            }
            assert forall|i: int, j: int|
                0 <= i < s1.len() && 0 <= j < s1.len() && i != j implies (#[trigger] s1[i]).name@
                != (#[trigger] s1[j]).name@ by {
                assert(s1[i].name == s[i].name && s1[j].name == s[j].name);
            }
        }
    }
}

/// Character-wise equality of two strings.
pub fn str_eq(a: &str, b: &str) -> (r: bool)
    ensures
        r == (a@ == b@),
{
    let n = a.unicode_len();
    if n != b.unicode_len() {
        return false;
    }
    let mut i: usize = 0;
    while i < n
        invariant
            n == a@.len() == b@.len(),
            0 <= i <= n,
            forall|k: int| 0 <= k < i ==> a@[k] == b@[k],
        decreases n - i,
    {
        if a.get_char(i) != b.get_char(i) {
            return false;
        }
        i = i + 1;
    }
    assert(a@ =~= b@);
    true
}


/// The nodes reached from `roots` in at most `n` steps along `child`.
pub open spec fn reach(s: Seq<TapiDyn>, roots: Seq<DynTapi>, n: nat) -> Set<DynTapi>
    decreases n,
{
    if n == 0 {
        roots.to_set()
    } else {
        let p = reach(s, roots, (n - 1) as nat);
        p.union(
            Set::new(
                |y: DynTapi|
                    exists|z: DynTapi|
                        p.contains(z) && z < s.len() && #[trigger] child(s[z as int].kind, y),
            ),
        )
    }
}

/// `x` is reached from `roots` by following direct dependencies.
pub open spec fn reachable(s: Seq<TapiDyn>, roots: Seq<DynTapi>, x: DynTapi) -> bool {
    exists|n: nat| #[trigger] reach(s, roots, n).contains(x)
}

/// Every direct dependency of a member of `xs` is a member of `xs`.
pub open spec fn closed_under_deps(s: Seq<TapiDyn>, xs: Seq<DynTapi>) -> bool {
    forall|z: DynTapi, y: DynTapi|
        xs.contains(z) && z < s.len() && #[trigger] child(s[z as int].kind, y) ==> xs.contains(y)
}

pub open spec fn all_below(xs: Seq<DynTapi>, n: int) -> bool {
    forall|k: int| 0 <= k < xs.len() ==> xs[k] < n
}

/// What `transitive_closure` returns for `roots`: each reachable node once,
/// nothing else, and `roots` itself where it already is such a list.
pub open spec fn is_closure_of(s: Seq<TapiDyn>, roots: Seq<DynTapi>, r: Seq<DynTapi>) -> bool {
    &&& r.no_duplicates()
    &&& forall|x: DynTapi| r.contains(x) <==> reachable(s, roots, x)
    &&& (roots.no_duplicates() && closed_under_deps(s, roots)) ==> r == roots
}

proof fn lemma_below_len(n: nat)
    requires
        n <= usize::MAX + 1,
    ensures
        Set::new(|x: DynTapi| (x as nat) < n).finite(),
        Set::new(|x: DynTapi| (x as nat) < n).len() == n,
    decreases n,
{
    if n == 0 {
        assert(Set::new(|x: DynTapi| (x as nat) < n) =~= Set::<DynTapi>::empty());
    } else {
        lemma_below_len((n - 1) as nat);
        let m = (n - 1) as DynTapi;
        assert(Set::new(|x: DynTapi| (x as nat) < n) =~= Set::new(
            |x: DynTapi| (x as nat) < (n - 1) as nat,
        ).insert(m));
    }
}

proof fn lemma_distinct_below(xs: Seq<DynTapi>, n: nat)
    requires
        xs.no_duplicates(),
        all_below(xs, n as int),
        n <= usize::MAX + 1,
    ensures
        xs.len() <= n,
{
    lemma_below_len(n);
    xs.unique_seq_to_set();
    assert(xs.to_set().subset_of(Set::new(|x: DynTapi| (x as nat) < n)));
    vstd::set_lib::lemma_len_subset(xs.to_set(), Set::new(|x: DynTapi| (x as nat) < n));
}

proof fn lemma_reach_within(s: Seq<TapiDyn>, roots: Seq<DynTapi>, out: Seq<DynTapi>, n: nat)
    requires
        forall|x: DynTapi| roots.contains(x) ==> out.contains(x),
        closed_under_deps(s, out),
    ensures
        forall|x: DynTapi| reach(s, roots, n).contains(x) ==> out.contains(x),
    decreases n,
{
    if n > 0 {
        lemma_reach_within(s, roots, out, (n - 1) as nat);
    }
}

/// Whether `v` holds `x`.
fn vec_contains(v: &Vec<DynTapi>, x: DynTapi) -> (r: bool)
    ensures
        r == v@.contains(x),
{
    let mut i: usize = 0;
    while i < v.len()
        invariant
            0 <= i <= v@.len(),
            forall|k: int| 0 <= k < i ==> v@[k] != x,
        decreases v@.len() - i,
    {
        if v[i] == x {
            assert(v@[i as int] == x);
            return true;
        }
        i = i + 1;
    }
    false
}

fn push_field_tys(fields: &Vec<Field>, out: &mut Vec<DynTapi>)
    ensures
        final(out)@ == old(out)@ + field_tys(fields@),
        forall|x: DynTapi|
            final(out)@.contains(x) <==> (old(out)@.contains(x) || exists|j: int|
                0 <= j < fields@.len() && (#[trigger] fields@[j]).ty == x),
{
    let ghost start = out@;
    let mut i: usize = 0;
    while i < fields.len()
        invariant
            0 <= i <= fields@.len(),
            out@.len() == start.len() + i,
            forall|k: int| 0 <= k < start.len() ==> out@[k] == start[k],
            forall|k: int| 0 <= k < i ==> out@[start.len() + k] == (#[trigger] fields@[k]).ty,
        decreases fields@.len() - i,
    {
        out.push(fields[i].ty);
        i = i + 1;
    }
    assert(out@ =~= start + field_tys(fields@));
    assert forall|x: DynTapi|
        out@.contains(x) <==> (start.contains(x) || exists|j: int|
            0 <= j < fields@.len() && (#[trigger] fields@[j]).ty == x) by {
        if out@.contains(x) {
            let k = choose|k: int| 0 <= k < out@.len() && out@[k] == x;
            if k >= start.len() {
                assert(fields@[k - start.len()].ty == x);
            } else {
                assert(start[k] == x);
            }
        }
        if start.contains(x) {
            let k = choose|k: int| 0 <= k < start.len() && start[k] == x;
            assert(out@[k] == x);
        }
        if exists|j: int| 0 <= j < fields@.len() && (#[trigger] fields@[j]).ty == x {
            let j = choose|j: int| 0 <= j < fields@.len() && (#[trigger] fields@[j]).ty == x;
            assert(out@[start.len() + j] == x);
        }
    }
}

fn push_tuple_field_tys(fields: &Vec<TupleStructField>, out: &mut Vec<DynTapi>)
    ensures
        final(out)@ == old(out)@ + fields@.map_values(|f: TupleStructField| f.ty),
        forall|x: DynTapi|
            final(out)@.contains(x) <==> (old(out)@.contains(x) || exists|j: int|
                0 <= j < fields@.len() && (#[trigger] fields@[j]).ty == x),
{
    let ghost start = out@;
    let mut i: usize = 0;
    while i < fields.len()
        invariant
            0 <= i <= fields@.len(),
            out@.len() == start.len() + i,
            forall|k: int| 0 <= k < start.len() ==> out@[k] == start[k],
            forall|k: int| 0 <= k < i ==> out@[start.len() + k] == (#[trigger] fields@[k]).ty,
        decreases fields@.len() - i,
    {
        out.push(fields[i].ty);
        i = i + 1;
    }
    assert(out@ =~= start + fields@.map_values(|f: TupleStructField| f.ty));
    assert forall|x: DynTapi|
        out@.contains(x) <==> (start.contains(x) || exists|j: int|
            0 <= j < fields@.len() && (#[trigger] fields@[j]).ty == x) by {
        if out@.contains(x) {
            let k = choose|k: int| 0 <= k < out@.len() && out@[k] == x;
            if k >= start.len() {
                assert(fields@[k - start.len()].ty == x);
            } else {
                assert(start[k] == x);
            }
        }
        if start.contains(x) {
            let k = choose|k: int| 0 <= k < start.len() && start[k] == x;
            assert(out@[k] == x);
        }
        if exists|j: int| 0 <= j < fields@.len() && (#[trigger] fields@[j]).ty == x {
            let j = choose|j: int| 0 <= j < fields@.len() && (#[trigger] fields@[j]).ty == x;
            assert(out@[start.len() + j] == x);
        }
    }
}

fn push_all(tys: &Vec<DynTapi>, out: &mut Vec<DynTapi>)
    ensures
        final(out)@ == old(out)@ + tys@,
        forall|x: DynTapi| final(out)@.contains(x) <==> (old(out)@.contains(x) || tys@.contains(x)),
{
    let ghost start = out@;
    let mut i: usize = 0;
    while i < tys.len()
        invariant
            0 <= i <= tys@.len(),
            out@.len() == start.len() + i,
            forall|k: int| 0 <= k < start.len() ==> out@[k] == start[k],
            forall|k: int| 0 <= k < i ==> out@[start.len() + k] == tys@[k],
        decreases tys@.len() - i,
    {
        out.push(tys[i]);
        i = i + 1;
    }
    assert(out@ =~= start + tys@);
    assert forall|x: DynTapi| out@.contains(x) <==> (start.contains(x) || tys@.contains(x)) by {
        if out@.contains(x) {
            let k = choose|k: int| 0 <= k < out@.len() && out@[k] == x;
            if k >= start.len() {
                assert(tys@[k - start.len()] == x);
            } else {
                assert(start[k] == x);
            }
        }
        if start.contains(x) {
            let k = choose|k: int| 0 <= k < start.len() && start[k] == x;
            assert(out@[k] == x);
        }
        if tys@.contains(x) {
            let j = choose|j: int| 0 <= j < tys@.len() && tys@[j] == x;
            assert(out@[start.len() + j] == x);
        }
    }
}

/// The types of `fields`, in declaration order.
pub open spec fn field_tys(fields: Seq<Field>) -> Seq<DynTapi> {
    fields.map_values(|f: Field| f.ty)
}

/// The direct children of a variant's payload, in declaration order.
pub open spec fn variant_deps(k: VariantKind) -> Seq<DynTapi> {
    match k {
        VariantKind::Unit => Seq::empty(),
        VariantKind::Tuple(tys) => tys@,
        VariantKind::Struct(fields) => field_tys(fields@),
    }
}

/// The payload children of `vs`, one variant after another.
pub open spec fn variants_deps(vs: Seq<EnumVariant>) -> Seq<DynTapi>
    decreases vs.len(),
{
    if vs.len() == 0 {
        Seq::empty()
    } else {
        variants_deps(vs.drop_last()) + variant_deps(vs.last().kind)
    }
}

/// The direct children of a kind, in declaration order and with repeats:
/// fields, variant payloads concatenated, the element, key then value.
pub open spec fn deps_seq(k: TypeKind) -> Seq<DynTapi> {
    match k {
        TypeKind::Struct(s) => field_tys(s.fields@),
        TypeKind::TupleStruct(s) => s.fields@.map_values(|f: TupleStructField| f.ty),
        TypeKind::Enum(e) => variants_deps(e.variants@),
        TypeKind::List(t) => seq![t],
        TypeKind::Option(t) => seq![t],
        TypeKind::Tuple(tys) => tys@,
        TypeKind::Record(k, v) => seq![k, v],
        TypeKind::Builtin(_) => Seq::empty(),
        TypeKind::Any => Seq::empty(),
    }
}

proof fn lemma_variants_deps(vs: Seq<EnumVariant>, x: DynTapi)
    ensures
        variants_deps(vs).contains(x) <==> exists|j: int|
            0 <= j < vs.len() && variant_child((#[trigger] vs[j]).kind, x),
    decreases vs.len(),
{
    if vs.len() > 0 {
        let p = vs.drop_last();
        lemma_variants_deps(p, x);
        let d = variant_deps(vs.last().kind);
        assert(variant_child(vs.last().kind, x) <==> d.contains(x)) by {
            if let VariantKind::Struct(fields) = vs.last().kind {
                if d.contains(x) {
                    let m = choose|m: int| 0 <= m < d.len() && d[m] == x;
                    assert(fields@[m].ty == x);
                }
                if variant_child(vs.last().kind, x) {
                    let j = choose|j: int| 0 <= j < fields@.len() && (#[trigger] fields@[j]).ty == x;
                    assert(d[j] == x);
                }
            }
        }
        let r = variants_deps(p);
        if (r + d).contains(x) {
            let m = choose|m: int| 0 <= m < (r + d).len() && (r + d)[m] == x;
            if m < r.len() {
                assert(r[m] == x);
                let j = choose|j: int| 0 <= j < p.len() && variant_child((#[trigger] p[j]).kind, x);
                assert(vs[j] == p[j]);
            } else {
                assert(d[m - r.len()] == x);
                assert(vs[vs.len() - 1] == vs.last());
            }
        }
        if exists|j: int| 0 <= j < vs.len() && variant_child((#[trigger] vs[j]).kind, x) {
            let j = choose|j: int| 0 <= j < vs.len() && variant_child((#[trigger] vs[j]).kind, x);
            if j < p.len() {
                assert(p[j] == vs[j]);
                let m = choose|m: int| 0 <= m < r.len() && r[m] == x;
                assert((r + d)[m] == x);
            } else {
                assert(vs[j] == vs.last());
                let m = choose|m: int| 0 <= m < d.len() && d[m] == x;
                assert((r + d)[r.len() + m] == x);
            }
        }
    }
}

/// A kind's dependency list holds exactly its direct children.
pub proof fn lemma_deps_seq_child(k: TypeKind, x: DynTapi)
    ensures
        deps_seq(k).contains(x) <==> child(k, x),
{
    let d = deps_seq(k);
    match k {
        TypeKind::Struct(st) => {
            if d.contains(x) {
                let m = choose|m: int| 0 <= m < d.len() && d[m] == x;
                assert(st.fields@[m].ty == x);
            }
            if child(k, x) {
                let j = choose|j: int| 0 <= j < st.fields@.len() && (#[trigger] st.fields@[j]).ty == x;
                assert(d[j] == x);
            }
        },
        TypeKind::TupleStruct(st) => {
            if d.contains(x) {
                let m = choose|m: int| 0 <= m < d.len() && d[m] == x;
                assert(st.fields@[m].ty == x);
            }
            if child(k, x) {
                let j = choose|j: int| 0 <= j < st.fields@.len() && (#[trigger] st.fields@[j]).ty == x;
                assert(d[j] == x);
            }
        },
        TypeKind::Enum(e) => {
            lemma_variants_deps(e.variants@, x);
        },
        TypeKind::List(t) => {
            assert(d[0] == t);
        },
        TypeKind::Option(t) => {
            assert(d[0] == t);
        },
        TypeKind::Record(a, b) => {
            assert(d[0] == a && d[1] == b);
        },
        _ => {},
    }
}

impl Types {
    /// The direct dependencies of `ty`: the children one level of unwrapping
    /// away (fields, variant payloads, element, key and value types), in
    /// declaration order.
    pub fn dependencies(&self, ty: DynTapi) -> (r: Vec<DynTapi>)
        requires
            ty < self@.len(),
        ensures
            r@ == deps_seq(self@[ty as int].kind),
            forall|x: DynTapi| r@.contains(x) <==> child(self@[ty as int].kind, x),
    {
        let mut out: Vec<DynTapi> = Vec::new();
        match &self.nodes[ty].kind {
            TypeKind::Struct(s) => {
                push_field_tys(&s.fields, &mut out);
            },
            TypeKind::TupleStruct(s) => {
                push_tuple_field_tys(&s.fields, &mut out);
            },
            TypeKind::Enum(e) => {
                let mut i: usize = 0;
                assert(e.variants@.take(0) =~= Seq::<EnumVariant>::empty());
                while i < e.variants.len()
                    invariant
                        0 <= i <= e.variants@.len(),
                        out@ == variants_deps(e.variants@.take(i as int)),
                    decreases e.variants@.len() - i,
                {
                    let ghost before = out@;
                    match &e.variants[i].kind {
                        VariantKind::Unit => {
                            assert(out@ =~= before + Seq::<DynTapi>::empty());
                        },
                        VariantKind::Tuple(tys) => {
                            push_all(tys, &mut out);
                        },
                        VariantKind::Struct(fields) => {
                            push_field_tys(fields, &mut out);
                        },
                    }
                    proof {
                        assert(e.variants@.take(i + 1).drop_last() =~= e.variants@.take(i as int));
                        assert(e.variants@.take(i + 1).last() == e.variants@[i as int]);
                        assert(out@ == before + variant_deps(e.variants@[i as int].kind));
                    }
                    i = i + 1;
                }
                assert(e.variants@.take(e.variants@.len() as int) =~= e.variants@);
            },
            TypeKind::List(t) => {
                out.push(*t);
                assert(out@ =~= seq![*t]);
            },
            TypeKind::Option(t) => {
                out.push(*t);
                assert(out@ =~= seq![*t]);
            },
            TypeKind::Tuple(tys) => {
                push_all(tys, &mut out);
                assert(out@ =~= tys@);
            },
            TypeKind::Builtin(_) => {},
            TypeKind::Record(k, v) => {
                out.push(*k);
                out.push(*v);
                assert(out@ =~= seq![*k, *v]);
            },
            TypeKind::Any => {},
        }
        assert(out@ =~= deps_seq(self@[ty as int].kind));
        proof {
            assert forall|x: DynTapi| out@.contains(x) <==> child(self@[ty as int].kind, x) by {
                lemma_deps_seq_child(self@[ty as int].kind, x);
            }
        }
        out
    }

    /// Every node reachable from `roots` by following dependencies, roots
    /// included, each once.
    pub fn transitive_closure(&self, roots: &Vec<DynTapi>) -> (r: Vec<DynTapi>)
        requires
            self.wf(),
            all_below(roots@, self@.len() as int),
        ensures
            is_closure_of(self@, roots@, r@),
    {
        let ghost s = self@;
        let n = self.len();
        let ghost cond = roots@.no_duplicates() && closed_under_deps(s, roots@);
        let mut out: Vec<DynTapi> = Vec::new();
        let mut i: usize = 0;
        while i < roots.len()
            invariant
                0 <= i <= roots@.len(),
                all_below(roots@, s.len() as int),
                out@.no_duplicates(),
                all_below(out@, s.len() as int),
                forall|x: DynTapi|
                    out@.contains(x) <==> exists|k: int| 0 <= k < i && roots@[k] == x,
                cond == (roots@.no_duplicates() && closed_under_deps(s, roots@)),
                cond ==> out@ == roots@.take(i as int),
            decreases roots@.len() - i,
        {
            let x = roots[i];
            let ghost before = out@;
            assert(forall|y: DynTapi|
                before.contains(y) <==> exists|k: int| 0 <= k < i && roots@[k] == y);
            if !vec_contains(&out, x) {
                out.push(x);
                proof {
                    if cond {
                        assert(out@ =~= roots@.take(i + 1));
                    }
                    assert forall|y: DynTapi|
                        out@.contains(y) <==> exists|k: int| 0 <= k < i + 1 && roots@[k] == y by {
                        if out@.contains(y) {
                            let m = choose|m: int| 0 <= m < out@.len() && out@[m] == y;
                            if m < before.len() {
                                assert(before[m] == y);
                                assert(before.contains(y));
                                let k = choose|k: int| 0 <= k < i && roots@[k] == y;
                                assert(roots@[k] == y);
                            } else {
                                assert(roots@[i as int] == y);
                            }
                        }
                        if exists|k: int| 0 <= k < i + 1 && roots@[k] == y {
                            let k = choose|k: int| 0 <= k < i + 1 && roots@[k] == y;
                            if k < i {
                                assert(before.contains(y));
                                let m = choose|m: int| 0 <= m < before.len() && before[m] == y;
                                assert(out@[m] == y);
                            } else {
                                assert(out@[before.len() as int] == y);
                            }
                        }
                    }
                }
            } else {
                proof {
                    let k = choose|k: int| 0 <= k < i && roots@[k] == x;
                    if cond {
                        assert(roots@[k] == roots@[i as int]);
                    }
                    assert forall|y: DynTapi|
                        out@.contains(y) <==> exists|k: int| 0 <= k < i + 1 && roots@[k] == y by {
                        if exists|k2: int| 0 <= k2 < i + 1 && roots@[k2] == y {
                            let k2 = choose|k2: int| 0 <= k2 < i + 1 && roots@[k2] == y;
                            if k2 == i {
                                assert(roots@[k] == y);
                            }
                        }
                    }
                }
            }
            i = i + 1;
        }
        proof {
            if cond {
                assert(roots@.take(roots@.len() as int) =~= roots@);
            }
            assert forall|k: int| 0 <= k < out@.len() implies reachable(s, roots@, #[trigger] out@[k]) by {
                assert(out@.contains(out@[k]));
                let m = choose|m: int| 0 <= m < roots@.len() && roots@[m] == out@[k];
                assert(roots@.contains(out@[k]));
                assert(reach(s, roots@, 0).contains(out@[k]));
            }
            assert forall|x: DynTapi| roots@.contains(x) implies out@.contains(x) by {
                let m = choose|m: int| 0 <= m < roots@.len() && roots@[m] == x;
            }
            lemma_distinct_below(out@, s.len());
        }
        let mut i: usize = 0;
        while i < out.len()
            invariant
                self.wf(),
                s == self@,
                n == s.len(),
                0 <= i <= out@.len() <= s.len(),
                out@.no_duplicates(),
                all_below(out@, s.len() as int),
                forall|x: DynTapi| roots@.contains(x) ==> out@.contains(x),
                forall|k: int| 0 <= k < out@.len() ==> reachable(s, roots@, #[trigger] out@[k]),
                forall|k: int, y: DynTapi|
                    0 <= k < i && #[trigger] child(s[out@[k] as int].kind, y) ==> out@.contains(y),
                cond == (roots@.no_duplicates() && closed_under_deps(s, roots@)),
                cond ==> out@ == roots@,
            decreases s.len() - i,
        {
            let z = out[i];
            let deps = self.dependencies(z);
            proof {
                assert(reachable(s, roots@, out@[i as int]));
            }
            let ghost nz = choose|n: nat| #[trigger] reach(s, roots@, n).contains(z);
            let mut j: usize = 0;
            while j < deps.len()
                invariant
                    self.wf(),
                    s == self@,
                    n == s.len(),
                    z < s.len(),
                    reach(s, roots@, nz).contains(z),
                    forall|x: DynTapi| deps@.contains(x) <==> child(s[z as int].kind, x),
                    0 <= j <= deps@.len(),
                    i < out@.len() <= s.len(),
                    out@[i as int] == z,
                    out@.no_duplicates(),
                    all_below(out@, s.len() as int),
                    forall|x: DynTapi| roots@.contains(x) ==> out@.contains(x),
                    forall|k: int| 0 <= k < out@.len() ==> reachable(s, roots@, #[trigger] out@[k]),
                    forall|k: int, y: DynTapi|
                        0 <= k < i && #[trigger] child(s[out@[k] as int].kind, y) ==> out@.contains(y),
                    forall|k: int| 0 <= k < j ==> out@.contains(#[trigger] deps@[k]),
                    cond == (roots@.no_duplicates() && closed_under_deps(s, roots@)),
                    cond ==> out@ == roots@,
                decreases deps@.len() - j,
            {
                let d = deps[j];
                assert(deps@.contains(d));
                if !vec_contains(&out, d) {
                    proof {
                        assert(child(s[z as int].kind, d));
                        assert(kind_fits(s[z as int].kind, z as int, s.len() as int));
                        if cond {
                            assert(roots@[i as int] == z);
                            assert(roots@.contains(z));
                            assert(roots@.contains(d));
                            assert(out@.contains(d));
                        }
                        let p = reach(s, roots@, nz);
                        assert(reach(s, roots@, nz + 1).contains(d));
                    }
                    let ghost before = out@;
                    out.push(d);
                    proof {
                        assert forall|k: int| 0 <= k < out@.len() implies reachable(
                            s,
                            roots@,
                            #[trigger] out@[k],
                        ) by {
                            if k < before.len() {
                                assert(before[k] == out@[k]);
                            }
                        }
                        assert forall|x: DynTapi| #[trigger] before.contains(x) implies out@.contains(x) by {
                            let k = choose|k: int| 0 <= k < before.len() && before[k] == x;
                            assert(out@[k] == x);
                        }
                        lemma_distinct_below(out@, s.len());
                        assert forall|k: int| 0 <= k < j + 1 implies out@.contains(#[trigger] deps@[k]) by {
                            if k < j {
                                assert(before.contains(deps@[k]));
                            } else {
                                assert(out@[before.len() as int] == d);
                            }
                        }
                    }
                }
                j = j + 1;
            }
            proof {
                assert forall|k: int, y: DynTapi|
                    0 <= k < i + 1 && #[trigger] child(s[out@[k] as int].kind, y) implies out@.contains(y) by {
                    if k == i {
                        assert(deps@.contains(y));
                        let m = choose|m: int| 0 <= m < deps@.len() && deps@[m] == y;
                        assert(out@.contains(deps@[m]));
                    }
                }
            }
            i = i + 1;
        }
        proof {
            assert(closed_under_deps(s, out@)) by {
                assert forall|z: DynTapi, y: DynTapi|
                    out@.contains(z) && z < s.len() && #[trigger] child(s[z as int].kind, y) implies out@.contains(y) by {
                    let k = choose|k: int| 0 <= k < out@.len() && out@[k] == z;
                    assert(child(s[out@[k] as int].kind, y));
                }
            }
            assert forall|x: DynTapi| out@.contains(x) <==> reachable(s, roots@, x) by {
                if out@.contains(x) {
                    let k = choose|k: int| 0 <= k < out@.len() && out@[k] == x;
                    assert(reachable(s, roots@, out@[k]));
                }
                if reachable(s, roots@, x) {
                    let n = choose|n: nat| #[trigger] reach(s, roots@, n).contains(x);
                    lemma_reach_within(s, roots@, out@, n);
                }
            }
        }
        out
    }
}

/// Closure is a fixed point: the closure of a closure is that same list.
pub proof fn closure_idempotent(
    s: Seq<TapiDyn>,
    roots: Seq<DynTapi>,
    first: Seq<DynTapi>,
    second: Seq<DynTapi>,
)
    requires
        arena_wf(s),
        all_below(roots, s.len() as int),
        is_closure_of(s, roots, first),
        is_closure_of(s, first, second),
    ensures
        second == first,
{
    assert(closed_under_deps(s, first)) by {
        assert forall|z: DynTapi, y: DynTapi|
            first.contains(z) && z < s.len() && #[trigger] child(s[z as int].kind, y) implies first.contains(y) by {
            assert(reachable(s, roots, z));
            let n = choose|n: nat| #[trigger] reach(s, roots, n).contains(z);
            assert(reach(s, roots, n + 1).contains(y));
        }
    }
}

/// Closure is complete and minimal: a node is in the closure of `roots`
/// exactly when it is reachable from them, and it appears there once.
pub proof fn closure_complete_and_minimal(s: Seq<TapiDyn>, roots: Seq<DynTapi>, r: Seq<DynTapi>, x: DynTapi)
    requires
        is_closure_of(s, roots, r),
    ensures
        r.contains(x) <==> reachable(s, roots, x),
        r.no_duplicates(),
{
}


/// An error of kind `kind` naming the type `ty`.
pub fn type_error(types: &Types, ty: DynTapi, kind: GenErrorKind, name: &String) -> (r: GenError)
    requires
        ty < types@.len(),
    ensures
        r.kind == kind,
        r.name@ == name@,
        views(r.path@) == views(types@[ty as int].path@),
{
    let path = clone_strings(&types.get(ty).path);
    assert(views(path@) =~= views(types@[ty as int].path@));
    GenError { kind, name: name.clone(), path }
}


/// In an arena with unique names, a node is found under its own name.
pub proof fn lemma_find_unique(s: Seq<TapiDyn>, i: int)
    requires
        arena_wf(s),
        0 <= i < s.len(),
    ensures
        find_name(s, s[i].name@) == Some(i),
{
    let name = s[i].name@;
    assert(s[i].name@ == name);
    let c = choose|c: int| 0 <= c < s.len() && (#[trigger] s[c]).name@ == name;
    if c != i {
        assert(s[c].name@ != s[i].name@);
    }
}

/// A node interned in `s` keeps its handle in any wider arena.
pub proof fn lemma_find_stable(s: Seq<TapiDyn>, s2: Seq<TapiDyn>, name: Seq<char>)
    requires
        arena_wf(s2),
        s.is_prefix_of(s2),
        find_name(s, name) is Some,
    ensures
        find_name(s2, name) == find_name(s, name),
{
    let i = find_name(s, name)->0;
    assert(s[i].name@ == name);
    assert(s2[i] == s[i]);
    lemma_find_unique(s2, i);
}

/// A type whose wire shape can be described: extraction interns its node
/// (and those of the types it mentions) under a key of its own and hands
/// back the handle. Extracting a type a second time gives the same handle
/// and leaves the arena as it was.
pub trait Tapi {
    /// The key this type's node is interned under.
    spec fn key() -> Seq<char>;

    /// This type's node, and those of the types it is built from, are in `s`.
    spec fn present(s: Seq<TapiDyn>) -> bool;

    /// Growing the arena keeps what is present.
    proof fn lemma_present_stable(s: Seq<TapiDyn>, s2: Seq<TapiDyn>)
        requires
            Self::present(s),
            arena_wf(s2),
            s.is_prefix_of(s2),
        ensures
            Self::present(s2),
    ;

    fn boxed(types: &mut Types) -> (r: DynTapi)
        requires
            old(types).wf(),
        ensures
            final(types).wf(),
            old(types)@.is_prefix_of(final(types)@),
            r < final(types)@.len(),
            find_name(final(types)@, Self::key()) == Some(r as int),
            Self::present(final(types)@),
            Self::present(old(types)@) ==> final(types)@ == old(types)@,
    ;
}


/// What a closure holds lies in the arena.
pub proof fn lemma_closure_below(s: Seq<TapiDyn>, roots: Seq<DynTapi>, r: Seq<DynTapi>, m: int)
    requires
        arena_wf(s),
        all_below(roots, s.len() as int),
        is_closure_of(s, roots, r),
        0 <= m < r.len(),
    ensures
        r[m] < s.len(),
{
    assert(r.contains(r[m]));
    assert(reachable(s, roots, r[m]));
    let n = choose|n: nat| #[trigger] reach(s, roots, n).contains(r[m]);
    lemma_reach_below(s, roots, n);
}

proof fn lemma_reach_below(s: Seq<TapiDyn>, roots: Seq<DynTapi>, n: nat)
    requires
        arena_wf(s),
        all_below(roots, s.len() as int),
    ensures
        forall|x: DynTapi| reach(s, roots, n).contains(x) ==> x < s.len(),
    decreases n,
{
    if n > 0 {
        lemma_reach_below(s, roots, (n - 1) as nat);
        assert forall|x: DynTapi| reach(s, roots, n).contains(x) implies x < s.len() by {
            let p = reach(s, roots, (n - 1) as nat);
            if !p.contains(x) {
                let z = choose|z: DynTapi| p.contains(z) && z < s.len() && #[trigger] child(s[z as int].kind, x);
                assert(kind_fits(s[z as int].kind, z as int, s.len() as int));
            }
        }
    } else {
        assert forall|x: DynTapi| reach(s, roots, n).contains(x) implies x < s.len() by {
            assert(roots.contains(x));
        }
    }
}


impl Types {
    /// `ty` and every node reachable from it, each once.
    pub fn all_dependencies(&self, ty: DynTapi) -> (r: Vec<DynTapi>)
        requires
            self.wf(),
            ty < self@.len(),
        ensures
            is_closure_of(self@, seq![ty], r@),
    {
        let roots = vec![ty];
        assert(roots@ =~= seq![ty]);
        self.transitive_closure(&roots)
    }
}

} // verus!
