//! Grouping declarations into nested namespaces by module path.
use vstd::prelude::*;
use vstd::string::*;

use crate::kind::{clone_strings, GenError, GenErrorKind};
use crate::targets::{fs, js, ts};
use crate::targets::ts::decl_outcome;
use crate::text::{
    indent_text, indentation, lex_lt, push_char, push_indentation, push_indented, push_str, str_lt,
    views,
};
use crate::types::{all_below, str_eq, DynTapi, TapiDyn, Types};

verus! {

/// The dialect a builder writes.
#[derive(Clone, Copy, Debug, PartialEq, Eq, Structural)]
pub enum Target {
    Ts,
    Js,
    Fs,
}

/// Renders a list of schema nodes as one text: a prelude, then the
/// declarations nested in namespaces by module path.
#[derive(Clone, Debug)]
pub struct TypesBuilder {
    pub prelude: String,
    pub target: Target,
}

/// A declaration at a module path relative to the current namespace.
pub type NsItem = (Seq<Seq<char>>, Option<Seq<char>>);

/// The size that namespace rendering works down.
pub open spec fn weight(items: Seq<NsItem>) -> nat
    decreases items.len(),
{
    if items.len() == 0 {
        0
    } else {
        weight(items.drop_last()) + items.last().0.len() + 1
    }
}

/// The items inside the child namespace `m`, with paths relative to it.
pub open spec fn under(items: Seq<NsItem>, m: Seq<char>) -> Seq<NsItem>
    decreases items.len(),
{
    if items.len() == 0 {
        Seq::empty()
    } else {
        let rest = under(items.drop_last(), m);
        let it = items.last();
        if it.0.len() > 0 && it.0[0] == m {
            rest.push((it.0.drop_first(), it.1))
        } else {
            rest
        }
    }
}

/// The items not inside the child namespace `m`.
pub open spec fn outside(items: Seq<NsItem>, m: Seq<char>) -> Seq<NsItem>
    decreases items.len(),
{
    if items.len() == 0 {
        Seq::empty()
    } else {
        let rest = outside(items.drop_last(), m);
        let it = items.last();
        if it.0.len() > 0 && it.0[0] == m {
            rest
        } else {
            rest.push(it)
        }
    }
}

/// The lexicographically least child namespace, if any.
pub open spec fn least_head(items: Seq<NsItem>) -> Option<Seq<char>>
    decreases items.len(),
{
    if items.len() == 0 {
        None
    } else {
        let r = least_head(items.drop_last());
        let it = items.last();
        if it.0.len() == 0 {
            r
        } else {
            match r {
                None => Some(it.0[0]),
                Some(m) => if lex_lt(it.0[0], m) {
                    Some(it.0[0])
                } else {
                    Some(m)
                },
            }
        }
    }
}

/// The declarations held directly by the current namespace, indented.
pub open spec fn own_decls(items: Seq<NsItem>, ind: Seq<char>) -> Seq<char>
    decreases items.len(),
{
    if items.len() == 0 {
        Seq::empty()
    } else {
        let it = items.last();
        own_decls(items.drop_last(), ind) + if it.0.len() == 0 && it.1 is Some {
            indent_text(it.1->0, ind, true)
        } else {
            Seq::empty()
        }
    }
}

/// The line that opens namespace `m`.
pub open spec fn ns_open(t: Target, m: Seq<char>) -> Seq<char> {
    match t {
        Target::Ts => "export namespace "@ + m + " {"@,
        Target::Js => Seq::empty(),
        Target::Fs => "module "@ + m + " ="@,
    }
}

/// The line that closes a namespace.
pub open spec fn ns_close(t: Target) -> Seq<char> {
    match t {
        Target::Ts => "}"@,
        _ => Seq::empty(),
    }
}

pub proof fn lemma_weight_split(items: Seq<NsItem>, m: Seq<char>)
    ensures
        weight(under(items, m)) + weight(outside(items, m)) + under(items, m).len() == weight(items),
    decreases items.len(),
{
    if items.len() > 0 {
        lemma_weight_split(items.drop_last(), m);
        let it = items.last();
        let u = under(items.drop_last(), m);
        let o = outside(items.drop_last(), m);
        if it.0.len() > 0 && it.0[0] == m {
            assert(u.push((it.0.drop_first(), it.1)).drop_last() =~= u);
        } else {
            assert(o.push(it).drop_last() =~= o);
        }
    }
}

pub proof fn lemma_least_head_nonempty(items: Seq<NsItem>)
    ensures
        least_head(items) matches Some(m) ==> under(items, m).len() > 0,
        least_head(items) matches Some(m) ==> exists|k: int|
            0 <= k < items.len() && (#[trigger] items[k]).0.len() > 0 && items[k].0[0] == m,
    decreases items.len(),
{
    if items.len() > 0 {
        let p = items.drop_last();
        lemma_least_head_nonempty(p);
        lemma_under_grows(items, p);
        if let Some(m) = least_head(items) {
            if let Some(mp) = least_head(p) {
                if mp == m {
                    let k = choose|k: int| 0 <= k < p.len() && (#[trigger] p[k]).0.len() > 0 && p[k].0[0] == m;
                    assert(items[k] == p[k]);
                }
            }
            if items.last().0.len() > 0 && items.last().0[0] == m {
                assert(items[items.len() - 1] == items.last());
            }
        }
    }
}

pub proof fn lemma_under_grows(items: Seq<NsItem>, p: Seq<NsItem>)
    requires
        items.len() > 0,
        p == items.drop_last(),
    ensures
        forall|m: Seq<char>| #[trigger] under(items, m).len() >= under(p, m).len(),
        forall|m: Seq<char>|
            items.last().0.len() > 0 && items.last().0[0] == m ==> #[trigger] under(items, m).len() > 0,
{
}

/// Every item's path fits with `depth` below the largest `usize`.
pub open spec fn depth_fits(items: Seq<NsItem>, depth: int) -> bool {
    forall|k: int| 0 <= k < items.len() ==> depth + (#[trigger] items[k]).0.len() <= usize::MAX
}

pub proof fn lemma_depth_split(items: Seq<NsItem>, m: Seq<char>, depth: int)
    requires
        depth_fits(items, depth),
    ensures
        depth_fits(under(items, m), depth + 1),
        depth_fits(outside(items, m), depth),
    decreases items.len(),
{
    if items.len() > 0 {
        let p = items.drop_last();
        assert forall|k: int| 0 <= k < p.len() implies depth + (#[trigger] p[k]).0.len() <= usize::MAX by {
            assert(p[k] == items[k]);
        }
        lemma_depth_split(p, m, depth);
        assert(items[items.len() - 1] == items.last());
        let it = items.last();
        let u = under(p, m);
        let o = outside(p, m);
        if it.0.len() > 0 && it.0[0] == m {
            let u2 = u.push((it.0.drop_first(), it.1));
            assert forall|k: int| 0 <= k < u2.len() implies depth + 1 + (#[trigger] u2[k]).0.len()
                <= usize::MAX by {
                if k < u.len() {
                    assert(u2[k] == u[k]);
                }
            }
        } else {
            let o2 = o.push(it);
            assert forall|k: int| 0 <= k < o2.len() implies depth + (#[trigger] o2[k]).0.len()
                <= usize::MAX by {
                if k < o.len() {
                    assert(o2[k] == o[k]);
                }
            }
        }
    }
}

/// The text of a namespace holding `items`, at nesting level `depth`: its
/// own declarations in the order given, then its child namespaces in
/// lexicographic order, each between its open and close lines.
pub open spec fn render_ns(t: Target, items: Seq<NsItem>, depth: nat) -> Seq<char>
    decreases weight(items), 1nat,
{
    own_decls(items, indentation(depth)) + render_children(t, items, depth)
}

/// The child namespaces of a namespace holding `items`, least name first.
pub open spec fn render_children(t: Target, items: Seq<NsItem>, depth: nat) -> Seq<char>
    decreases weight(items), 0nat,
{
    match least_head(items) {
        None => Seq::empty(),
        Some(m) => {
            proof {
                lemma_weight_split(items, m);
                lemma_least_head_nonempty(items);
            }
            indentation(depth) + ns_open(t, m) + "\n"@ + render_ns(t, under(items, m), depth + 1)
                + indentation(depth) + ns_close(t) + "\n"@ + render_children(
                t,
                outside(items, m),
                depth,
            )
        },
    }
}

/// Declarations of one namespace keep the caller's order: the text of the
/// first `k` items comes before the text of the rest.
pub proof fn own_decls_keep_order(items: Seq<NsItem>, ind: Seq<char>, k: int)
    requires
        0 <= k <= items.len(),
    ensures
        own_decls(items, ind) == own_decls(items.take(k), ind) + own_decls(items.skip(k), ind),
    decreases items.len(),
{
    if k == items.len() {
        assert(items.take(k) =~= items);
        assert(items.skip(k) =~= Seq::<NsItem>::empty());
        assert(own_decls(items, ind) + Seq::<char>::empty() =~= own_decls(items, ind));
    } else {
        let p = items.drop_last();
        own_decls_keep_order(p, ind, k);
        assert(p.take(k) =~= items.take(k));
        assert(items.skip(k).drop_last() =~= p.skip(k));
        assert(items.skip(k).last() == items.last());
        let tail = own_decls(p.skip(k), ind);
        let last = if items.last().0.len() == 0 && items.last().1 is Some {
            indent_text(items.last().1->0, ind, true)
        } else {
            Seq::empty()
        };
        assert(own_decls(items.skip(k), ind) == tail + last);
        assert(own_decls(items, ind) =~= own_decls(items.take(k), ind) + (tail + last));
    }
}

proof fn lemma_lex_irreflexive(a: Seq<char>)
    ensures
        !lex_lt(a, a),
    decreases a.len(),
{
    if a.len() > 0 {
        lemma_lex_irreflexive(a.drop_first());
    }
}

proof fn lemma_lex_transitive(a: Seq<char>, b: Seq<char>, c: Seq<char>)
    requires
        lex_lt(a, b),
        lex_lt(b, c),
    ensures
        lex_lt(a, c),
    decreases a.len(),
{
    if a.len() > 0 && b.len() > 0 && c.len() > 0 && a[0] == b[0] && b[0] == c[0] {
        lemma_lex_transitive(a.drop_first(), b.drop_first(), c.drop_first());
    }
}

proof fn lemma_no_head(items: Seq<NsItem>)
    ensures
        least_head(items) is None ==> forall|k: int|
            0 <= k < items.len() ==> (#[trigger] items[k]).0.len() == 0,
    decreases items.len(),
{
    if items.len() > 0 {
        let p = items.drop_last();
        lemma_no_head(p);
        if least_head(items) is None {
            assert forall|k: int| 0 <= k < items.len() implies (#[trigger] items[k]).0.len() == 0 by {
                if k < p.len() {
                    assert(items[k] == p[k]);
                }
            }
        }
    }
}

/// Sibling namespaces come in lexicographic order: the namespace rendered
/// first (see `render_children`) sorts no later than any other child.
pub proof fn least_head_is_least(items: Seq<NsItem>)
    ensures
        least_head(items) matches Some(m) ==> forall|k: int|
            0 <= k < items.len() && (#[trigger] items[k]).0.len() > 0 ==> !lex_lt(items[k].0[0], m),
    decreases items.len(),
{
    if items.len() > 0 {
        let p = items.drop_last();
        least_head_is_least(p);
        lemma_no_head(p);
        let it = items.last();
        if let Some(m) = least_head(items) {
            assert forall|k: int|
                0 <= k < items.len() && (#[trigger] items[k]).0.len() > 0 implies !lex_lt(
                items[k].0[0],
                m,
            ) by {
                if k < p.len() {
                    assert(items[k] == p[k]);
                    assert(p[k].0.len() > 0);
                    assert(least_head(p) is Some);
                    let mp = least_head(p)->0;
                    if m != mp {
                        assert(lex_lt(m, mp));
                        if lex_lt(items[k].0[0], m) {
                            lemma_lex_transitive(items[k].0[0], m, mp);
                        }
                    }
                } else {
                    assert(items[k] == it);
                    if m == it.0[0] {
                        lemma_lex_irreflexive(m);
                    }
                }
            }
        }
    }
}

/// Whitespace as `char::is_whitespace` defines it.
pub open spec fn is_white(c: char) -> bool {
    ||| c == '\t' || c == '\n' || c == '\x0b' || c == '\x0c' || c == '\r' || c == ' '
    ||| c == '\u{85}' || c == '\u{a0}' || c == '\u{1680}'
    ||| ('\u{2000}' <= c && c <= '\u{200a}')
    ||| c == '\u{2028}' || c == '\u{2029}' || c == '\u{202f}' || c == '\u{205f}' || c == '\u{3000}'
}

/// `s` without its leading whitespace.
pub open spec fn trim_start(s: Seq<char>) -> Seq<char>
    decreases s.len(),
{
    if s.len() > 0 && is_white(s[0]) {
        trim_start(s.drop_first())
    } else {
        s
    }
}

/// The declaration of `ty` in dialect `t`.
pub open spec fn decl_of(t: Target, s: Seq<TapiDyn>, ty: int) -> Result<Option<Seq<char>>, GenErrorKind> {
    match t {
        Target::Ts => ts::ts_decl(s, ty),
        Target::Js => js::js_decl(s, ty),
        Target::Fs => fs::fs_decl(s, ty),
    }
}

/// The first of `tys` whose declaration fails, if any.
pub open spec fn first_failure(t: Target, s: Seq<TapiDyn>, tys: Seq<DynTapi>) -> Option<int>
    decreases tys.len(),
{
    if tys.len() == 0 {
        None
    } else {
        match first_failure(t, s, tys.drop_last()) {
            Some(i) => Some(i),
            None => if decl_of(t, s, tys.last() as int) is Err {
                Some(tys.len() - 1)
            } else {
                None
            },
        }
    }
}

/// The namespace items of `tys`: each one's module path and declaration.
pub open spec fn items_of(t: Target, s: Seq<TapiDyn>, tys: Seq<DynTapi>) -> Seq<NsItem> {
    tys.map_values(
        |ty: DynTapi|
            (
                views(s[ty as int].path@),
                match decl_of(t, s, ty as int) {
                    Ok(Some(d)) => Some(d),
                    _ => None,
                },
            ),
    )
}

/// A declaration waiting to be placed, with its remaining module path.
#[derive(Clone, Debug)]
pub struct NsEntry {
    pub path: Vec<String>,
    pub decl: Option<String>,
}

pub open spec fn entry_view(e: NsEntry) -> NsItem {
    (
        views(e.path@),
        match e.decl {
            Some(d) => Some(d@),
            None => None,
        },
    )
}

pub open spec fn entries_view(es: Seq<NsEntry>) -> Seq<NsItem> {
    es.map_values(|e: NsEntry| entry_view(e))
}

pub proof fn lemma_first_failure_prefix(t: Target, s: Seq<TapiDyn>, tys: Seq<DynTapi>, k: int, i: int)
    requires
        0 <= k <= tys.len(),
        first_failure(t, s, tys.take(k)) == Some(i),
    ensures
        first_failure(t, s, tys) == Some(i),
    decreases tys.len() - k,
{
    if k == tys.len() {
        assert(tys.take(k) =~= tys);
    } else {
        let p = tys.drop_last();
        assert(p.take(k) =~= tys.take(k));
        lemma_first_failure_prefix(t, s, p, k, i);
    }
}

fn is_white_char(c: char) -> (r: bool)
    ensures
        r == is_white(c),
{
    c == '\t' || c == '\n' || c == '\x0b' || c == '\x0c' || c == '\r' || c == ' ' || c == '\u{85}'
        || c == '\u{a0}' || c == '\u{1680}' || ('\u{2000}' <= c && c <= '\u{200a}') || c
        == '\u{2028}' || c == '\u{2029}' || c == '\u{202f}' || c == '\u{205f}' || c == '\u{3000}'
}

/// `s` without its leading whitespace.
pub fn trim_start_text(s: &str) -> (r: String)
    ensures
        r@ == trim_start(s@),
{
    let n = s.unicode_len();
    let mut i: usize = 0;
    assert(s@.subrange(0, n as int) =~= s@);
    while i < n && is_white_char(s.get_char(i))
        invariant
            n == s@.len(),
            0 <= i <= n,
            trim_start(s@) == trim_start(s@.subrange(i as int, n as int)),
        decreases n - i,
    {
        assert(s@.subrange(i as int, n as int).drop_first() =~= s@.subrange(i + 1, n as int));
        i = i + 1;
    }
    String::from_str(s.substring_char(i, n))
}

fn tail_strings(p: &Vec<String>) -> (r: Vec<String>)
    requires
        p@.len() > 0,
    ensures
        views(r@) == views(p@).drop_first(),
{
    let mut r: Vec<String> = Vec::new();
    let mut i: usize = 1;
    while i < p.len()
        invariant
            1 <= i <= p@.len(),
            views(r@) == views(p@).subrange(1, i as int),
        decreases p@.len() - i,
    {
        let ghost before = r@;
        let c = p[i].clone();
        r.push(c);
        assert(views(r@) =~= views(before).push(p@[i as int]@));
        assert(views(r@) =~= views(p@).subrange(1, i + 1));
        i = i + 1;
    }
    r
}

fn clone_decl(d: &Option<String>) -> (r: Option<String>)
    ensures
        match (r, *d) {
            (Some(a), Some(b)) => a@ == b@,
            (None, None) => true,
            _ => false,
        },
{
    match d {
        Some(x) => Some(x.clone()),
        None => None,
    }
}

fn push_own_decls(out: &mut String, items: &Vec<NsEntry>, depth: usize)
    ensures
        final(out)@ == old(out)@ + own_decls(entries_view(items@), indentation(depth as nat)),
{
    let ghost ev = entries_view(items@);
    let ghost ind = indentation(depth as nat);
    let mut i: usize = 0;
    assert(ev.take(0) =~= Seq::<NsItem>::empty());
    while i < items.len()
        invariant
            0 <= i <= items@.len(),
            ev == entries_view(items@),
            ind == indentation(depth as nat),
            out@ == old(out)@ + own_decls(ev.take(i as int), ind),
        decreases items@.len() - i,
    {
        let e = &items[i];
        proof {
            assert(ev.take(i + 1).drop_last() =~= ev.take(i as int));
            assert(ev.take(i + 1).last() == entry_view(items@[i as int]));
        }
        let ghost before = out@;
        if e.path.len() == 0 {
            match &e.decl {
                Some(d) => {
                    push_indented(out, d.as_str(), depth);
                },
                None => {},
            }
        }
        assert(out@ =~= old(out)@ + own_decls(ev.take(i + 1), ind));
        i = i + 1;
    }
    assert(ev.take(items@.len() as int) =~= ev);
}

fn least_head_exec(items: &Vec<NsEntry>) -> (r: Option<String>)
    ensures
        match r {
            Some(m) => least_head(entries_view(items@)) == Some(m@),
            None => least_head(entries_view(items@)) is None,
        },
{
    let ghost ev = entries_view(items@);
    let mut best: Option<String> = None;
    let mut i: usize = 0;
    while i < items.len()
        invariant
            0 <= i <= items@.len(),
            ev == entries_view(items@),
            match best {
                Some(m) => least_head(ev.take(i as int)) == Some(m@),
                None => least_head(ev.take(i as int)) is None,
            },
        decreases items@.len() - i,
    {
        let e = &items[i];
        proof {
            assert(ev.take(i + 1).drop_last() =~= ev.take(i as int));
            assert(ev.take(i + 1).last() == entry_view(items@[i as int]));
        }
        if e.path.len() > 0 {
            assert(views(e.path@)[0] == e.path@[0]@);
            let h = &e.path[0];
            let replace = match &best {
                None => true,
                Some(m) => str_lt(h.as_str(), m.as_str()),
            };
            if replace {
                best = Some(h.clone());
            }
        }
        i = i + 1;
    }
    assert(ev.take(items@.len() as int) =~= ev);
    best
}

fn split(items: &Vec<NsEntry>, m: &String) -> (r: (Vec<NsEntry>, Vec<NsEntry>))
    ensures
        entries_view(r.0@) == under(entries_view(items@), m@),
        entries_view(r.1@) == outside(entries_view(items@), m@),
{
    let ghost ev = entries_view(items@);
    let mut inner: Vec<NsEntry> = Vec::new();
    let mut rest: Vec<NsEntry> = Vec::new();
    let mut i: usize = 0;
    while i < items.len()
        invariant
            0 <= i <= items@.len(),
            ev == entries_view(items@),
            entries_view(inner@) == under(ev.take(i as int), m@),
            entries_view(rest@) == outside(ev.take(i as int), m@),
        decreases items@.len() - i,
    {
        let e = &items[i];
        proof {
            assert(ev.take(i + 1).drop_last() =~= ev.take(i as int));
            assert(ev.take(i + 1).last() == entry_view(items@[i as int]));
        }
        let inside = e.path.len() > 0 && str_eq(e.path[0].as_str(), m.as_str());
        if e.path.len() > 0 {
            assert(views(e.path@)[0] == e.path@[0]@);
        }
        if inside {
            let moved = NsEntry { path: tail_strings(&e.path), decl: clone_decl(&e.decl) };
            let ghost before = inner@;
            inner.push(moved);
            assert(entries_view(inner@) =~= entries_view(before).push(entry_view(moved)));
        } else {
            let path = clone_strings(&e.path);
            assert(views(path@) =~= views(e.path@));
            let kept = NsEntry { path, decl: clone_decl(&e.decl) };
            let ghost before = rest@;
            rest.push(kept);
            assert(entries_view(rest@) =~= entries_view(before).push(entry_view(kept)));
        }
        i = i + 1;
    }
    assert(ev.take(items@.len() as int) =~= ev);
    (inner, rest)
}

/// The static text that precedes a dialect's declarations.
pub open spec fn prelude_of(t: Target) -> Seq<char> {
    match t {
        Target::Ts => TS_PRELUDE@,
        Target::Js => JS_PRELUDE@,
        Target::Fs => FS_PRELUDE@,
    }
}

impl TypesBuilder {
    /// A builder for `target` with that dialect's prelude.
    pub fn new(target: Target) -> (r: TypesBuilder)
        ensures
            r.target == target,
            r.prelude@ == prelude_of(target),
    {
        let prelude = match target {
            Target::Ts => String::from_str(TS_PRELUDE),
            Target::Js => String::from_str(JS_PRELUDE),
            Target::Fs => String::from_str(FS_PRELUDE),
        };
        TypesBuilder { prelude, target }
    }

    fn open_line(&self, m: &str) -> (r: String)
        ensures
            r@ == ns_open(self.target, m@),
    {
        let mut r = String::new();
        match self.target {
            Target::Ts => {
                push_str(&mut r, "export namespace ");
                push_str(&mut r, m);
                push_str(&mut r, " {");
            },
            Target::Js => {},
            Target::Fs => {
                push_str(&mut r, "module ");
                push_str(&mut r, m);
                push_str(&mut r, " =");
            },
        }
        assert(r@ =~= ns_open(self.target, m@));
        r
    }

    fn close_line(&self) -> (r: &'static str)
        ensures
            r@ == ns_close(self.target),
    {
        proof {
            reveal_strlit("}");
            reveal_strlit("");
        }
        let r = match self.target {
            Target::Ts => "}",
            _ => "",
        };
        assert(r@ =~= ns_close(self.target));
        r
    }

    fn render_ns_exec(&self, items: &Vec<NsEntry>, depth: usize, out: &mut String)
        requires
            depth_fits(entries_view(items@), depth as int),
        ensures
            final(out)@ == old(out)@ + render_ns(self.target, entries_view(items@), depth as nat),
        decreases weight(entries_view(items@)), 1nat,
    {
        push_own_decls(out, items, depth);
        self.render_children_exec(items, depth, out);
    }

    #[verifier::rlimit(40)]
    fn render_children_exec(&self, items: &Vec<NsEntry>, depth: usize, out: &mut String)
        requires
            depth_fits(entries_view(items@), depth as int),
        ensures
            final(out)@ == old(out)@ + render_children(self.target, entries_view(items@), depth as nat),
        decreases weight(entries_view(items@)), 0nat,
    {
        let ghost ev = entries_view(items@);
        match least_head_exec(items) {
            None => {
                assert(out@ =~= old(out)@ + render_children(self.target, ev, depth as nat));
            },
            Some(m) => {
                proof {
                    lemma_weight_split(ev, m@);
                    lemma_least_head_nonempty(ev);
                    lemma_depth_split(ev, m@, depth as int);
                    let k = choose|k: int|
                        0 <= k < ev.len() && (#[trigger] ev[k]).0.len() > 0 && ev[k].0[0] == m@;
                    assert(depth + ev[k].0.len() <= usize::MAX);
                }
                let (inner, rest) = split(items, &m);
                let ghost start = out@;
                push_indentation(out, depth);
                let open = self.open_line(m.as_str());
                push_str(out, open.as_str());
                push_char(out, '\n');
                let ghost mid1 = out@;
                self.render_ns_exec(&inner, depth + 1, out);
                let ghost mid2 = out@;
                push_indentation(out, depth);
                push_str(out, self.close_line());
                push_char(out, '\n');
                let ghost mid3 = out@;
                self.render_children_exec(&rest, depth, out);
                proof {
                    let t = self.target;
                    let ind = indentation(depth as nat);
                    reveal_strlit("\n");
                    assert(seq!['\n'] =~= "\n"@);
                    let a = ind + ns_open(t, m@) + "\n"@;
                    let b = render_ns(t, under(ev, m@), (depth + 1) as nat);
                    let c = ind + ns_close(t) + "\n"@;
                    let d = render_children(t, outside(ev, m@), depth as nat);
                    assert(mid1 =~= start + a);
                    assert(mid2 == mid1 + b);
                    assert(mid3 =~= mid2 + c);
                    assert(out@ == mid3 + d);
                    assert(render_children(t, ev, depth as nat) == a + b + c + d);
                    assert(out@ =~= old(out)@ + (a + b + c + d));
                }
            },
        }
    }

    fn decl(&self, types: &Types, ty: DynTapi) -> (r: Result<Option<String>, GenError>)
        requires
            types.wf(),
            ty < types@.len(),
        ensures
            decl_outcome(types@, ty as int, r, decl_of(self.target, types@, ty as int)),
    {
        match self.target {
            Target::Ts => ts::ty_decl(types, ty),
            Target::Js => js::ty_decl(types, ty),
            Target::Fs => fs::ty_decl(types, ty),
        }
    }

    /// The prelude without its leading whitespace, then the declarations of
    /// `tys` nested by module path; or the error of the first of `tys` whose
    /// declaration fails.
    pub fn types(&self, types: &Types, tys: &Vec<DynTapi>) -> (r: Result<String, GenError>)
        requires
            types.wf(),
            all_below(tys@, types@.len() as int),
        ensures
            match r {
                Ok(out) => first_failure(self.target, types@, tys@) is None && out@ == trim_start(
                    self.prelude@,
                ) + render_ns(self.target, items_of(self.target, types@, tys@), 0),
                Err(e) => match first_failure(self.target, types@, tys@) {
                    Some(i) => 0 <= i < tys@.len() && decl_outcome(
                        types@,
                        tys@[i] as int,
                        Err(e),
                        decl_of(self.target, types@, tys@[i] as int),
                    ),
                    None => false,
                },
            },
    {
        let ghost s = types@;
        let ghost t = self.target;
        let mut entries: Vec<NsEntry> = Vec::new();
        let mut i: usize = 0;
        assert(tys@.take(0) =~= Seq::<DynTapi>::empty());
        while i < tys.len()
            invariant
                types.wf(),
                s == types@,
                t == self.target,
                all_below(tys@, s.len() as int),
                0 <= i <= tys@.len(),
                first_failure(t, s, tys@.take(i as int)) is None,
                entries_view(entries@) == items_of(t, s, tys@.take(i as int)),
                depth_fits(entries_view(entries@), 0),
            decreases tys@.len() - i,
        {
            let ty = tys[i];
            proof {
                assert(tys@.take(i + 1).drop_last() =~= tys@.take(i as int));
                assert(tys@.take(i + 1).last() == ty);
            }
            match self.decl(types, ty) {
                Err(e) => {
                    proof {
                        assert(first_failure(t, s, tys@.take(i + 1)) == Some(i as int));
                        lemma_first_failure_prefix(t, s, tys@, i + 1, i as int);
                    }
                    return Err(e);
                },
                Ok(d) => {
                    let path = clone_strings(&types.get(ty).path);
                    assert(views(path@) =~= views(s[ty as int].path@));
                    let _len = path.len();
                    let entry = NsEntry { path, decl: d };
                    let ghost before = entries@;
                    entries.push(entry);
                    proof {
                        assert(entries_view(entries@) =~= entries_view(before).push(entry_view(entry)));
                        assert(items_of(t, s, tys@.take(i + 1)) =~= items_of(t, s, tys@.take(i as int)).push(
                            entry_view(entry),
                        ));
                        let ev = entries_view(entries@);
                        assert forall|k: int| 0 <= k < ev.len() implies 0 + (#[trigger] ev[k]).0.len()
                            <= usize::MAX by {
                            if k < before.len() {
                                assert(ev[k] == entries_view(before)[k]);
                            }
                        }
                    }
                },
            }
            i = i + 1;
        }
        assert(tys@.take(tys@.len() as int) =~= tys@);
        let mut out = trim_start_text(self.prelude.as_str());
        self.render_ns_exec(&entries, 0, &mut out);
        Ok(out)
    }
}

pub const TS_PRELUDE: &'static str = "
type RequestKind = \"none\" | \"query\" | \"json\";
type ResponseKind = \"text\" | \"bytes\" | \"json\" | \"html\" | \"sse\" | \"none\";

export const request = <Req, Res>(
  kind: RequestKind,
  method: string,
  path: string,
  res: ResponseKind,
) => (req: Req, opts?: RequestInit): Promise<Res> => {
  let url = path;
  const init: RequestInit = { ...opts, method };
  if (kind == \"query\") {
    url += \"?\" + new URLSearchParams(req as Record<string, string>).toString();
  } else if (kind == \"json\") {
    init.body = JSON.stringify(req);
    init.headers = { ...init.headers, \"Content-Type\": \"application/json\" };
  }
  return fetch(url, init).then((r) => {
    if (res == \"json\") return r.json();
    if (res == \"bytes\") return r.arrayBuffer();
    if (res == \"none\") return undefined;
    return r.text();
  }) as Promise<Res>;
};

export const sse = <Params extends unknown[], T>(
  url: (...params: Params) => string,
  kind: \"json\",
) => (...params: Params) => {
  const source = new EventSource(url(...params));
  return {
    source,
    listen: (f: (event: T) => void) => {
      source.onmessage = (e) => f(JSON.parse(e.data));
    },
  };
};

";

pub const JS_PRELUDE: &'static str = "
/**
 * @template Req, Res
 * @param {\"none\" | \"query\" | \"json\"} kind
 * @param {string} method
 * @param {string} path
 * @param {\"text\" | \"bytes\" | \"json\" | \"html\" | \"sse\" | \"none\"} res
 * @returns {(req: Req, opts?: RequestInit) => Promise<Res>}
 */
export const request = (kind, method, path, res) => (req, opts) => {
  let url = path;
  const init = { ...opts, method };
  if (kind == \"query\") {
    url += \"?\" + new URLSearchParams(req).toString();
  } else if (kind == \"json\") {
    init.body = JSON.stringify(req);
    init.headers = { ...init.headers, \"Content-Type\": \"application/json\" };
  }
  return fetch(url, init).then((r) => {
    if (res == \"json\") return r.json();
    if (res == \"bytes\") return r.arrayBuffer();
    if (res == \"none\") return undefined;
    return r.text();
  });
};

";

pub const FS_PRELUDE: &'static str = "
namespace Api

open System.Text.Json.Serialization

";

} // verus!
