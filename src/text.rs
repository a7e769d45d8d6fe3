//! Text building blocks shared by the renderers: joining, qualification by a
//! module path, quoting, indentation, and the case conversions of `heck`.
use vstd::prelude::*;
use vstd::string::*;

verus! {

/// `parts` with `sep` between each two neighbours.
pub open spec fn join(parts: Seq<Seq<char>>, sep: Seq<char>) -> Seq<char>
    decreases parts.len(),
{
    if parts.len() == 0 {
        Seq::empty()
    } else if parts.len() == 1 {
        parts[0]
    } else {
        join(parts.drop_last(), sep) + sep + parts.last()
    }
}

pub proof fn lemma_join_push(parts: Seq<Seq<char>>, sep: Seq<char>, x: Seq<char>)
    ensures
        join(parts.push(x), sep) == if parts.len() == 0 {
            x
        } else {
            join(parts, sep) + sep + x
        },
{
    assert(parts.push(x).drop_last() =~= parts);
}

/// `name` qualified by a module path: `a.b.name` for the path `[a, b]`.
pub open spec fn qualify(path: Seq<Seq<char>>, name: Seq<char>) -> Seq<char>
    decreases path.len(),
{
    if path.len() == 0 {
        name
    } else {
        path[0] + "."@ + qualify(path.drop_first(), name)
    }
}

/// The views of a list of strings.
pub open spec fn views(p: Seq<String>) -> Seq<Seq<char>> {
    p.map_values(|s: String| s@)
}

/// The spelling that `{:?}` gives a string: quoted, with escapes.
pub uninterp spec fn debug_quoted(s: Seq<char>) -> Seq<char>;

/// `s` in SHOUTY_SNAKE_CASE, as `heck` writes it.
pub uninterp spec fn shouty_snake(s: Seq<char>) -> Seq<char>;

/// `s` in lowerCamelCase, as `heck` writes it.
pub uninterp spec fn lower_camel(s: Seq<char>) -> Seq<char>;

/// Relies on `<str as Debug>::fmt` to quote and escape a string.
#[verifier::external_body]
pub(crate) fn quoted(s: &str) -> (r: String)
    ensures
        r@ == debug_quoted(s@),
{
    format!("{:?}", s)
}

/// Relies on `heck::AsShoutySnakeCase`; the empty string stays empty.
#[verifier::external_body]
pub(crate) fn to_shouty_snake(s: &str) -> (r: String)
    ensures
        r@ == shouty_snake(s@),
        s@.len() == 0 ==> r@.len() == 0,
{
    heck::AsShoutySnakeCase(s).to_string()
}

/// Relies on `heck::AsLowerCamelCase`; the empty string stays empty.
#[verifier::external_body]
pub(crate) fn to_lower_camel(s: &str) -> (r: String)
    ensures
        r@ == lower_camel(s@),
        s@.len() == 0 ==> r@.len() == 0,
{
    heck::AsLowerCamelCase(s).to_string()
}

/// Appends `t` to `s`.
pub fn push_str(s: &mut String, t: &str)
    ensures
        final(s)@ == old(s)@ + t@,
{
    s.append(t);
}

/// Relies on `String::push`: appends one character.
#[verifier::external_body]
pub(crate) fn push_char(s: &mut String, c: char)
    ensures
        final(s)@ == old(s)@.push(c),
{
    s.push(c);
}

/// The decimal digits of `n`.
pub open spec fn decimal(n: nat) -> Seq<char>
    decreases n,
{
    if n < 10 {
        seq![digit(n)]
    } else {
        decimal(n / 10).push(digit(n % 10))
    }
}

pub open spec fn digit(d: nat) -> char {
    ((d % 10) + 48) as char
}

fn digit_str(d: usize) -> (r: &'static str)
    requires
        d < 10,
    ensures
        r@ == seq![digit(d as nat)],
{
    proof {
        reveal_strlit("0");
        reveal_strlit("1");
        reveal_strlit("2");
        reveal_strlit("3");
        reveal_strlit("4");
        reveal_strlit("5");
        reveal_strlit("6");
        reveal_strlit("7");
        reveal_strlit("8");
        reveal_strlit("9");
    }
    let r = match d {
        0 => "0",
        1 => "1",
        2 => "2",
        3 => "3",
        4 => "4",
        5 => "5",
        6 => "6",
        7 => "7",
        8 => "8",
        _ => "9",
    };
    assert(r@ =~= seq![digit(d as nat)]);
    r
}

/// `n` written in decimal.
pub fn to_decimal(n: usize) -> (r: String)
    ensures
        r@ == decimal(n as nat),
    decreases n,
{
    if n < 10 {
        String::from_str(digit_str(n))
    } else {
        let mut s = to_decimal(n / 10);
        push_str(&mut s, digit_str(n % 10));
        s
    }
}

/// Each line of `s` prefixed by `ind` and ended by a newline; `at_start`
/// says whether the text before `s` ended a line.
pub open spec fn indent_text(s: Seq<char>, ind: Seq<char>, at_start: bool) -> Seq<char>
    decreases s.len(),
{
    if s.len() == 0 {
        if at_start {
            Seq::empty()
        } else {
            seq!['\n']
        }
    } else {
        (if at_start {
            ind
        } else {
            Seq::empty()
        }) + seq![s[0]] + indent_text(s.drop_first(), ind, s[0] == '\n')
    }
}

/// Two spaces for each level of `depth`.
pub open spec fn indentation(depth: nat) -> Seq<char>
    decreases depth,
{
    if depth == 0 {
        Seq::empty()
    } else {
        indentation((depth - 1) as nat) + "  "@
    }
}

pub fn push_indentation(out: &mut String, depth: usize)
    ensures
        final(out)@ == old(out)@ + indentation(depth as nat),
{
    let mut i: usize = 0;
    while i < depth
        invariant
            0 <= i <= depth,
            out@ == old(out)@ + indentation(i as nat),
        decreases depth - i,
    {
        proof {
            reveal_strlit("  ");
        }
        push_str(out, "  ");
        assert(out@ =~= old(out)@ + indentation((i + 1) as nat));
        i = i + 1;
    }
}

/// Appends `s` with each line indented to `depth` and newline-terminated.
pub fn push_indented(out: &mut String, s: &str, depth: usize)
    ensures
        final(out)@ == old(out)@ + indent_text(s@, indentation(depth as nat), true),
{
    let ghost ind = indentation(depth as nat);
    let n = s.unicode_len();
    let mut i: usize = 0;
    let mut at_start = true;
    assert(s@.subrange(0, n as int) =~= s@);
    while i < n
        invariant
            n == s@.len(),
            0 <= i <= n,
            ind == indentation(depth as nat),
            out@ + indent_text(s@.subrange(i as int, n as int), ind, at_start) == old(out)@
                + indent_text(s@, ind, true),
        decreases n - i,
    {
        let c = s.get_char(i);
        let ghost rest = s@.subrange(i as int, n as int);
        assert(rest.drop_first() =~= s@.subrange(i + 1, n as int));
        if at_start {
            push_indentation(out, depth);
        }
        let ghost before = out@;
        push_char(out, c);
        assert(out@ == before + seq![c]);
        proof {
            assert(rest[0] == c);
            assert(indent_text(rest, ind, at_start) == (if at_start {
                ind
            } else {
                Seq::empty()
            }) + seq![c] + indent_text(rest.drop_first(), ind, c == '\n'));
            assert(out@ + indent_text(s@.subrange(i + 1, n as int), ind, c == '\n') =~= old(out)@
                + indent_text(s@, ind, true));
        }
        at_start = c == '\n';
        i = i + 1;
    }
    assert(s@.subrange(n as int, n as int) =~= Seq::<char>::empty());
    if !at_start {
        push_char(out, '\n');
    }
    assert(out@ =~= old(out)@ + indent_text(s@, ind, true));
}

/// Lexicographic order on character sequences, by code point.
pub open spec fn lex_lt(a: Seq<char>, b: Seq<char>) -> bool
    decreases a.len(),
{
    if a.len() == 0 {
        b.len() > 0
    } else if b.len() == 0 {
        false
    } else if a[0] != b[0] {
        (a[0] as u32) < (b[0] as u32)
    } else {
        lex_lt(a.drop_first(), b.drop_first())
    }
}

/// Whether `a` sorts strictly before `b`.
pub fn str_lt(a: &str, b: &str) -> (r: bool)
    ensures
        r == lex_lt(a@, b@),
{
    let na = a.unicode_len();
    let nb = b.unicode_len();
    let mut i: usize = 0;
    assert(a@.subrange(0, na as int) =~= a@);
    assert(b@.subrange(0, nb as int) =~= b@);
    while i < na && i < nb
        invariant
            na == a@.len(),
            nb == b@.len(),
            0 <= i <= na,
            i <= nb,
            lex_lt(a@, b@) == lex_lt(a@.subrange(i as int, na as int), b@.subrange(i as int, nb as int)),
        decreases na - i,
    {
        let ca = a.get_char(i);
        let cb = b.get_char(i);
        let ghost ra = a@.subrange(i as int, na as int);
        let ghost rb = b@.subrange(i as int, nb as int);
        assert(ra[0] == ca && rb[0] == cb);
        if ca != cb {
            return (ca as u32) < (cb as u32);
        }
        assert(ra.drop_first() =~= a@.subrange(i + 1, na as int));
        assert(rb.drop_first() =~= b@.subrange(i + 1, nb as int));
        i = i + 1;
    }
    i == na && i < nb
}


/// `parts` joined with `sep` between neighbours.
pub fn join_strs(parts: &Vec<String>, sep: &str) -> (r: String)
    ensures
        r@ == join(views(parts@), sep@),
{
    let mut out = String::new();
    let mut i: usize = 0;
    assert(views(parts@.take(0)) =~= Seq::<Seq<char>>::empty());
    while i < parts.len()
        invariant
            0 <= i <= parts@.len(),
            out@ == join(views(parts@.take(i as int)), sep@),
        decreases parts@.len() - i,
    {
        proof {
            assert(views(parts@.take(i + 1)) =~= views(parts@.take(i as int)).push(parts@[i as int]@));
            lemma_join_push(views(parts@.take(i as int)), sep@, parts@[i as int]@);
        }
        if i > 0 {
            push_str(&mut out, sep);
        }
        push_str(&mut out, parts[i].as_str());
        i = i + 1;
    }
    assert(parts@.take(parts@.len() as int) =~= parts@);
    out
}

/// `name` qualified by the module path `path`.
pub fn qualified(path: &Vec<String>, name: String) -> (r: String)
    ensures
        r@ == qualify(views(path@), name@),
{
    let ghost all = views(path@);
    let mut r = name;
    let mut i: usize = path.len();
    assert(all.subrange(i as int, all.len() as int) =~= Seq::<Seq<char>>::empty());
    while i > 0
        invariant
            0 <= i <= path@.len(),
            all == views(path@),
            r@ == qualify(all.subrange(i as int, all.len() as int), name@),
        decreases i,
    {
        let ghost sub = all.subrange(i - 1, all.len() as int);
        assert(sub.drop_first() =~= all.subrange(i as int, all.len() as int));
        assert(sub[0] == path@[i - 1]@);
        let mut t = path[i - 1].clone();
        proof {
            reveal_strlit(".");
        }
        push_str(&mut t, ".");
        push_str(&mut t, r.as_str());
        r = t;
        i = i - 1;
    }
    assert(all.subrange(0, all.len() as int) =~= all);
    r
}

} // verus!
