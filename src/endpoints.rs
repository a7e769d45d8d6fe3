//! The endpoint model: one route's request and response shapes, the types
//! it roots, and its typed client call.
use vstd::prelude::*;
use vstd::string::*;

use crate::impls::{intern_builtin, intern_list};
use crate::kind::{BuiltinTypeKind, GenError, GenErrorKind, TypeKind};
use crate::text::{
    debug_quoted, join, join_strs, lower_camel, push_char, push_str, quoted, to_lower_camel, views,
};
use crate::builder::{decl_of, first_failure, items_of, render_ns, trim_start, Target, TS_PRELUDE};
use crate::targets::ts;
use crate::targets::ts::decl_outcome;
use crate::types::{
    all_below, arena_wf, find_name, lemma_find_stable, reachable, str_eq, DynTapi, Tapi, TapiDyn, Types,
};

verus! {

/// The interning key of `String`.
pub const STRING_NAME: &'static str = "alloc::string::String";

/// The interning key of `Vec<u8>`.
pub const BYTES_NAME: &'static str = "alloc::vec::Vec<u8>";

/// The interning key of `u8`.
pub const U8_NAME: &'static str = "u8";

/// The interning key of `()`.
pub const UNIT_NAME: &'static str = "()";

#[derive(Clone, Copy, Debug, PartialEq, Eq, Structural)]
pub enum Method {
    Get,
    Post,
    Put,
    Delete,
    Patch,
}

pub open spec fn method_text(m: Method) -> Seq<char> {
    match m {
        Method::Get => "GET"@,
        Method::Post => "POST"@,
        Method::Put => "PUT"@,
        Method::Delete => "DELETE"@,
        Method::Patch => "PATCH"@,
    }
}

impl Method {
    /// The method spelled `s`, if any.
    pub fn from_str(s: &str) -> (r: Option<Method>)
        ensures
            match r {
                Some(m) => method_text(m) == s@,
                None => forall|m: Method| method_text(m) != s@,
            },
    {
        if str_eq(s, "GET") {
            Some(Method::Get)
        } else if str_eq(s, "POST") {
            Some(Method::Post)
        } else if str_eq(s, "PUT") {
            Some(Method::Put)
        } else if str_eq(s, "DELETE") {
            Some(Method::Delete)
        } else if str_eq(s, "PATCH") {
            Some(Method::Patch)
        } else {
            assert forall|m: Method| method_text(m) != s@ by {
                match m {
                    Method::Get => {},
                    Method::Post => {},
                    Method::Put => {},
                    Method::Delete => {},
                    Method::Patch => {},
                }
            }
            None
        }
    }

    pub fn as_str(&self) -> (r: &'static str)
        ensures
            r@ == method_text(*self),
    {
        match self {
            Method::Get => "GET",
            Method::Post => "POST",
            Method::Put => "PUT",
            Method::Delete => "DELETE",
            Method::Patch => "PATCH",
        }
    }
}

/// How a request carries its body.
#[derive(Clone, Copy, Debug)]
pub enum RequestStructureBody {
    Query(DynTapi),
    Json(DynTapi),
    PlainText,
}

/// What a route's request is made of.
#[derive(Clone, Debug)]
pub struct RequestStructure {
    pub path: Option<DynTapi>,
    pub method: Method,
    pub body: Option<RequestStructureBody>,
}

/// One part of a request, as an extractor describes it.
#[derive(Clone, Copy, Debug)]
pub enum RequestTapi {
    Path(DynTapi),
    Query(DynTapi),
    Json(DynTapi),
    Empty,
}

/// The shape of a response.
#[derive(Clone, Copy, Debug)]
pub enum ResponseTapi {
    /// `text/plain; charset=utf-8`
    PlainText,
    /// `application/octet-stream`
    Bytes,
    /// `application/json`
    Json(DynTapi),
    /// `text/html`
    Html,
    /// `text/event-stream`
    Sse(DynTapi),
    Empty,
}

pub open spec fn body_handle(b: RequestStructureBody) -> Option<DynTapi> {
    match b {
        RequestStructureBody::Query(t) => Some(t),
        RequestStructureBody::Json(t) => Some(t),
        RequestStructureBody::PlainText => None,
    }
}

/// The handles a request mentions are in an arena of `len` nodes.
pub open spec fn request_fits(r: RequestStructure, len: int) -> bool {
    &&& (r.path matches Some(p) ==> p < len)
    &&& (r.body matches Some(b) ==> (body_handle(b) matches Some(t) ==> t < len))
}

pub open spec fn response_fits(r: ResponseTapi, len: int) -> bool {
    match r {
        ResponseTapi::Json(t) => t < len,
        ResponseTapi::Sse(t) => t < len,
        _ => true,
    }
}

pub open spec fn request_part_fits(r: RequestTapi, len: int) -> bool {
    match r {
        RequestTapi::Path(t) => t < len,
        RequestTapi::Query(t) => t < len,
        RequestTapi::Json(t) => t < len,
        RequestTapi::Empty => true,
    }
}

/// The node a response's shape stands for, in an arena where the
/// primitives it may need are interned.
pub open spec fn response_handle(s: Seq<TapiDyn>, r: ResponseTapi) -> int {
    match r {
        ResponseTapi::Json(t) => t as int,
        ResponseTapi::Sse(t) => t as int,
        ResponseTapi::PlainText | ResponseTapi::Html => find_name(s, STRING_NAME@)->0,
        ResponseTapi::Bytes => find_name(s, BYTES_NAME@)->0,
        ResponseTapi::Empty => find_name(s, UNIT_NAME@)->0,
    }
}

/// The node a request part stands for.
pub open spec fn request_part_handle(s: Seq<TapiDyn>, r: RequestTapi) -> int {
    match r {
        RequestTapi::Path(t) => t as int,
        RequestTapi::Query(t) => t as int,
        RequestTapi::Json(t) => t as int,
        RequestTapi::Empty => find_name(s, UNIT_NAME@)->0,
    }
}

/// The primitives a response stands for are interned in `s`.
pub open spec fn response_interned(s: Seq<TapiDyn>, r: ResponseTapi) -> bool {
    match r {
        ResponseTapi::PlainText | ResponseTapi::Html => find_name(s, STRING_NAME@) is Some,
        ResponseTapi::Bytes => find_name(s, U8_NAME@) is Some && find_name(s, BYTES_NAME@) is Some,
        ResponseTapi::Empty => find_name(s, UNIT_NAME@) is Some,
        _ => true,
    }
}

/// A response's node stays the same as the arena grows.
pub proof fn lemma_response_stable(s: Seq<TapiDyn>, s2: Seq<TapiDyn>, r: ResponseTapi)
    requires
        arena_wf(s2),
        s.is_prefix_of(s2),
        response_interned(s, r),
    ensures
        response_interned(s2, r),
        response_handle(s2, r) == response_handle(s, r),
{
    match r {
        ResponseTapi::PlainText | ResponseTapi::Html => lemma_find_stable(s, s2, STRING_NAME@),
        ResponseTapi::Bytes => {
            lemma_find_stable(s, s2, U8_NAME@);
            lemma_find_stable(s, s2, BYTES_NAME@);
        },
        ResponseTapi::Empty => lemma_find_stable(s, s2, UNIT_NAME@),
        _ => {},
    }
}

impl RequestStructure {
    /// A request with no path parameters and no body.
    pub fn new(method: Method) -> (r: RequestStructure)
        ensures
            r.path is None,
            r.method == method,
            r.body is None,
    {
        RequestStructure { path: None, method, body: None }
    }

    /// Takes in the part `req`: path parameters replace the path, a query
    /// or JSON body replaces the body.
    pub fn merge_with(&mut self, req: RequestTapi)
        ensures
            final(self).method == old(self).method,
            match req {
                RequestTapi::Path(t) => final(self).path == Some(t) && final(self).body == old(
                    self,
                ).body,
                RequestTapi::Query(t) => final(self).body == Some(RequestStructureBody::Query(t))
                    && final(self).path == old(self).path,
                RequestTapi::Json(t) => final(self).body == Some(RequestStructureBody::Json(t))
                    && final(self).path == old(self).path,
                RequestTapi::Empty => final(self).path == old(self).path && final(self).body == old(
                    self,
                ).body,
            },
    {
        match req {
            RequestTapi::Path(ty) => {
                self.path = Some(ty);
            },
            RequestTapi::Query(ty) => {
                self.body = Some(RequestStructureBody::Query(ty));
            },
            RequestTapi::Json(ty) => {
                self.body = Some(RequestStructureBody::Json(ty));
            },
            RequestTapi::Empty => {},
        }
    }
}

impl RequestTapi {
    /// The node this part stands for; `()` for no part.
    pub fn ty(self, types: &mut Types) -> (r: DynTapi)
        requires
            old(types).wf(),
            request_part_fits(self, old(types)@.len() as int),
        ensures
            final(types).wf(),
            old(types)@.is_prefix_of(final(types)@),
            r < final(types)@.len(),
            r == request_part_handle(final(types)@, self),
            self is Empty ==> find_name(final(types)@, UNIT_NAME@) == Some(r as int),
            !(self is Empty) ==> final(types)@ == old(types)@,
    {
        match self {
            RequestTapi::Path(ty) => ty,
            RequestTapi::Query(ty) => ty,
            RequestTapi::Json(ty) => ty,
            RequestTapi::Empty => intern_builtin(types, UNIT_NAME, BuiltinTypeKind::Unit),
        }
    }
}

impl ResponseTapi {
    /// The node this response stands for: `String` for text and HTML,
    /// `Vec<u8>` for bytes, `()` for no content.
    pub fn ty(self, types: &mut Types) -> (r: DynTapi)
        requires
            old(types).wf(),
            response_fits(self, old(types)@.len() as int),
        ensures
            final(types).wf(),
            old(types)@.is_prefix_of(final(types)@),
            r < final(types)@.len(),
            r == response_handle(final(types)@, self),
            response_interned(final(types)@, self),
            response_interned(old(types)@, self) ==> final(types)@ == old(types)@,
    {
        match self {
            ResponseTapi::PlainText => intern_builtin(types, STRING_NAME, BuiltinTypeKind::String),
            ResponseTapi::Bytes => {
                let ghost s0 = types@;
                let e = intern_builtin(types, U8_NAME, BuiltinTypeKind::U8);
                let ghost s1 = types@;
                let r = intern_list(types, BYTES_NAME, e);
                proof {
                    lemma_find_stable(s1, types@, U8_NAME@);
                    if response_interned(s0, self) {
                        lemma_find_stable(s0, s1, BYTES_NAME@);
                    }
                }
                r
            },
            ResponseTapi::Json(ty) => ty,
            ResponseTapi::Html => intern_builtin(types, STRING_NAME, BuiltinTypeKind::String),
            ResponseTapi::Sse(ty) => ty,
            ResponseTapi::Empty => intern_builtin(types, UNIT_NAME, BuiltinTypeKind::Unit),
        }
    }
}

/// A request extractor that can describe the part of a request it takes.
pub trait RequestTapiExtractor {
    fn extract_request(types: &mut Types) -> (r: RequestTapi)
        requires
            old(types).wf(),
        ensures
            final(types).wf(),
            old(types)@.is_prefix_of(final(types)@),
            request_part_fits(r, final(types)@.len() as int),
    ;
}

/// A response type that can describe its shape.
pub trait ResponseTapiExtractor {
    fn extract_response(types: &mut Types) -> (r: ResponseTapi)
        requires
            old(types).wf(),
        ensures
            final(types).wf(),
            old(types)@.is_prefix_of(final(types)@),
            response_fits(r, final(types)@.len() as int),
    ;
}

impl RequestTapiExtractor for () {
    fn extract_request(types: &mut Types) -> (r: RequestTapi) {
        assert(types@.is_prefix_of(types@));
        RequestTapi::Empty
    }
}

impl ResponseTapiExtractor for () {
    fn extract_response(types: &mut Types) -> (r: ResponseTapi) {
        assert(types@.is_prefix_of(types@));
        ResponseTapi::Empty
    }
}

impl ResponseTapiExtractor for String {
    fn extract_response(types: &mut Types) -> (r: ResponseTapi) {
        assert(types@.is_prefix_of(types@));
        ResponseTapi::PlainText
    }
}

impl ResponseTapiExtractor for Vec<u8> {
    fn extract_response(types: &mut Types) -> (r: ResponseTapi) {
        assert(types@.is_prefix_of(types@));
        ResponseTapi::Bytes
    }
}


/// `p` split at each `/`, as `str::split('/')` splits it.
pub open spec fn split_slash(p: Seq<char>) -> Seq<Seq<char>>
    decreases p.len(),
{
    if p.len() == 0 {
        seq![Seq::empty()]
    } else {
        let r = split_slash(p.drop_last());
        if p.last() == '/' {
            r.push(Seq::empty())
        } else {
            r.drop_last().push(r.last().push(p.last()))
        }
    }
}

pub proof fn lemma_split_nonempty(p: Seq<char>)
    ensures
        split_slash(p).len() > 0,
    decreases p.len(),
{
    if p.len() > 0 {
        lemma_split_nonempty(p.drop_last());
    }
}

/// The placeholder names (`:name` segments) of a path, in order.
pub open spec fn params_of(segs: Seq<Seq<char>>) -> Seq<Seq<char>>
    decreases segs.len(),
{
    if segs.len() == 0 {
        Seq::empty()
    } else {
        let r = params_of(segs.drop_last());
        let g = segs.last();
        if g.len() > 0 && g[0] == ':' {
            r.push(g.drop_first())
        } else {
            r
        }
    }
}

/// The path as a template literal body: `/${name}` for each placeholder.
pub open spec fn template_of(segs: Seq<Seq<char>>) -> Seq<char>
    decreases segs.len(),
{
    if segs.len() == 0 {
        Seq::empty()
    } else {
        let r = template_of(segs.drop_last());
        let g = segs.last();
        if g.len() == 0 {
            r
        } else if g[0] == ':' {
            r + "/${"@ + g.drop_first() + "}"@
        } else {
            r + "/"@ + g
        }
    }
}

/// The segments of `p` between slashes.
pub fn split_path(p: &str) -> (r: Vec<String>)
    ensures
        views(r@) == split_slash(p@),
{
    let n = p.unicode_len();
    let mut done: Vec<String> = Vec::new();
    let mut cur = String::new();
    let mut i: usize = 0;
    assert(p@.take(0) =~= Seq::<char>::empty());
    assert(views(done@).push(cur@) =~= split_slash(p@.take(0)));
    while i < n
        invariant
            n == p@.len(),
            0 <= i <= n,
            views(done@).push(cur@) == split_slash(p@.take(i as int)),
        decreases n - i,
    {
        let c = p.get_char(i);
        proof {
            assert(p@.take(i + 1).drop_last() =~= p@.take(i as int));
            assert(p@.take(i + 1).last() == c);
        }
        let ghost before_done = views(done@);
        let ghost before_cur = cur@;
        if c == '/' {
            let finished = cur;
            done.push(finished);
            cur = String::new();
            assert(views(done@) =~= before_done.push(before_cur));
            assert(views(done@).push(cur@) =~= split_slash(p@.take(i + 1)));
        } else {
            push_char(&mut cur, c);
            let ghost prev = before_done.push(before_cur);
            assert(prev.drop_last() =~= before_done);
            assert(views(done@).push(cur@) =~= split_slash(p@.take(i + 1)));
        }
        i = i + 1;
    }
    assert(p@.take(n as int) =~= p@);
    let ghost before_done = views(done@);
    done.push(cur);
    assert(views(done@) =~= before_done.push(cur@));
    done
}

/// The placeholder names of `segs` and its template literal body.
pub fn placeholders(segs: &Vec<String>) -> (r: (Vec<String>, String))
    ensures
        views(r.0@) == params_of(views(segs@)),
        r.1@ == template_of(views(segs@)),
{
    let ghost vs = views(segs@);
    let mut params: Vec<String> = Vec::new();
    let mut text = String::new();
    let mut i: usize = 0;
    assert(vs.take(0) =~= Seq::<Seq<char>>::empty());
    while i < segs.len()
        invariant
            vs == views(segs@),
            0 <= i <= segs@.len(),
            views(params@) == params_of(vs.take(i as int)),
            text@ == template_of(vs.take(i as int)),
        decreases segs@.len() - i,
    {
        let g = segs[i].as_str();
        proof {
            assert(vs.take(i + 1).drop_last() =~= vs.take(i as int));
            assert(vs.take(i + 1).last() == g@);
        }
        let len = g.unicode_len();
        if len > 0 {
            if g.get_char(0) == ':' {
                let name = g.substring_char(1, len);
                assert(name@ =~= g@.drop_first());
                let ghost before = views(params@);
                params.push(String::from_str(name));
                assert(views(params@) =~= before.push(name@));
                push_str(&mut text, "/${");
                push_str(&mut text, name);
                push_str(&mut text, "}");
            } else {
                push_str(&mut text, "/");
                push_str(&mut text, g);
            }
        }
        assert(text@ =~= template_of(vs.take(i + 1)));
        i = i + 1;
    }
    assert(vs.take(segs@.len() as int) =~= vs);
    (params, text)
}

/// The wire names of a struct's fields, in declaration order.
pub open spec fn field_names(fields: Seq<crate::kind::Field>) -> Seq<Seq<char>> {
    fields.map_values(|f: crate::kind::Field| f.attr.name.serialize_name@)
}

/// Path parameters of type `p` fill the placeholders `params`: a tuple or
/// tuple struct one per element, a struct one per field with the fields'
/// names in order, any other type exactly one.
pub open spec fn params_match(s: Seq<TapiDyn>, p: int, params: Seq<Seq<char>>) -> bool {
    match s[p].kind {
        TypeKind::Tuple(tys) => tys@.len() == params.len(),
        TypeKind::TupleStruct(st) => st.fields@.len() == params.len(),
        TypeKind::Struct(st) => field_names(st.fields@) == params,
        _ => params.len() == 1,
    }
}

fn check_params(types: &Types, p: DynTapi, params: &Vec<String>) -> (r: bool)
    requires
        p < types@.len(),
    ensures
        r == params_match(types@, p as int, views(params@)),
{
    match &types.get(p).kind {
        TypeKind::Tuple(tys) => tys.len() == params.len(),
        TypeKind::TupleStruct(st) => st.fields.len() == params.len(),
        TypeKind::Struct(st) => {
            let ghost names = field_names(st.fields@);
            if st.fields.len() != params.len() {
                assert(names.len() != views(params@).len());
                return false;
            }
            let mut i: usize = 0;
            while i < params.len()
                invariant
                    p < types@.len(),
                    types@[p as int].kind == TypeKind::Struct(*st),
                    names == field_names(st.fields@),
                    st.fields@.len() == params@.len(),
                    0 <= i <= params@.len(),
                    forall|k: int| 0 <= k < i ==> names[k] == views(params@)[k],
                decreases params@.len() - i,
            {
                if !str_eq(st.fields[i].attr.name.serialize_name.as_str(), params[i].as_str()) {
                    assert(names[i as int] != views(params@)[i as int]);
                    return false;
                }
                i = i + 1;
            }
            assert(names =~= views(params@));
            true
        },
        _ => params.len() == 1,
    }
}

/// One route: its path pattern (with `:name` placeholders) and the shapes
/// of its request and response.
#[derive(Clone, Debug)]
pub struct Route {
    pub path: String,
    pub request: RequestStructure,
    pub response: ResponseTapi,
}

/// The handles a route mentions are in an arena of `len` nodes.
pub open spec fn route_fits(r: Route, len: int) -> bool {
    request_fits(r.request, len) && response_fits(r.response, len)
}

/// The types a route roots: its path parameters, its body, its response.
pub open spec fn route_roots(s: Seq<TapiDyn>, r: Route) -> Seq<DynTapi> {
    (match r.request.path {
        Some(p) => seq![p],
        None => Seq::empty(),
    }) + (match r.request.body {
        Some(b) => match body_handle(b) {
            Some(t) => seq![t],
            None => Seq::empty(),
        },
        None => Seq::empty(),
    }) + seq![response_handle(s, r.response) as DynTapi]
}

/// The route's placeholders do not match its path parameters.
/// A streaming route with no body builds its path from its parameters, so
/// it has placeholders only where it has path parameters.
pub open spec fn path_mismatch(s: Seq<TapiDyn>, r: Route) -> bool {
    match r.request.path {
        Some(p) => !params_match(s, p as int, params_of(split_slash(r.path@))),
        None => r.request.body is None && r.response is Sse && params_of(split_slash(r.path@)).len()
            > 0,
    }
}

pub open spec fn body_name(s: Seq<TapiDyn>, b: Option<RequestStructureBody>) -> Seq<char> {
    match b {
        Some(RequestStructureBody::Query(t)) => crate::targets::ts::ts_full_name(s, t as int),
        Some(RequestStructureBody::Json(t)) => crate::targets::ts::ts_full_name(s, t as int),
        _ => "Record<string, never>"@,
    }
}

pub open spec fn body_kind(b: Option<RequestStructureBody>) -> Seq<char> {
    match b {
        Some(RequestStructureBody::Query(_)) => "query"@,
        Some(RequestStructureBody::Json(_)) => "json"@,
        _ => "none"@,
    }
}

pub open spec fn response_kind(r: ResponseTapi) -> Seq<char> {
    match r {
        ResponseTapi::PlainText => "text"@,
        ResponseTapi::Bytes => "bytes"@,
        ResponseTapi::Json(_) => "json"@,
        ResponseTapi::Html => "html"@,
        ResponseTapi::Sse(_) => "sse"@,
        ResponseTapi::Empty => "none"@,
    }
}

/// The client call of a route: a server-sent event stream with a path
/// builder when the response streams and there is no body, else a request.
pub open spec fn client_text(s: Seq<TapiDyn>, r: Route) -> Seq<char> {
    match (r.request.body, r.response) {
        (None, ResponseTapi::Sse(t)) => {
            let segs = split_slash(r.path@);
            "sse<["@ + (match r.request.path {
                Some(p) => crate::targets::ts::ts_full_name(s, p as int),
                None => Seq::empty(),
            }) + "], "@ + crate::targets::ts::ts_full_name(s, t as int) + ">(("@ + join(
                params_of(segs),
                ", "@,
            ) + ") => `"@ + template_of(segs) + "`, \"json\")"@
        },
        _ => "request<"@ + body_name(s, r.request.body) + ", "@ + crate::targets::ts::ts_full_name(
            s,
            response_handle(s, r.response),
        ) + ">("@ + debug_quoted(body_kind(r.request.body)) + ", "@ + debug_quoted(
            method_text(r.request.method),
        ) + ", "@ + debug_quoted(r.path@) + ", "@ + debug_quoted(response_kind(r.response)) + ")"@,
    }
}

/// The key of a route in the client object: its path in lowerCamelCase,
/// or `index` where that is empty.
pub open spec fn client_key_text(path: Seq<char>) -> Seq<char> {
    if lower_camel(path).len() == 0 {
        "index"@
    } else {
        lower_camel(path)
    }
}

/// The client key for a path already in lowerCamelCase: `index` for the
/// empty path, else the path itself.
pub fn key_of_camel(camel: String) -> (r: String)
    ensures
        r@ == if camel@.len() == 0 {
            "index"@
        } else {
            camel@
        },
{
    if camel.as_str().unicode_len() == 0 {
        String::from_str("index")
    } else {
        camel
    }
}

/// The key of the route at `path` in the client object.
pub fn client_key(path: &str) -> (r: String)
    ensures
        r@ == client_key_text(path@),
{
    key_of_camel(to_lower_camel(path))
}

fn body_kind_str(b: &Option<RequestStructureBody>) -> (r: &'static str)
    ensures
        r@ == body_kind(*b),
{
    match b {
        Some(RequestStructureBody::Query(_)) => "query",
        Some(RequestStructureBody::Json(_)) => "json",
        _ => "none",
    }
}

fn response_kind_str(r: &ResponseTapi) -> (k: &'static str)
    ensures
        k@ == response_kind(*r),
{
    match r {
        ResponseTapi::PlainText => "text",
        ResponseTapi::Bytes => "bytes",
        ResponseTapi::Json(_) => "json",
        ResponseTapi::Html => "html",
        ResponseTapi::Sse(_) => "sse",
        ResponseTapi::Empty => "none",
    }
}


impl Route {
    /// The types this route roots: its path parameters, body and response.
    pub fn tys(&self, types: &mut Types) -> (r: Vec<DynTapi>)
        requires
            old(types).wf(),
            route_fits(*self, old(types)@.len() as int),
        ensures
            final(types).wf(),
            old(types)@.is_prefix_of(final(types)@),
            r@ == route_roots(final(types)@, *self),
            all_below(r@, final(types)@.len() as int),
            response_interned(final(types)@, self.response),
            response_interned(old(types)@, self.response) ==> final(types)@ == old(types)@,
    {
        let mut tys: Vec<DynTapi> = Vec::new();
        if let Some(p) = self.request.path {
            tys.push(p);
        }
        if let Some(b) = &self.request.body {
            match b {
                RequestStructureBody::Query(t) => tys.push(*t),
                RequestStructureBody::Json(t) => tys.push(*t),
                RequestStructureBody::PlainText => {},
            }
        }
        let h = self.response.ty(types);
        tys.push(h);
        assert(tys@ =~= route_roots(types@, *self));
        tys
    }

    /// The client call of this route, or an error where its placeholders
    /// do not match its path parameters.
    pub fn ts_client(&self, types: &mut Types) -> (r: Result<String, GenError>)
        requires
            old(types).wf(),
            route_fits(*self, old(types)@.len() as int),
        ensures
            final(types).wf(),
            old(types)@.is_prefix_of(final(types)@),
            response_interned(old(types)@, self.response) ==> final(types)@ == old(types)@,
            match r {
                Ok(x) => !path_mismatch(final(types)@, *self) && x@ == client_text(final(types)@, *self),
                Err(e) => path_mismatch(final(types)@, *self) && e.kind == GenErrorKind::PathParamsMismatch
                    && e.name@ == self.path@ && e.path@.len() == 0,
            },
    {
        let ghost s0 = types@;
        let segs = split_path(self.path.as_str());
        let (params, template) = placeholders(&segs);
        let streams = match (&self.request.body, &self.response) {
            (None, ResponseTapi::Sse(_)) => true,
            _ => false,
        };
        let fits = match self.request.path {
            Some(p) => check_params(types, p, &params),
            None => !(streams && params.len() > 0),
        };
        if !fits {
            {
                assert(types@.is_prefix_of(types@));
                return Err(
                    GenError {
                        kind: GenErrorKind::PathParamsMismatch,
                        name: self.path.clone(),
                        path: Vec::new(),
                    },
                );
            }
        }
        let mut out = String::new();
        match (&self.request.body, &self.response) {
            (None, ResponseTapi::Sse(t)) => {
                let arg = match self.request.path {
                    Some(p) => crate::targets::ts::full_ty_name(types, p),
                    None => String::new(),
                };
                let res = crate::targets::ts::full_ty_name(types, *t);
                let ps = join_strs(&params, ", ");
                push_str(&mut out, "sse<[");
                push_str(&mut out, arg.as_str());
                push_str(&mut out, "], ");
                push_str(&mut out, res.as_str());
                push_str(&mut out, ">((");
                push_str(&mut out, ps.as_str());
                push_str(&mut out, ") => `");
                push_str(&mut out, template.as_str());
                push_str(&mut out, "`, \"json\")");
                assert(types@.is_prefix_of(types@));
                assert(out@ =~= client_text(types@, *self));
                Ok(out)
            },
            _ => {
                let h = self.response.ty(types);
                proof {
                    if let Some(p) = self.request.path {
                        assert(types@[p as int] == s0[p as int]);
                    }
                }
                let body = match &self.request.body {
                    Some(RequestStructureBody::Query(t)) => crate::targets::ts::full_ty_name(types, *t),
                    Some(RequestStructureBody::Json(t)) => crate::targets::ts::full_ty_name(types, *t),
                    _ => String::from_str("Record<string, never>"),
                };
                let res = crate::targets::ts::full_ty_name(types, h);
                let bk = quoted(body_kind_str(&self.request.body));
                let m = quoted(self.request.method.as_str());
                let pq = quoted(self.path.as_str());
                let rk = quoted(response_kind_str(&self.response));
                push_str(&mut out, "request<");
                push_str(&mut out, body.as_str());
                push_str(&mut out, ", ");
                push_str(&mut out, res.as_str());
                push_str(&mut out, ">(");
                push_str(&mut out, bk.as_str());
                push_str(&mut out, ", ");
                push_str(&mut out, m.as_str());
                push_str(&mut out, ", ");
                push_str(&mut out, pq.as_str());
                push_str(&mut out, ", ");
                push_str(&mut out, rk.as_str());
                push_str(&mut out, ")");
                assert(out@ =~= client_text(types@, *self));
                Ok(out)
            },
        }
    }
}


/// Strictly increasing, so each handle once and in order of identity.
pub open spec fn strictly_sorted(s: Seq<DynTapi>) -> bool {
    forall|i: int, j: int| 0 <= i < j < s.len() ==> s[i] < s[j]
}

/// Two strictly sorted lists with the same members are the same list.
pub proof fn lemma_sorted_unique(a: Seq<DynTapi>, b: Seq<DynTapi>)
    requires
        strictly_sorted(a),
        strictly_sorted(b),
        forall|x: DynTapi| a.contains(x) <==> b.contains(x),
    ensures
        a == b,
    decreases a.len(),
{
    if a.len() == 0 {
        if b.len() > 0 {
            assert(b.contains(b[0]));
        }
        assert(a =~= b);
    } else {
        assert(a.contains(a[0]));
        assert(b.contains(b[0]));
        let ia = choose|i: int| 0 <= i < a.len() && a[i] == b[0];
        let ib = choose|i: int| 0 <= i < b.len() && b[i] == a[0];
        assert(a[0] == b[0]) by {
            if ia > 0 {
                assert(a[0] < a[ia]);
            }
            if ib > 0 {
                assert(b[0] < b[ib]);
            }
        }
        let a1 = a.drop_first();
        let b1 = b.drop_first();
        assert forall|x: DynTapi| a1.contains(x) <==> b1.contains(x) by {
            if a1.contains(x) {
                let i = choose|i: int| 0 <= i < a1.len() && a1[i] == x;
                assert(a[i + 1] == x && a[0] < a[i + 1]);
                assert(b.contains(x));
                let j = choose|j: int| 0 <= j < b.len() && b[j] == x;
                assert(j != 0);
                assert(b1[j - 1] == x);
            }
            if b1.contains(x) {
                let i = choose|i: int| 0 <= i < b1.len() && b1[i] == x;
                assert(b[i + 1] == x && b[0] < b[i + 1]);
                assert(a.contains(x));
                let j = choose|j: int| 0 <= j < a.len() && a[j] == x;
                assert(j != 0);
                assert(a1[j - 1] == x);
            }
        }
        lemma_sorted_unique(a1, b1);
        assert(a =~= seq![a[0]] + a1);
        assert(b =~= seq![b[0]] + b1);
    }
}

/// The nodes reachable from `roots`, in order of identity.
pub open spec fn sorted_closure(s: Seq<TapiDyn>, roots: Seq<DynTapi>) -> Seq<DynTapi> {
    choose|r: Seq<DynTapi>|
        strictly_sorted(r) && forall|x: DynTapi| r.contains(x) <==> reachable(s, roots, x)
}

fn insert_sorted(v: &mut Vec<DynTapi>, x: DynTapi)
    requires
        strictly_sorted(old(v)@),
        !old(v)@.contains(x),
    ensures
        strictly_sorted(final(v)@),
        forall|y: DynTapi| final(v)@.contains(y) <==> (old(v)@.contains(y) || y == x),
{
    let mut pos: usize = 0;
    while pos < v.len() && v[pos] < x
        invariant
            0 <= pos <= v@.len(),
            forall|k: int| 0 <= k < pos ==> v@[k] < x,
        decreases v@.len() - pos,
    {
        pos = pos + 1;
    }
    let ghost o = v@;
    proof {
        assert forall|k: int| pos <= k < o.len() implies o[k] > x by {
            assert(o[pos as int] >= x);
            assert(o[pos as int] != x) by {
                assert(o.contains(o[pos as int]));
            }
            if k > pos {
                assert(o[pos as int] < o[k]);
            }
        }
    }
    v.insert(pos, x);
    proof {
        let n = v@;
        assert forall|y: DynTapi| n.contains(y) <==> (o.contains(y) || y == x) by {
            if n.contains(y) {
                let k = choose|k: int| 0 <= k < n.len() && n[k] == y;
                if k < pos {
                    assert(o[k] == y);
                } else if k > pos {
                    assert(o[k - 1] == y);
                }
            }
            if o.contains(y) {
                let k = choose|k: int| 0 <= k < o.len() && o[k] == y;
                if k < pos {
                    assert(n[k] == y);
                } else {
                    assert(n[k + 1] == y);
                }
            }
            if y == x {
                assert(n[pos as int] == x);
            }
        }
    }
}

/// `v` in order of identity; `v` holds each handle once.
pub fn sort_handles(v: &Vec<DynTapi>) -> (r: Vec<DynTapi>)
    requires
        v@.no_duplicates(),
    ensures
        strictly_sorted(r@),
        forall|x: DynTapi| r@.contains(x) <==> v@.contains(x),
{
    let mut out: Vec<DynTapi> = Vec::new();
    let mut i: usize = 0;
    while i < v.len()
        invariant
            v@.no_duplicates(),
            0 <= i <= v@.len(),
            strictly_sorted(out@),
            forall|x: DynTapi| out@.contains(x) <==> exists|k: int| 0 <= k < i && v@[k] == x,
        decreases v@.len() - i,
    {
        let x = v[i];
        proof {
            if out@.contains(x) {
                let k = choose|k: int| 0 <= k < i && v@[k] == x;
                assert(v@[k] == v@[i as int]);
            }
        }
        let ghost before = out@;
        insert_sorted(&mut out, x);
        proof {
            assert forall|y: DynTapi| out@.contains(y) <==> exists|k: int| 0 <= k < i + 1 && v@[k] == y by {
                if exists|k: int| 0 <= k < i + 1 && v@[k] == y {
                    let k = choose|k: int| 0 <= k < i + 1 && v@[k] == y;
                    if k < i {
                        assert(before.contains(y));
                    }
                }
            }
        }
        i = i + 1;
    }
    assert forall|x: DynTapi| out@.contains(x) <==> v@.contains(x) by {
        if v@.contains(x) {
            let k = choose|k: int| 0 <= k < v@.len() && v@[k] == x;
        }
    }
    out
}

/// A set of routes, plus types to declare beside those they root.
#[derive(Clone, Debug)]
pub struct Endpoints {
    pub endpoints: Vec<Route>,
    pub extra_tys: Vec<DynTapi>,
}

pub open spec fn routes_roots(s: Seq<TapiDyn>, rs: Seq<Route>) -> Seq<DynTapi>
    decreases rs.len(),
{
    if rs.len() == 0 {
        Seq::empty()
    } else {
        routes_roots(s, rs.drop_last()) + route_roots(s, rs.last())
    }
}

/// The types all routes root, after the extra ones.
pub open spec fn endpoints_roots(s: Seq<TapiDyn>, e: Endpoints) -> Seq<DynTapi> {
    e.extra_tys@ + routes_roots(s, e.endpoints@)
}

/// The handles of every route are in an arena of `len` nodes.
pub open spec fn endpoints_fit(e: Endpoints, len: int) -> bool {
    &&& all_below(e.extra_tys@, len)
    &&& forall|k: int| 0 <= k < e.endpoints@.len() ==> route_fits(#[trigger] e.endpoints@[k], len)
}

pub proof fn lemma_routes_stable(s: Seq<TapiDyn>, s2: Seq<TapiDyn>, rs: Seq<Route>)
    requires
        arena_wf(s2),
        s.is_prefix_of(s2),
        forall|k: int| 0 <= k < rs.len() ==> response_interned(s, (#[trigger] rs[k]).response),
    ensures
        routes_roots(s2, rs) == routes_roots(s, rs),
        forall|k: int| 0 <= k < rs.len() ==> response_interned(s2, (#[trigger] rs[k]).response),
    decreases rs.len(),
{
    if rs.len() > 0 {
        let p = rs.drop_last();
        assert forall|k: int| 0 <= k < p.len() implies response_interned(s, (#[trigger] p[k]).response) by {
            assert(p[k] == rs[k]);
        }
        lemma_routes_stable(s, s2, p);
        assert(rs[rs.len() - 1] == rs.last());
        lemma_response_stable(s, s2, rs.last().response);
        assert forall|k: int| 0 <= k < rs.len() implies response_interned(s2, (#[trigger] rs[k]).response) by {
            if k < p.len() {
                assert(p[k] == rs[k]);
            } else {
                lemma_response_stable(s, s2, rs[k].response);
            }
        }
    }
}

/// The entries of the client object, one line per route.
pub open spec fn api_entries(s: Seq<TapiDyn>, rs: Seq<Route>) -> Seq<char>
    decreases rs.len(),
{
    if rs.len() == 0 {
        Seq::empty()
    } else {
        api_entries(s, rs.drop_last()) + api_entry(s, rs.last())
    }
}

/// The line of one route in the client object: its key (the path in
/// lowerCamelCase, or `index`) and its call.
pub open spec fn api_entry(s: Seq<TapiDyn>, r: Route) -> Seq<char> {
    "    "@ + client_key_text(r.path@) + ": "@ + client_text(s, r) + ",\n"@
}

proof fn lemma_api_split(s: Seq<TapiDyn>, rs: Seq<Route>, k: int)
    requires
        0 <= k <= rs.len(),
    ensures
        api_entries(s, rs) == api_entries(s, rs.take(k)) + api_entries(s, rs.skip(k)),
    decreases rs.len(),
{
    if k == rs.len() {
        assert(rs.take(k) =~= rs);
        assert(rs.skip(k) =~= Seq::<Route>::empty());
        assert(api_entries(s, rs) + Seq::<char>::empty() =~= api_entries(s, rs));
    } else {
        let p = rs.drop_last();
        lemma_api_split(s, p, k);
        assert(p.take(k) =~= rs.take(k));
        assert(rs.skip(k).drop_last() =~= p.skip(k));
        assert(rs.skip(k).last() == rs.last());
        assert(api_entries(s, rs) =~= api_entries(s, rs.take(k)) + (api_entries(s, p.skip(k))
            + api_entry(s, rs.last())));
    }
}

/// Every route has its line in the client object, in route order: the
/// lines of the routes before it, its own, then those after it.
pub proof fn each_route_has_its_entry(s: Seq<TapiDyn>, rs: Seq<Route>, k: int)
    requires
        0 <= k < rs.len(),
    ensures
        api_entries(s, rs) == api_entries(s, rs.take(k)) + api_entry(s, rs[k]) + api_entries(
            s,
            rs.skip(k + 1),
        ),
{
    lemma_api_split(s, rs, k + 1);
    assert(rs.take(k + 1).drop_last() =~= rs.take(k));
    assert(rs.take(k + 1).last() == rs[k]);
}

/// The first route whose placeholders do not match, if any.
pub open spec fn first_mismatch(s: Seq<TapiDyn>, rs: Seq<Route>) -> Option<int>
    decreases rs.len(),
{
    if rs.len() == 0 {
        None
    } else {
        match first_mismatch(s, rs.drop_last()) {
            Some(i) => Some(i),
            None => if path_mismatch(s, rs.last()) {
                Some(rs.len() - 1)
            } else {
                None
            },
        }
    }
}

impl Endpoints {
    pub fn new(endpoints: Vec<Route>) -> (r: Endpoints)
        ensures
            r.endpoints@ == endpoints@,
            r.extra_tys@.len() == 0,
    {
        Endpoints { endpoints, extra_tys: Vec::new() }
    }

    /// Declares `T` too, whether or not a route mentions it.
    pub fn with_ty<T: Tapi>(self, types: &mut Types) -> (r: Endpoints)
        requires
            old(types).wf(),
        ensures
            final(types).wf(),
            old(types)@.is_prefix_of(final(types)@),
            r.endpoints@ == self.endpoints@,
            r.extra_tys@.len() == self.extra_tys@.len() + 1,
            r.extra_tys@.drop_last() == self.extra_tys@,
            r.extra_tys@.last() < final(types)@.len(),
    {
        let mut e = self;
        let h = T::boxed(types);
        let ghost before = e.extra_tys@;
        e.extra_tys.push(h);
        assert(e.extra_tys@.drop_last() =~= before);
        e
    }

    fn roots(&self, types: &mut Types) -> (r: Vec<DynTapi>)
        requires
            old(types).wf(),
            endpoints_fit(*self, old(types)@.len() as int),
        ensures
            final(types).wf(),
            old(types)@.is_prefix_of(final(types)@),
            r@ == endpoints_roots(final(types)@, *self),
            all_below(r@, final(types)@.len() as int),
            forall|k: int|
                0 <= k < self.endpoints@.len() ==> response_interned(
                    final(types)@,
                    (#[trigger] self.endpoints@[k]).response,
                ),
    {
        let ghost s0 = types@;
        let mut roots: Vec<DynTapi> = Vec::new();
        let mut i: usize = 0;
        while i < self.extra_tys.len()
            invariant
                0 <= i <= self.extra_tys@.len(),
                roots@ == self.extra_tys@.take(i as int),
            decreases self.extra_tys@.len() - i,
        {
            roots.push(self.extra_tys[i]);
            assert(roots@ =~= self.extra_tys@.take(i + 1));
            i = i + 1;
        }
        assert(self.extra_tys@.take(self.extra_tys@.len() as int) =~= self.extra_tys@);
        let mut i: usize = 0;
        assert(self.endpoints@.take(0) =~= Seq::<Route>::empty());
        assert(types@.is_prefix_of(types@));
        while i < self.endpoints.len()
            invariant
                types.wf(),
                s0.is_prefix_of(types@),
                endpoints_fit(*self, s0.len() as int),
                0 <= i <= self.endpoints@.len(),
                roots@ == self.extra_tys@ + routes_roots(types@, self.endpoints@.take(i as int)),
                all_below(roots@, types@.len() as int),
                forall|k: int|
                    0 <= k < i ==> response_interned(types@, (#[trigger] self.endpoints@[k]).response),
            decreases self.endpoints@.len() - i,
        {
            let ghost s1 = types@;
            let rt = &self.endpoints[i];
            assert(route_fits(self.endpoints@[i as int], s0.len() as int));
            let t = rt.tys(types);
            proof {
                let tk = self.endpoints@.take(i as int);
                assert forall|k: int| 0 <= k < tk.len() implies response_interned(
                    s1,
                    (#[trigger] tk[k]).response,
                ) by {
                    assert(tk[k] == self.endpoints@[k]);
                }
                lemma_routes_stable(s1, types@, tk);
                assert(self.endpoints@.take(i + 1).drop_last() =~= tk);
                assert(self.endpoints@.take(i + 1).last() == *rt);
                assert forall|k: int| 0 <= k < i + 1 implies response_interned(
                    types@,
                    (#[trigger] self.endpoints@[k]).response,
                ) by {
                    if k < i {
                        assert(tk[k] == self.endpoints@[k]);
                    }
                }
            }
            let ghost before = roots@;
            let mut j: usize = 0;
            while j < t.len()
                invariant
                    0 <= j <= t@.len(),
                    roots@ == before + t@.take(j as int),
                decreases t@.len() - j,
            {
                roots.push(t[j]);
                assert(roots@ =~= before + t@.take(j + 1));
                j = j + 1;
            }
            proof {
                assert(t@.take(t@.len() as int) =~= t@);
                assert(roots@ =~= self.extra_tys@ + routes_roots(types@, self.endpoints@.take(i + 1)));
                assert forall|k: int| 0 <= k < roots@.len() implies roots@[k] < types@.len() by {
                    if k >= before.len() {
                        assert(roots@[k] == t@[k - before.len()]);
                    }
                }
            }
            i = i + 1;
        }
        assert(self.endpoints@.take(self.endpoints@.len() as int) =~= self.endpoints@);
        roots
    }

    /// Every type the routes (and the extra types) reach, each once, in
    /// order of identity.
    pub fn tys(&self, types: &mut Types) -> (r: Vec<DynTapi>)
        requires
            old(types).wf(),
            endpoints_fit(*self, old(types)@.len() as int),
        ensures
            final(types).wf(),
            old(types)@.is_prefix_of(final(types)@),
            r@ == sorted_closure(final(types)@, endpoints_roots(final(types)@, *self)),
            strictly_sorted(r@),
            forall|x: DynTapi|
                r@.contains(x) <==> reachable(final(types)@, endpoints_roots(final(types)@, *self), x),
            all_below(r@, final(types)@.len() as int),
            forall|k: int|
                0 <= k < self.endpoints@.len() ==> response_interned(
                    final(types)@,
                    (#[trigger] self.endpoints@[k]).response,
                ),
    {
        let roots = self.roots(types);
        let closure = types.transitive_closure(&roots);
        let sorted = sort_handles(&closure);
        proof {
            let s = types@;
            let rs = endpoints_roots(s, *self);
            let c = sorted_closure(s, rs);
            assert(strictly_sorted(sorted@) && forall|x: DynTapi|
                sorted@.contains(x) <==> reachable(s, rs, x));
            lemma_sorted_unique(c, sorted@);
            assert forall|k: int| 0 <= k < sorted@.len() implies sorted@[k] < s.len() by {
                assert(sorted@.contains(sorted@[k]));
                assert(closure@.contains(sorted@[k]));
                let m = choose|m: int| 0 <= m < closure@.len() && closure@[m] == sorted@[k];
                crate::types::lemma_closure_below(s, roots@, closure@, m);
            }
        }
        sorted
    }
}


pub proof fn lemma_first_mismatch_prefix(s: Seq<TapiDyn>, rs: Seq<Route>, k: int, i: int)
    requires
        0 <= k <= rs.len(),
        first_mismatch(s, rs.take(k)) == Some(i),
    ensures
        first_mismatch(s, rs) == Some(i),
    decreases rs.len() - k,
{
    if k == rs.len() {
        assert(rs.take(k) =~= rs);
    } else {
        let p = rs.drop_last();
        assert(p.take(k) =~= rs.take(k));
        lemma_first_mismatch_prefix(s, p, k, i);
    }
}

/// The client file of a set of routes: the TypeScript prelude, the
/// declarations of every type they reach (in order of identity), then the
/// `api` object with one call per route.
pub open spec fn client_file(s: Seq<TapiDyn>, e: Endpoints) -> Seq<char> {
    let tys = sorted_closure(s, endpoints_roots(s, e));
    trim_start(TS_PRELUDE@) + render_ns(Target::Ts, items_of(Target::Ts, s, tys), 0)
        + "export const api = {\n"@ + api_entries(s, e.endpoints@) + "};\n"@
}

/// `e` is the error the client file owes: that of the first declaration
/// that fails, else that of the first route whose placeholders mismatch.
pub open spec fn client_error(s: Seq<TapiDyn>, ep: Endpoints, e: GenError) -> bool {
    let tys = sorted_closure(s, endpoints_roots(s, ep));
    match first_failure(Target::Ts, s, tys) {
        Some(i) => 0 <= i < tys.len() && decl_outcome(
            s,
            tys[i] as int,
            Err(e),
            decl_of(Target::Ts, s, tys[i] as int),
        ),
        None => match first_mismatch(s, ep.endpoints@) {
            Some(k) => 0 <= k < ep.endpoints@.len() && e.kind == GenErrorKind::PathParamsMismatch
                && e.name@ == ep.endpoints@[k].path@,
            None => false,
        },
    }
}

impl Endpoints {
    /// The TypeScript client of these routes, with the declarations of the
    /// types they use.
    pub fn ts_client(&self, types: &mut Types) -> (r: Result<String, GenError>)
        requires
            old(types).wf(),
            endpoints_fit(*self, old(types)@.len() as int),
        ensures
            final(types).wf(),
            old(types)@.is_prefix_of(final(types)@),
            match r {
                Ok(out) => out@ == client_file(final(types)@, *self),
                Err(e) => client_error(final(types)@, *self, e),
            },
    {
        let ghost s0 = types@;
        let tys = self.tys(types);
        let ghost s = types@;
        let b = ts::builder();
        let mut out = match b.types(types, &tys) {
            Ok(t) => t,
            Err(e) => {
                return Err(e);
            },
        };
        push_str(&mut out, "export const api = {\n");
        let ghost head = out@;
        let mut i: usize = 0;
        assert(self.endpoints@.take(0) =~= Seq::<Route>::empty());
        while i < self.endpoints.len()
            invariant
                types.wf(),
                types@ == s,
                s0 == old(types)@,
                s0.is_prefix_of(s),
                tys@ == sorted_closure(s, endpoints_roots(s, *self)),
                first_failure(Target::Ts, s, tys@) is None,
                endpoints_fit(*self, s0.len() as int),
                forall|k: int|
                    0 <= k < self.endpoints@.len() ==> response_interned(
                        s,
                        (#[trigger] self.endpoints@[k]).response,
                    ),
                0 <= i <= self.endpoints@.len(),
                out@ == head + api_entries(s, self.endpoints@.take(i as int)),
                first_mismatch(s, self.endpoints@.take(i as int)) is None,
            decreases self.endpoints@.len() - i,
        {
            let rt = &self.endpoints[i];
            assert(route_fits(self.endpoints@[i as int], s0.len() as int));
            assert(response_interned(s, self.endpoints@[i as int].response));
            let key = client_key(rt.path.as_str());
            proof {
                assert(self.endpoints@.take(i + 1).drop_last() =~= self.endpoints@.take(i as int));
                assert(self.endpoints@.take(i + 1).last() == *rt);
            }
            match rt.ts_client(types) {
                Err(e) => {
                    proof {
                        assert(first_mismatch(s, self.endpoints@.take(i + 1)) == Some(i as int));
                        lemma_first_mismatch_prefix(s, self.endpoints@, i + 1, i as int);
                    }
                    return Err(e);
                },
                Ok(c) => {
                    let ghost before = out@;
                    push_str(&mut out, "    ");
                    push_str(&mut out, key.as_str());
                    push_str(&mut out, ": ");
                    push_str(&mut out, c.as_str());
                    push_str(&mut out, ",\n");
                    assert(out@ =~= head + api_entries(s, self.endpoints@.take(i + 1)));
                },
            }
            i = i + 1;
        }
        assert(self.endpoints@.take(self.endpoints@.len() as int) =~= self.endpoints@);
        push_str(&mut out, "};\n");
        Ok(out)
    }
}


impl<T: Tapi> RequestTapiExtractor for axum::extract::Path<T> {
    fn extract_request(types: &mut Types) -> (r: RequestTapi) {
        RequestTapi::Path(T::boxed(types))
    }
}

impl<T: Tapi> RequestTapiExtractor for axum::extract::Query<T> {
    fn extract_request(types: &mut Types) -> (r: RequestTapi) {
        RequestTapi::Query(T::boxed(types))
    }
}

impl<T: Tapi> RequestTapiExtractor for axum::Json<T> {
    fn extract_request(types: &mut Types) -> (r: RequestTapi) {
        RequestTapi::Json(T::boxed(types))
    }
}

impl<S> RequestTapiExtractor for axum::extract::State<S> {
    fn extract_request(types: &mut Types) -> (r: RequestTapi) {
        assert(types@.is_prefix_of(types@));
        RequestTapi::Empty
    }
}

impl<T: Tapi> ResponseTapiExtractor for axum::Json<T> {
    fn extract_response(types: &mut Types) -> (r: ResponseTapi) {
        ResponseTapi::Json(T::boxed(types))
    }
}

impl<T> ResponseTapiExtractor for axum::response::Html<T> {
    fn extract_response(types: &mut Types) -> (r: ResponseTapi) {
        assert(types@.is_prefix_of(types@));
        ResponseTapi::Html
    }
}

} // verus!
