use tapi::builder::Target;
use tapi::endpoints::{
    client_key, key_of_camel, RequestTapiExtractor, ResponseTapiExtractor, split_path, Endpoints, Method, RequestStructure, RequestStructureBody, RequestTapi,
    ResponseTapi, Route,
};
use tapi::kind::{
    ContainerAttributes, Enum, EnumVariant, Field, FieldName, GenErrorKind, Struct, TagType,
    TypeKind, VariantKind,
};
use tapi::targets::{fs, js, ts};
use tapi::impls::namespace_path;
use tapi::text::to_decimal;
use tapi::{DynTapi, Tapi, TapiDyn, Types};

fn named(t: &mut Types, name: &str, path: &[&str], kind: TypeKind) -> DynTapi {
    t.intern(TapiDyn {
        name: format!("{}::{}", path.join("::"), name),
        kind,
        path: path.iter().map(|p| p.to_string()).collect(),
    })
}

fn plain_struct(name: &str, fields: Vec<Field>) -> TypeKind {
    TypeKind::Struct(Struct { attr: ContainerAttributes::new(name), fields })
}

fn error_kind<T>(r: Result<T, tapi::kind::GenError>) -> GenErrorKind {
    match r {
        Ok(_) => panic!("expected an error"),
        Err(e) => e.kind,
    }
}

#[test]
fn extraction_twice_gives_the_same_identity() {
    let mut t = Types::new();
    let a = <Vec<Option<i32>> as Tapi>::boxed(&mut t);
    let n = t.len();
    let b = <Vec<Option<i32>> as Tapi>::boxed(&mut t);
    assert_eq!(a, b);
    assert_eq!(t.len(), n);
    assert_eq!(<i32 as Tapi>::boxed(&mut t), <i32 as Tapi>::boxed(&mut t));
    assert_ne!(<i32 as Tapi>::boxed(&mut t), <u32 as Tapi>::boxed(&mut t));
}

#[test]
fn find_locates_interned_names() {
    let mut t = Types::new();
    let s = <String as Tapi>::boxed(&mut t);
    assert_eq!(t.find("alloc::string::String"), Some(s));
    assert_eq!(t.find("nothing"), None);
}

#[test]
fn closure_is_complete_minimal_and_a_fixed_point() {
    let mut t = Types::new();
    let int = <i32 as Tapi>::boxed(&mut t);
    let string = <String as Tapi>::boxed(&mut t);
    let unrelated = <bool as Tapi>::boxed(&mut t);
    let a = named(&mut t, "A", &["m"], TypeKind::Any);
    let list = t.intern(TapiDyn { name: "Vec<A>".into(), kind: TypeKind::List(a), path: vec![] });
    t.define(a, plain_struct("A", vec![Field::new("x", int), Field::new("self", list)]));
    let b = named(&mut t, "B", &["m"], plain_struct("B", vec![Field::new("a", a), Field::new("s", string)]));
    let c = t.transitive_closure(&vec![b, b]);
    let mut sorted = c.clone();
    sorted.sort();
    let mut expected = vec![b, a, int, list, string];
    expected.sort();
    assert_eq!(sorted, expected);
    assert!(!c.contains(&unrelated));
    assert_eq!(t.transitive_closure(&c), c);
}

#[test]
fn dependencies_are_one_level_deep() {
    let mut t = Types::new();
    let int = <i32 as Tapi>::boxed(&mut t);
    let list = <Vec<i32> as Tapi>::boxed(&mut t);
    let a = named(&mut t, "A", &[], plain_struct("A", vec![Field::new("x", list)]));
    assert_eq!(t.dependencies(a), vec![list]);
    assert_eq!(t.dependencies(list), vec![int]);
    assert_eq!(t.dependencies(int), Vec::<DynTapi>::new());
}

fn namespaced_types() -> (Types, Vec<DynTapi>) {
    let mut t = Types::new();
    let int = <i32 as Tapi>::boxed(&mut t);
    let z = named(&mut t, "Z", &["b"], plain_struct("Z", vec![Field::new("n", int)]));
    let y = named(&mut t, "Y", &["a", "c"], plain_struct("Y", vec![]));
    let x = named(&mut t, "X", &["a"], plain_struct("X", vec![]));
    let w = named(&mut t, "W", &[], plain_struct("W", vec![Field::new("z", z)]));
    (t, vec![z, y, int, x, w])
}

#[test]
fn namespaces_nest_by_path_in_lexicographic_order() {
    let (t, tys) = namespaced_types();
    let mut b = ts::builder();
    b.prelude = "\n  // prelude\n".to_string();
    let out = b.types(&t, &tys).ok().unwrap();
    assert_eq!(
        out,
        "// prelude\n\
export type W = {\n  \"z\": b.Z\n};\n\
export namespace a {\n  export type X = {\n  \n  };\n  export namespace c {\n    export type Y = {\n    \n    };\n  }\n}\n\
export namespace b {\n  export type Z = {\n    \"n\": number\n  };\n}\n"
    );
    assert_eq!(b.types(&t, &tys).ok().unwrap(), out);
}

#[test]
fn fs_namespaces_are_modules() {
    let (t, tys) = namespaced_types();
    let mut b = fs::builder();
    b.prelude = String::new();
    let out = b.types(&t, &tys).ok().unwrap();
    assert!(out.starts_with("type W =\n  { z: b.Z }\nmodule a =\n  type X =\n    {  }\n  module c =\n"));
    assert_eq!(b.target, Target::Fs);
}

#[test]
fn builder_reports_the_first_failing_declaration() {
    let mut t = Types::new();
    let e = named(
        &mut t,
        "E",
        &["m"],
        TypeKind::Enum(Enum {
            attr: {
                let mut a = ContainerAttributes::new("E");
                a.tag = TagType::Untagged;
                a
            },
            variants: vec![],
        }),
    );
    let r = js::builder().types(&t, &vec![e]);
    match r {
        Ok(_) => panic!("expected an error"),
        Err(err) => {
            assert_eq!(err.kind, GenErrorKind::Untagged);
            assert_eq!(err.name, "E");
            assert_eq!(err.path, vec!["m".to_string()]);
        }
    }
}

#[test]
fn transparent_struct_is_an_alias_in_every_dialect() {
    let mut t = Types::new();
    let list = <Vec<String> as Tapi>::boxed(&mut t);
    let mut attr = ContainerAttributes::new("A");
    attr.transparent = true;
    let a = named(&mut t, "A", &["m"], TypeKind::Struct(Struct { attr, fields: vec![Field::new("x", list)] }));
    assert_eq!(js::ty_decl(&t, a).ok().unwrap(), Some("export type A = string[];".to_string()));
    assert_eq!(ts::ty_decl(&t, a).ok().unwrap(), Some("export type A = string[];".to_string()));
    assert_eq!(fs::ty_decl(&t, a).ok().unwrap(), Some("type A = List<string>".to_string()));
}

#[test]
fn transparent_struct_without_fields_is_rejected() {
    let mut t = Types::new();
    let mut attr = ContainerAttributes::new("A");
    attr.transparent = true;
    let a = named(&mut t, "A", &[], TypeKind::Struct(Struct { attr, fields: vec![] }));
    assert_eq!(error_kind(ts::ty_decl(&t, a)), GenErrorKind::NoFieldInTransparent);
    assert_eq!(error_kind(js::ty_decl(&t, a)), GenErrorKind::NoFieldInTransparent);
    assert_eq!(error_kind(fs::ty_decl(&t, a)), GenErrorKind::NoFieldInTransparent);
}

#[test]
fn internal_tag_on_tuple_variant_is_rejected() {
    let mut t = Types::new();
    let int = <i32 as Tapi>::boxed(&mut t);
    let mut attr = ContainerAttributes::new("A");
    attr.tag = TagType::Internal { tag: "type".to_string() };
    let a = named(
        &mut t,
        "A",
        &[],
        TypeKind::Enum(Enum {
            attr,
            variants: vec![EnumVariant { name: "W".to_string(), kind: VariantKind::Tuple(vec![int, int]) }],
        }),
    );
    assert_eq!(error_kind(ts::ty_decl(&t, a)), GenErrorKind::InternallyTaggedTuple);
    assert_eq!(error_kind(js::ty_decl(&t, a)), GenErrorKind::InternallyTaggedTuple);
    assert_eq!(error_kind(fs::ty_decl(&t, a)), GenErrorKind::InternallyTaggedTuple);
}

#[test]
fn external_unit_enum_has_a_companion_constant() {
    let mut t = Types::new();
    let mut attr = ContainerAttributes::new("MyKind");
    attr.tag = TagType::External;
    let unit = |n: &str| EnumVariant { name: n.to_string(), kind: VariantKind::Unit };
    let a = named(
        &mut t,
        "MyKind",
        &["m"],
        TypeKind::Enum(Enum { attr, variants: vec![unit("X"), unit("Y"), unit("Z")] }),
    );
    assert_eq!(
        ts::ty_decl(&t, a).ok().unwrap().unwrap(),
        "export type MyKind =\n  | \"X\"\n  | \"Y\"\n  | \"Z\";\nexport const MY_KIND: MyKind[] = [\"X\", \"Y\", \"Z\"];"
    );
    assert_eq!(
        js::ty_decl(&t, a).ok().unwrap().unwrap(),
        "/** @typedef {\"X\" | \"Y\" | \"Z\"} m.MyKind */\nexport const MY_KIND = /** @type {m.MyKind[]} */ ([\"X\", \"Y\", \"Z\"]);"
    );
}

#[test]
fn adjacent_tuple_variant_carries_its_payload() {
    let mut t = Types::new();
    let int = <i32 as Tapi>::boxed(&mut t);
    let mut attr = ContainerAttributes::new("A");
    attr.tag = TagType::Adjacent { tag: "type".to_string(), content: "data".to_string() };
    let a = named(
        &mut t,
        "A",
        &[],
        TypeKind::Enum(Enum {
            attr,
            variants: vec![EnumVariant { name: "W".to_string(), kind: VariantKind::Tuple(vec![int, int]) }],
        }),
    );
    assert_eq!(
        ts::ty_decl(&t, a).ok().unwrap().unwrap(),
        "export type A =\n  | { \"type\": \"W\", \"data\": [number, number] };"
    );
}

#[test]
fn structural_kinds_have_no_declaration() {
    let mut t = Types::new();
    let m = <std::collections::BTreeMap<String, Option<u8>> as Tapi>::boxed(&mut t);
    let p = <(bool, char) as Tapi>::boxed(&mut t);
    for ty in [m, p] {
        assert!(ts::ty_decl(&t, ty).ok().unwrap().is_none());
        assert!(js::ty_decl(&t, ty).ok().unwrap().is_none());
        assert!(fs::ty_decl(&t, ty).ok().unwrap().is_none());
    }
    assert_eq!(ts::full_ty_name(&t, m), "Record<string, (number | null)>");
    assert_eq!(fs::full_ty_name(&t, m), "Map<string, Option<uint8>>");
    assert_eq!(ts::ty_name(&t, p), "[boolean, string]");
    assert_eq!(fs::ty_name(&t, p), "bool * char");
    assert_eq!(js::full_ty_name(&t, p), "[boolean, string]");
}

#[test]
fn index_field_names_are_decimal() {
    let mut t = Types::new();
    let int = <u64 as Tapi>::boxed(&mut t);
    let mut f = Field::new("x", int);
    f.name = FieldName::Index(12);
    let a = named(&mut t, "A", &[], plain_struct("A", vec![f]));
    assert_eq!(ts::ty_decl(&t, a).ok().unwrap().unwrap(), "export type A = {\n  12: number\n};");
    assert_eq!(to_decimal(0), "0");
    assert_eq!(to_decimal(907), "907");
}

#[test]
fn names_are_quoted_with_escapes() {
    let mut t = Types::new();
    let int = <u8 as Tapi>::boxed(&mut t);
    let a = named(&mut t, "A", &[], plain_struct("A", vec![Field::new("a\"b", int)]));
    assert_eq!(ts::ty_decl(&t, a).ok().unwrap().unwrap(), "export type A = {\n  \"a\\\"b\": number\n};");
}

#[test]
fn keys_from_camel_case() {
    assert_eq!(key_of_camel(String::new()), "index");
    assert_eq!(key_of_camel("api2AB".to_string()), "api2AB");
}

#[test]
fn endpoint_keys() {
    assert_eq!(client_key(""), "index");
    assert_eq!(client_key("/"), "index");
    assert_eq!(client_key("/api2/:a/:b"), "api2AB");
}

#[test]
fn methods_round_trip() {
    for m in [Method::Get, Method::Post, Method::Put, Method::Delete, Method::Patch] {
        let s = m.as_str();
        assert!(Method::from_str(s) == Some(m));
    }
    assert!(Method::from_str("get").is_none());
}

#[test]
fn merge_with_fills_path_and_body() {
    let mut r = RequestStructure::new(Method::Post);
    r.merge_with(RequestTapi::Path(3));
    r.merge_with(RequestTapi::Json(5));
    r.merge_with(RequestTapi::Empty);
    assert_eq!(r.path, Some(3));
    assert!(matches!(r.body, Some(RequestStructureBody::Json(5))));
    assert!(r.method == Method::Post);
}

#[test]
fn split_path_keeps_empty_segments() {
    assert_eq!(split_path("/a//b"), vec!["", "a", "", "b"]);
    assert_eq!(split_path(""), vec![""]);
}

fn sample_routes(t: &mut Types) -> (Vec<Route>, DynTapi) {
    let string = <String as Tapi>::boxed(t);
    let person = named(t, "Person", &[], plain_struct("Person", vec![Field::new("name", string)]));
    let msg = named(t, "Msg", &["chat"], plain_struct("Msg", vec![Field::new("text", string)]));
    let params = <(String, String) as Tapi>::boxed(t);
    let routes = vec![
        Route { path: "".to_string(), request: RequestStructure::new(Method::Get), response: ResponseTapi::PlainText },
        Route {
            path: "/api".to_string(),
            request: RequestStructure { path: None, method: Method::Get, body: Some(RequestStructureBody::Json(person)) },
            response: ResponseTapi::Json(person),
        },
        Route {
            path: "/api2/:a/:b".to_string(),
            request: RequestStructure { path: Some(params), method: Method::Get, body: None },
            response: ResponseTapi::PlainText,
        },
        Route {
            path: "/wow/:room".to_string(),
            request: RequestStructure { path: Some(string), method: Method::Get, body: None },
            response: ResponseTapi::Sse(msg),
        },
    ];
    (routes, msg)
}

#[test]
fn route_clients() {
    let mut t = Types::new();
    let (routes, _) = sample_routes(&mut t);
    assert_eq!(
        routes[0].ts_client(&mut t).ok().unwrap(),
        "request<Record<string, never>, string>(\"none\", \"GET\", \"\", \"text\")"
    );
    assert_eq!(
        routes[1].ts_client(&mut t).ok().unwrap(),
        "request<Person, Person>(\"json\", \"GET\", \"/api\", \"json\")"
    );
    assert_eq!(
        routes[3].ts_client(&mut t).ok().unwrap(),
        "sse<[string], chat.Msg>((room) => `/wow/${room}`, \"json\")"
    );
    let bytes = ResponseTapi::Bytes.ty(&mut t);
    assert_eq!(ts::full_ty_name(&t, bytes), "number[]");
    let unit = RequestTapi::Empty.ty(&mut t);
    assert_eq!(ts::full_ty_name(&t, unit), "void");
}

#[test]
fn route_placeholders_must_match_path_parameters() {
    let mut t = Types::new();
    let one = <String as Tapi>::boxed(&mut t);
    let r = Route {
        path: "/api2/:a/:b".to_string(),
        request: RequestStructure { path: Some(one), method: Method::Get, body: None },
        response: ResponseTapi::Empty,
    };
    match r.ts_client(&mut t) {
        Ok(_) => panic!("expected a mismatch"),
        Err(e) => {
            assert_eq!(e.kind, GenErrorKind::PathParamsMismatch);
            assert_eq!(e.name, "/api2/:a/:b");
        }
    }
}

#[test]
fn endpoints_client_file() {
    let mut t = Types::new();
    let (routes, msg) = sample_routes(&mut t);
    let e = Endpoints::new(routes);
    let tys = e.tys(&mut t);
    assert!(tys.windows(2).all(|w| w[0] < w[1]));
    assert!(tys.contains(&msg));
    let out = e.ts_client(&mut t).ok().unwrap();
    let api = [
        "export const api = {\n",
        "    index: request<Record<string, never>, string>(\"none\", \"GET\", \"\", \"text\"),\n",
        "    api: request<Person, Person>(\"json\", \"GET\", \"/api\", \"json\"),\n",
        "    api2AB: request<Record<string, never>, string>(\"none\", \"GET\", \"/api2/:a/:b\", \"text\"),\n",
        "    wowRoom: sse<[string], chat.Msg>((room) => `/wow/${room}`, \"json\"),\n",
        "};\n",
    ]
    .concat();
    assert!(out.ends_with(&api));
    assert!(out.contains("export namespace chat {\n  export type Msg = {\n    \"text\": string\n  };\n}\n"));
    assert_eq!(e.ts_client(&mut t).ok().unwrap(), out);
}

#[test]
fn struct_path_parameters_match_by_name_and_order() {
    let mut t = Types::new();
    let string = <String as Tapi>::boxed(&mut t);
    let params = named(
        &mut t,
        "Params",
        &[],
        plain_struct("Params", vec![Field::new("a", string), Field::new("b", string)]),
    );
    let route = |path: &str| Route {
        path: path.to_string(),
        request: RequestStructure { path: Some(params), method: Method::Get, body: None },
        response: ResponseTapi::PlainText,
    };
    assert_eq!(
        route("/x/:a/:b").ts_client(&mut t).ok().unwrap(),
        "request<Record<string, never>, string>(\"none\", \"GET\", \"/x/:a/:b\", \"text\")"
    );
    assert!(route("/x/:b/:a").ts_client(&mut t).is_err());
    assert!(route("/x/:a").ts_client(&mut t).is_err());
}

#[test]
fn namespace_paths_from_full_names() {
    assert_eq!(
        namespace_path("tapi::tests::tuple_multi_struct::A"),
        vec!["tapi", "tests", "tuple_multi_struct"]
    );
    assert_eq!(namespace_path("alloc::vec::Vec<i32>"), vec!["alloc", "vec"]);
    assert_eq!(namespace_path("a::b<c::d>"), vec!["a"]);
    assert!(namespace_path("i32").is_empty());
}

#[test]
fn js_namespaces_have_empty_markers() {
    let mut t = Types::new();
    let x = named(&mut t, "X", &["a"], plain_struct("X", vec![]));
    let mut b = js::builder();
    b.prelude = String::new();
    assert_eq!(
        b.types(&t, &vec![x]).ok().unwrap(),
        "\n  /**\n   * @typedef {{  }} a.X */\n\n"
    );
}

#[test]
fn outside_types_have_known_shapes() {
    let mut t = Types::new();
    let v = <serde_json::Value as Tapi>::boxed(&mut t);
    let m = <indexmap::IndexMap<String, i32> as Tapi>::boxed(&mut t);
    let s = <indexmap::IndexSet<u16> as Tapi>::boxed(&mut t);
    let d = <chrono::NaiveDate as Tapi>::boxed(&mut t);
    let dt = <toml::value::Datetime as Tapi>::boxed(&mut t);
    let st = <smol_str::SmolStr as Tapi>::boxed(&mut t);
    assert_eq!(ts::full_ty_name(&t, v), "any");
    assert_eq!(ts::full_ty_name(&t, m), "Record<string, number>");
    assert_eq!(fs::full_ty_name(&t, s), "List<uint16>");
    assert_eq!(ts::full_ty_name(&t, d), "string");
    assert_eq!(fs::full_ty_name(&t, dt), "string");
    assert_eq!(ts::full_ty_name(&t, st), "string");
}

#[test]
fn axum_extractors_describe_their_parts() {
    let mut t = Types::new();
    let p = <axum::extract::Path<(String, u32)> as RequestTapiExtractor>::extract_request(&mut t);
    let q = <axum::extract::Query<Vec<bool>> as RequestTapiExtractor>::extract_request(&mut t);
    let st = <axum::extract::State<u8> as RequestTapiExtractor>::extract_request(&mut t);
    let mut r = RequestStructure::new(Method::Post);
    r.merge_with(p);
    r.merge_with(q);
    r.merge_with(st);
    assert_eq!(ts::full_ty_name(&t, r.path.unwrap()), "[string, number]");
    match r.body {
        Some(RequestStructureBody::Query(b)) => assert_eq!(ts::full_ty_name(&t, b), "boolean[]"),
        other => panic!("unexpected body {:?}", other),
    }
    let j = <axum::Json<Option<i64>> as ResponseTapiExtractor>::extract_response(&mut t);
    match j {
        ResponseTapi::Json(h) => assert_eq!(ts::full_ty_name(&t, h), "(number | null)"),
        other => panic!("unexpected response {:?}", other),
    }
    assert!(matches!(
        <axum::response::Html<String> as ResponseTapiExtractor>::extract_response(&mut t),
        ResponseTapi::Html
    ));
}

#[test]
fn all_dependencies_start_from_the_type() {
    let mut t = Types::new();
    let int = <i32 as Tapi>::boxed(&mut t);
    let list = <Vec<i32> as Tapi>::boxed(&mut t);
    let other = <bool as Tapi>::boxed(&mut t);
    let a = named(&mut t, "A", &[], plain_struct("A", vec![Field::new("x", list)]));
    let mut all = t.all_dependencies(a);
    all.sort();
    let mut expected = vec![a, list, int];
    expected.sort();
    assert_eq!(all, expected);
    assert!(!all.contains(&other));
}

#[test]
fn streaming_route_needs_path_parameters_for_its_placeholders() {
    let mut t = Types::new();
    let string = <String as Tapi>::boxed(&mut t);
    let r = Route {
        path: "/wow/:room".to_string(),
        request: RequestStructure::new(Method::Get),
        response: ResponseTapi::Sse(string),
    };
    assert_eq!(error_kind(r.ts_client(&mut t)), GenErrorKind::PathParamsMismatch);
    let plain = Route {
        path: "/wow".to_string(),
        request: RequestStructure::new(Method::Get),
        response: ResponseTapi::Sse(string),
    };
    assert_eq!(plain.ts_client(&mut t).ok().unwrap(), "sse<[], string>(() => `/wow`, \"json\")");
}

#[test]
fn extraction_is_stable_through_wrappers() {
    let mut t = Types::new();
    let a = <std::cell::RefCell<(String, u8)> as Tapi>::boxed(&mut t);
    let n = t.len();
    let b = tapi::TypedWrap::<(String, u8)>::new().boxed(&mut t);
    let c = <std::cell::Cell<(String, u8)> as Tapi>::boxed(&mut t);
    assert_eq!(a, b);
    assert_eq!(a, c);
    assert_eq!(t.len(), n);
    assert_eq!(ts::full_ty_name(&t, a), "[string, number]");
}

#[test]
fn dependencies_keep_declaration_order() {
    let mut t = Types::new();
    let int = <i32 as Tapi>::boxed(&mut t);
    let string = <String as Tapi>::boxed(&mut t);
    let record = <std::collections::HashMap<String, i32> as Tapi>::boxed(&mut t);
    assert_eq!(t.dependencies(record), vec![string, int]);
    let e = named(
        &mut t,
        "E",
        &[],
        TypeKind::Enum(Enum {
            attr: ContainerAttributes::new("E"),
            variants: vec![
                EnumVariant { name: "A".into(), kind: VariantKind::Tuple(vec![int, string]) },
                EnumVariant { name: "B".into(), kind: VariantKind::Unit },
                EnumVariant { name: "C".into(), kind: VariantKind::Struct(vec![Field::new("x", int)]) },
            ],
        }),
    );
    assert_eq!(t.dependencies(e), vec![int, string, int]);
}
