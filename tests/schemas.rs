use serde::ser::{SerializeStruct, SerializeStructVariant, SerializeTupleVariant};
use serde::{Serialize, Serializer};
use tapi::kind::{
    ContainerAttributes, Enum, EnumVariant, Field, Struct, TagType, TupleStruct, TupleStructField,
    TypeKind, VariantKind,
};
use tapi::targets::{fs, ts};
use tapi::{DynTapi, Tapi, TapiDyn, Types};

fn module(test: &str) -> Vec<String> {
    vec!["tapi".to_string(), "tests".to_string(), test.to_string()]
}

fn declare(t: &mut Types, test: &str, kind: TypeKind) -> DynTapi {
    t.intern(TapiDyn {
        name: format!("tapi::tests::{test}::A"),
        kind,
        path: module(test),
    })
}

fn attrs(tag: TagType) -> ContainerAttributes {
    let mut a = ContainerAttributes::new("A");
    a.tag = tag;
    a
}

fn internal(tag: &str) -> TagType {
    TagType::Internal { tag: tag.to_string() }
}

fn adjacent(tag: &str, content: &str) -> TagType {
    TagType::Adjacent { tag: tag.to_string(), content: content.to_string() }
}

fn unit(name: &str) -> EnumVariant {
    EnumVariant { name: name.to_string(), kind: VariantKind::Unit }
}

fn tuple(name: &str, tys: Vec<DynTapi>) -> EnumVariant {
    EnumVariant { name: name.to_string(), kind: VariantKind::Tuple(tys) }
}

fn record(name: &str, fields: Vec<Field>) -> EnumVariant {
    EnumVariant { name: name.to_string(), kind: VariantKind::Struct(fields) }
}

fn ts_decl(t: &Types, ty: DynTapi) -> String {
    ts::ty_decl(t, ty).ok().unwrap().unwrap_or_default()
}

fn fs_decl(t: &Types, ty: DynTapi) -> String {
    fs::ty_decl(t, ty).ok().unwrap().unwrap_or_default()
}

/// The enum `A { X(String), Y { thingy: String }, Z, W(i32, i32) }` under a
/// tag encoding, written out as serde's derive would.
enum Mixed {
    X(String),
    Y { thingy: String },
    Z,
    W(i32, i32),
}

struct Adjacent<'a>(&'a Mixed);

impl Serialize for Mixed {
    fn serialize<S: Serializer>(&self, s: S) -> Result<S::Ok, S::Error> {
        match self {
            Mixed::X(v) => s.serialize_newtype_variant("A", 0, "X", v),
            Mixed::Y { thingy } => {
                let mut st = s.serialize_struct_variant("A", 1, "Y", 1)?;
                st.serialize_field("thingy", thingy)?;
                st.end()
            }
            Mixed::Z => s.serialize_unit_variant("A", 2, "Z"),
            Mixed::W(a, b) => {
                let mut st = s.serialize_tuple_variant("A", 3, "W", 2)?;
                st.serialize_field(a)?;
                st.serialize_field(b)?;
                st.end()
            }
        }
    }
}

struct Thingy<'a>(&'a str);

impl Serialize for Thingy<'_> {
    fn serialize<S: Serializer>(&self, s: S) -> Result<S::Ok, S::Error> {
        let mut st = s.serialize_struct("Y", 1)?;
        st.serialize_field("thingy", self.0)?;
        st.end()
    }
}

impl Serialize for Adjacent<'_> {
    fn serialize<S: Serializer>(&self, s: S) -> Result<S::Ok, S::Error> {
        let fields = if matches!(self.0, Mixed::Z) { 1 } else { 2 };
        let mut st = s.serialize_struct("A", fields)?;
        match self.0 {
            Mixed::X(v) => {
                st.serialize_field("type", "X")?;
                st.serialize_field("data", v)?;
            }
            Mixed::Y { thingy } => {
                st.serialize_field("type", "Y")?;
                st.serialize_field("data", &Thingy(thingy))?;
            }
            Mixed::Z => {
                st.serialize_field("type", "Z")?;
            }
            Mixed::W(a, b) => {
                st.serialize_field("type", "W")?;
                st.serialize_field("data", &(a, b))?;
            }
        }
        st.end()
    }
}

/// `A { X { wow: String }, Y { thingy: String }, Z }` tagged internally by
/// `type`, written out as serde's derive would.
enum Tagged {
    X { wow: String },
    Y { thingy: String },
    Z,
}

impl Serialize for Tagged {
    fn serialize<S: Serializer>(&self, s: S) -> Result<S::Ok, S::Error> {
        match self {
            Tagged::X { wow } => {
                let mut st = s.serialize_struct("A", 2)?;
                st.serialize_field("type", "X")?;
                st.serialize_field("wow", wow)?;
                st.end()
            }
            Tagged::Y { thingy } => {
                let mut st = s.serialize_struct("A", 2)?;
                st.serialize_field("type", "Y")?;
                st.serialize_field("thingy", thingy)?;
                st.end()
            }
            Tagged::Z => {
                let mut st = s.serialize_struct("A", 1)?;
                st.serialize_field("type", "Z")?;
                st.end()
            }
        }
    }
}

/// A unit variant of an enum tagged internally by `type`, written out as
/// serde's derive would.
struct UnitTagged(&'static str);

impl Serialize for UnitTagged {
    fn serialize<S: Serializer>(&self, s: S) -> Result<S::Ok, S::Error> {
        let mut st = s.serialize_struct("A", 1)?;
        st.serialize_field("type", self.0)?;
        st.end()
    }
}

fn mixed_enum(t: &mut Types, test: &str, tag: TagType) -> DynTapi {
    let string = <String as Tapi>::boxed(t);
    let int = <i32 as Tapi>::boxed(t);
    declare(
        t,
        test,
        TypeKind::Enum(Enum {
            attr: attrs(tag),
            variants: vec![
                tuple("X", vec![string]),
                record("Y", vec![Field::new("thingy", string)]),
                unit("Z"),
                tuple("W", vec![int, int]),
            ],
        }),
    )
}

#[test]
fn basic_struct() {
    let mut t = Types::new();
    let int = <i32 as Tapi>::boxed(&mut t);
    let string = <String as Tapi>::boxed(&mut t);
    let a = declare(
        &mut t,
        "basic_struct",
        TypeKind::Struct(Struct {
            attr: ContainerAttributes::new("A"),
            fields: vec![Field::new("a", int), Field::new("b", string)],
        }),
    );
    assert_eq!(ts_decl(&t, a), "export type A = {\n  \"a\": number,\n  \"b\": string\n};");
    assert_eq!(fs_decl(&t, a), "type A =\n  { a: int32\n    b: string }");
}

#[test]
fn empty_struct() {
    let mut t = Types::new();
    let a = declare(
        &mut t,
        "empty_struct",
        TypeKind::Struct(Struct { attr: ContainerAttributes::new("A"), fields: vec![] }),
    );
    assert_eq!(ts_decl(&t, a), "export type A = {\n\n};");
    assert_eq!(fs_decl(&t, a), "type A =\n  {  }");
}

#[test]
fn transparent_struct() {
    let mut t = Types::new();
    let list = <Vec<i32> as Tapi>::boxed(&mut t);
    let mut attr = ContainerAttributes::new("A");
    attr.transparent = true;
    let a = declare(
        &mut t,
        "transparent_struct",
        TypeKind::Struct(Struct { attr, fields: vec![Field::new("x", list)] }),
    );
    assert_eq!(ts_decl(&t, a), "export type A = number[];");
    assert_eq!(fs_decl(&t, a), "type A = List<int32>");
}

#[test]
fn tuple_single_struct() {
    let mut t = Types::new();
    let string = <String as Tapi>::boxed(&mut t);
    let a = declare(
        &mut t,
        "tuple_single_struct",
        TypeKind::TupleStruct(TupleStruct {
            attr: ContainerAttributes::new("A"),
            fields: vec![TupleStructField::new(string)],
        }),
    );
    assert_eq!(ts_decl(&t, a), "export type A = string;");
    assert_eq!(fs_decl(&t, a), "type A = string");
}

#[test]
fn tuple_multi_struct() {
    let mut t = Types::new();
    let string = <String as Tapi>::boxed(&mut t);
    let int = <i32 as Tapi>::boxed(&mut t);
    let a = declare(&mut t, "tuple_multi_struct", TypeKind::Any);
    let list = t.intern(TapiDyn {
        name: "alloc::vec::Vec<tapi::tests::tuple_multi_struct::A>".to_string(),
        kind: TypeKind::List(a),
        path: vec![],
    });
    t.define(
        a,
        TypeKind::TupleStruct(TupleStruct {
            attr: ContainerAttributes::new("A"),
            fields: vec![
                TupleStructField::new(string),
                TupleStructField::new(int),
                TupleStructField::new(list),
            ],
        }),
    );
    assert_eq!(
        ts_decl(&t, a),
        "export type A = [string, number, tapi.tests.tuple_multi_struct.A[]];"
    );
    assert_eq!(
        fs_decl(&t, a),
        "type A = string * int32 * List<tapi.tests.tuple_multi_struct.A>"
    );
}

#[test]
fn transparent_struct_with_multiple_fields() {
    let mut t = Types::new();
    let list = <Vec<i32> as Tapi>::boxed(&mut t);
    let string = <String as Tapi>::boxed(&mut t);
    let mut attr = ContainerAttributes::new("A");
    attr.transparent = true;
    let mut x = Field::new("x", list);
    x.attr.skip_serializing = true;
    x.attr.skip_deserializing = true;
    let a = declare(
        &mut t,
        "transparent_struct_with_multiple_fields",
        TypeKind::Struct(Struct { attr, fields: vec![x, Field::new("y", string)] }),
    );
    assert_eq!(ts_decl(&t, a), "export type A = string;");
    assert_eq!(fs_decl(&t, a), "type A = string");
}

#[test]
fn basic_enum() {
    let mut t = Types::new();
    let a = declare(
        &mut t,
        "basic_enum",
        TypeKind::Enum(Enum {
            attr: attrs(TagType::External),
            variants: vec![unit("X"), unit("Y"), unit("Z")],
        }),
    );
    assert_eq!(
        ts_decl(&t, a),
        "export type A =\n  | \"X\"\n  | \"Y\"\n  | \"Z\";\nexport const A: A[] = [\"X\", \"Y\", \"Z\"];"
    );
}

#[test]
fn tagged_enum() {
    let mut t = Types::new();
    let a = declare(
        &mut t,
        "tagged_enum",
        TypeKind::Enum(Enum {
            attr: attrs(internal("type")),
            variants: vec![unit("X"), unit("Y"), unit("Z")],
        }),
    );
    assert_eq!(serde_json::to_string_pretty(&UnitTagged("X")).unwrap(), "{\n  \"type\": \"X\"\n}");
    assert_eq!(
        ts_decl(&t, a),
        "export type A =\n  | { \"type\": \"X\" }\n  | { \"type\": \"Y\" }\n  | { \"type\": \"Z\" };\nexport const A: A[] = [{ \"type\": \"X\" }, { \"type\": \"Y\" }, { \"type\": \"Z\" }];"
    );
}

#[test]
fn tagged_enum_with_data() {
    let mut t = Types::new();
    let string = <String as Tapi>::boxed(&mut t);
    let a = declare(
        &mut t,
        "tagged_enum_with_data",
        TypeKind::Enum(Enum {
            attr: attrs(internal("type")),
            variants: vec![
                record("X", vec![Field::new("wow", string)]),
                record("Y", vec![Field::new("thingy", string)]),
                unit("Z"),
            ],
        }),
    );
    let sample = [
        Tagged::X { wow: "...".to_string() },
        Tagged::Y { thingy: "123".to_string() },
        Tagged::Z,
    ];
    assert_eq!(
        serde_json::to_string_pretty(&sample).unwrap(),
        "[\n  {\n    \"type\": \"X\",\n    \"wow\": \"...\"\n  },\n  {\n    \"type\": \"Y\",\n    \"thingy\": \"123\"\n  },\n  {\n    \"type\": \"Z\"\n  }\n]"
    );
    assert_eq!(
        ts_decl(&t, a),
        "export type A =\n  | { \"type\": \"X\", \"wow\": string }\n  | { \"type\": \"Y\", \"thingy\": string }\n  | { \"type\": \"Z\" };"
    );
    assert_eq!(
        fs_decl(&t, a),
        "[<JsonFSharpConverter(BaseUnionEncoding = JsonUnionEncoding.UnwrapSingleFieldCases, UnionTagName = \"type\")>]\ntype A =\n  | X of wow: string\n  | Y of thingy: string\n  | Z"
    );
}

#[test]
fn externally_tagged_with_data() {
    let mut t = Types::new();
    let a = mixed_enum(&mut t, "externally_tagged_with_data", TagType::External);
    let sample = [
        Mixed::X("...".to_string()),
        Mixed::Y { thingy: "123".to_string() },
        Mixed::Z,
        Mixed::W(1, 2),
    ];
    assert_eq!(
        serde_json::to_string_pretty(&sample).unwrap(),
        "[\n  {\n    \"X\": \"...\"\n  },\n  {\n    \"Y\": {\n      \"thingy\": \"123\"\n    }\n  },\n  \"Z\",\n  {\n    \"W\": [\n      1,\n      2\n    ]\n  }\n]"
    );
    assert_eq!(
        ts_decl(&t, a),
        "export type A =\n  | { \"X\": string }\n  | { \"Y\": { \"thingy\": string } }\n  | \"Z\"\n  | { \"W\": [number, number] };"
    );
    assert_eq!(
        fs_decl(&t, a),
        "[<JsonFSharpConverter(BaseUnionEncoding = JsonUnionEncoding.ExternalTag + JsonUnionEncoding.UnwrapFieldlessTags + JsonUnionEncoding.UnwrapSingleFieldCases)>]\ntype A =\n  | X of string\n  | Y of thingy: string\n  | Z\n  | W of int32 * int32"
    );
}

#[test]
fn adjacent_with_data() {
    let mut t = Types::new();
    let a = mixed_enum(&mut t, "adjacent_with_data", adjacent("type", "data"));
    let sample = [
        Mixed::X("...".to_string()),
        Mixed::Y { thingy: "123".to_string() },
        Mixed::Z,
        Mixed::W(1, 2),
    ];
    let sample: Vec<Adjacent> = sample.iter().map(Adjacent).collect();
    assert_eq!(
        serde_json::to_string_pretty(&sample).unwrap(),
        "[\n  {\n    \"type\": \"X\",\n    \"data\": \"...\"\n  },\n  {\n    \"type\": \"Y\",\n    \"data\": {\n      \"thingy\": \"123\"\n    }\n  },\n  {\n    \"type\": \"Z\"\n  },\n  {\n    \"type\": \"W\",\n    \"data\": [\n      1,\n      2\n    ]\n  }\n]"
    );
    assert_eq!(
        ts_decl(&t, a),
        "export type A =\n  | { \"type\": \"X\", \"data\": string }\n  | { \"type\": \"Y\", \"data\": { \"thingy\": string } }\n  | { \"type\": \"Z\" }\n  | { \"type\": \"W\", \"data\": [number, number] };"
    );
    assert_eq!(
        fs_decl(&t, a),
        "[<JsonFSharpConverter(BaseUnionEncoding = JsonUnionEncoding.UnwrapSingleFieldCases, UnionTagName = \"type\", UnionFieldsName = \"data\")>]\ntype A =\n  | X of string\n  | Y of thingy: string\n  | Z\n  | W of int32 * int32"
    );
}

#[test]
fn new_kind_struct() {
    let mut t = Types::new();
    let string = <String as Tapi>::boxed(&mut t);
    let int = <i32 as Tapi>::boxed(&mut t);
    let a = declare(&mut t, "new_kind_struct", TypeKind::Any);
    let pair = t.intern(TapiDyn {
        name: "(alloc::boxed::Box<tapi::tests::new_kind_struct::A>, i32)".to_string(),
        kind: TypeKind::Tuple(vec![a, int]),
        path: vec![],
    });
    t.define(
        a,
        TypeKind::Struct(Struct {
            attr: ContainerAttributes::new("A"),
            fields: vec![Field::new("x", string), Field::new("y", pair)],
        }),
    );
    println!("{}", ts_decl(&t, a));
}

fn recursive_enum(test: &str, tag: TagType, tuples: bool) -> (Types, DynTapi) {
    let mut t = Types::new();
    let string = <String as Tapi>::boxed(&mut t);
    let int = <i32 as Tapi>::boxed(&mut t);
    let a = declare(&mut t, test, TypeKind::Any);
    let list = t.intern(TapiDyn {
        name: format!("alloc::vec::Vec<tapi::tests::{test}::A>"),
        kind: TypeKind::List(a),
        path: vec![],
    });
    let mut variants = vec![];
    if tuples {
        variants.push(tuple("X", vec![string]));
    } else {
        variants.push(record("X", vec![Field::new("wow", string)]));
    }
    variants.push(record("Y", vec![Field::new("thingy", string), Field::new("other", list)]));
    variants.push(unit("Z"));
    if tuples {
        variants.push(tuple("W", vec![int, int]));
    }
    t.define(a, TypeKind::Enum(Enum { attr: attrs(tag), variants }));
    (t, a)
}

#[test]
fn new_kind_enum() {
    let (t, a) = recursive_enum("new_kind_enum", TagType::External, true);
    println!("{}", serde_json::to_string(&Mixed::X("...".to_string())).unwrap());
    println!("{}", ts_decl(&t, a));
}

#[test]
fn new_kind_enum_tagged() {
    let (t, a) = recursive_enum("new_kind_enum_tagged", internal("kind"), false);
    println!("{}", ts_decl(&t, a));
}

#[test]
fn new_kind_enum_tagged_and_content() {
    let (t, a) = recursive_enum("new_kind_enum_tagged_and_content", adjacent("kind", "data"), true);
    println!("{}", ts_decl(&t, a));
}
