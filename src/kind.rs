//! The shape descriptors of the schema model and the serialization
//! attributes that affect wire shape.
use vstd::prelude::*;

use crate::DynTapi;
use vstd::string::*;

verus! {

/// Attributes of a struct, tuple struct or enum.
#[derive(Clone, Debug)]
pub struct ContainerAttributes {
    pub name: Name,
    pub transparent: bool,
    pub deny_unknown_fields: bool,
    pub default: Default,
    pub tag: TagType,
    pub type_from: Option<DynTapi>,
    pub type_try_from: Option<DynTapi>,
    pub type_into: Option<DynTapi>,
    pub is_packed: bool,
    pub identifier: Identifier,
    pub has_flatten: bool,
    pub non_exhaustive: bool,
}

/// The name a type or field has on the wire, for each direction.
#[derive(Clone, Debug)]
pub struct Name {
    pub serialize_name: String,
    pub deserialize_name: String,
}

#[derive(Clone, Debug)]
pub enum Default {
    NoDefault,
    Default,
    Path,
}

/// Where an enum's discriminant is placed on the wire.
#[derive(Clone, Debug)]
pub enum TagType {
    External,
    Internal { tag: String },
    Adjacent { tag: String, content: String },
    Untagged,
}

#[derive(Clone, Debug)]
pub enum Identifier {
    No,
    Field,
    Variant,
}

/// The shape of a type. Named kinds (structs, tuple structs and enums) are
/// declared on their own; the other kinds are spelled out where they are used.
#[derive(Clone, Debug)]
pub enum TypeKind {
    Struct(Struct),
    TupleStruct(TupleStruct),
    Enum(Enum),
    List(DynTapi),
    Option(DynTapi),
    Tuple(Vec<DynTapi>),
    Builtin(BuiltinTypeKind),
    Record(DynTapi, DynTapi),
    Any,
}

#[derive(Clone, Debug, PartialEq, Eq, Structural)]
pub enum BuiltinTypeKind {
    U8,
    U16,
    U32,
    U64,
    U128,
    I8,
    I16,
    I32,
    I64,
    I128,
    F32,
    F64,
    Usize,
    Isize,
    Bool,
    Char,
    String,
    Unit,
}

#[derive(Clone, Debug)]
pub struct Struct {
    pub attr: ContainerAttributes,
    pub fields: Vec<Field>,
}

#[derive(Clone, Debug)]
pub struct TupleStruct {
    pub attr: ContainerAttributes,
    pub fields: Vec<TupleStructField>,
}

#[derive(Clone, Debug)]
pub struct TupleStructField {
    pub attr: FieldAttributes,
    pub ty: DynTapi,
}

#[derive(Clone, Debug)]
pub struct Field {
    pub attr: FieldAttributes,
    pub name: FieldName,
    pub ty: DynTapi,
}

#[derive(Clone, Debug)]
pub enum FieldName {
    Named(Name),
    Index(usize),
}

#[derive(Clone, Debug)]
pub struct FieldAttributes {
    pub name: Name,
    pub aliases: Vec<String>,
    pub skip_serializing: bool,
    pub skip_deserializing: bool,
    pub default: Default,
    pub flatten: bool,
    pub transparent: bool,
}

#[derive(Clone, Debug)]
pub struct Enum {
    pub attr: ContainerAttributes,
    pub variants: Vec<EnumVariant>,
}

#[derive(Clone, Debug)]
pub struct EnumVariant {
    pub name: String,
    pub kind: VariantKind,
}

#[derive(Clone, Debug)]
pub enum VariantKind {
    Unit,
    Tuple(Vec<DynTapi>),
    Struct(Vec<Field>),
}

/// `x` is a direct child of a variant's payload.
pub open spec fn variant_child(k: VariantKind, x: DynTapi) -> bool {
    match k {
        VariantKind::Unit => false,
        VariantKind::Tuple(tys) => tys@.contains(x),
        VariantKind::Struct(fields) => exists|j: int|
            0 <= j < fields@.len() && (#[trigger] fields@[j]).ty == x,
    }
}

/// `x` is reached from a kind through exactly one level of unwrapping.
pub open spec fn child(k: TypeKind, x: DynTapi) -> bool {
    match k {
        TypeKind::Struct(s) => exists|j: int|
            0 <= j < s.fields@.len() && (#[trigger] s.fields@[j]).ty == x,
        TypeKind::TupleStruct(s) => exists|j: int|
            0 <= j < s.fields@.len() && (#[trigger] s.fields@[j]).ty == x,
        TypeKind::Enum(e) => exists|j: int|
            0 <= j < e.variants@.len() && variant_child((#[trigger] e.variants@[j]).kind, x),
        TypeKind::List(t) => t == x,
        TypeKind::Option(t) => t == x,
        TypeKind::Tuple(tys) => tys@.contains(x),
        TypeKind::Builtin(_) => false,
        TypeKind::Record(k, v) => k == x || v == x,
        TypeKind::Any => false,
    }
}

/// Structs, tuple structs and enums carry a declaration of their own.
pub open spec fn is_named(k: TypeKind) -> bool {
    match k {
        TypeKind::Struct(_) | TypeKind::TupleStruct(_) | TypeKind::Enum(_) => true,
        _ => false,
    }
}

impl Name {
    /// A name that is the same in both directions.
    pub fn new(name: &str) -> (r: Name)
        ensures
            r.serialize_name@ == name@,
            r.deserialize_name@ == name@,
    {
        Name { serialize_name: String::from_str(name), deserialize_name: String::from_str(name) }
    }
}

impl ContainerAttributes {
    /// Attributes with no serde options set: externally tagged, not transparent.
    pub fn new(name: &str) -> (r: ContainerAttributes)
        ensures
            r.name.serialize_name@ == name@,
            r.tag == TagType::External,
            !r.transparent,
    {
        ContainerAttributes {
            name: Name::new(name),
            transparent: false,
            deny_unknown_fields: false,
            default: Default::NoDefault,
            tag: TagType::External,
            type_from: None,
            type_try_from: None,
            type_into: None,
            is_packed: false,
            identifier: Identifier::No,
            has_flatten: false,
            non_exhaustive: false,
        }
    }
}

impl FieldAttributes {
    /// Attributes with no serde options set.
    pub fn new(name: &str) -> (r: FieldAttributes)
        ensures
            r.name.serialize_name@ == name@,
            !r.skip_serializing,
            !r.flatten,
    {
        FieldAttributes {
            name: Name::new(name),
            aliases: Vec::new(),
            skip_serializing: false,
            skip_deserializing: false,
            default: Default::NoDefault,
            flatten: false,
            transparent: false,
        }
    }
}

impl Field {
    /// A named field of type `ty`, with no serde options set.
    pub fn new(name: &str, ty: DynTapi) -> (r: Field)
        ensures
            r.attr.name.serialize_name@ == name@,
            !r.attr.skip_serializing,
            r.name matches FieldName::Named(n) && n.serialize_name@ == name@,
            r.ty == ty,
    {
        Field { attr: FieldAttributes::new(name), name: FieldName::Named(Name::new(name)), ty }
    }
}

impl TupleStructField {
    /// A positional field of type `ty`, with no serde options set.
    pub fn new(ty: DynTapi) -> (r: TupleStructField)
        ensures
            r.ty == ty,
            !r.attr.skip_serializing,
    {
        TupleStructField { attr: FieldAttributes::new(""), ty }
    }
}


/// Why a schema could not be rendered.
#[derive(Clone, Copy, Debug, PartialEq, Eq, Structural)]
pub enum GenErrorKind {
    /// An untagged enum: no renderer spells these out.
    Untagged,
    /// An internally tagged enum with a tuple variant, which serde rejects.
    InternallyTaggedTuple,
    /// A transparent struct whose fields are all skipped.
    NoFieldInTransparent,
    /// A route whose placeholders do not match its path parameters.
    PathParamsMismatch,
}

/// A failed generation, with the name and module path of the offending
/// type (or, for a route, its path pattern and no module path).
#[derive(Clone, Debug)]
pub struct GenError {
    pub kind: GenErrorKind,
    pub name: String,
    pub path: Vec<String>,
}

/// The declared (serialize) name of a named kind.
pub open spec fn decl_name(k: TypeKind) -> Seq<char> {
    match k {
        TypeKind::Struct(s) => s.attr.name.serialize_name@,
        TypeKind::TupleStruct(s) => s.attr.name.serialize_name@,
        TypeKind::Enum(e) => e.attr.name.serialize_name@,
        _ => Seq::empty(),
    }
}

/// What is wrong with an enum that cannot be rendered, if anything.
pub open spec fn enum_fault(e: Enum) -> Option<GenErrorKind> {
    match e.attr.tag {
        TagType::Untagged => Some(GenErrorKind::Untagged),
        TagType::Internal { .. } => if exists|j: int|
            0 <= j < e.variants@.len() && (#[trigger] e.variants@[j]).kind is Tuple {
            Some(GenErrorKind::InternallyTaggedTuple)
        } else {
            None
        },
        _ => None,
    }
}

/// Some variant carries data.
pub open spec fn has_data(vs: Seq<EnumVariant>) -> bool {
    exists|j: int| 0 <= j < vs.len() && !((#[trigger] vs[j]).kind is Unit)
}

/// The first field that is serialized, if any.
pub open spec fn first_unskipped(fields: Seq<Field>) -> Option<int> {
    if exists|i: int| 0 <= i < fields.len() && !(#[trigger] fields[i]).attr.skip_serializing {
        Some(
            choose|i: int|
                0 <= i < fields.len() && !(#[trigger] fields[i]).attr.skip_serializing && forall|j: int|
                    0 <= j < i ==> (#[trigger] fields[j]).attr.skip_serializing,
        )
    } else {
        None
    }
}

/// The first serialized field, if any.
pub fn find_unskipped(fields: &Vec<Field>) -> (r: Option<usize>)
    ensures
        match r {
            Some(i) => first_unskipped(fields@) == Some(i as int) && i < fields@.len(),
            None => first_unskipped(fields@) is None,
        },
{
    let mut i: usize = 0;
    while i < fields.len()
        invariant
            0 <= i <= fields@.len(),
            forall|j: int| 0 <= j < i ==> (#[trigger] fields@[j]).attr.skip_serializing,
        decreases fields@.len() - i,
    {
        if !fields[i].attr.skip_serializing {
            proof {
                let f = fields@;
                assert(!f[i as int].attr.skip_serializing);
                let c = choose|c: int|
                    0 <= c < f.len() && !(#[trigger] f[c]).attr.skip_serializing && forall|j: int|
                        0 <= j < c ==> (#[trigger] f[j]).attr.skip_serializing;
                if c < i {
                    assert(f[c].attr.skip_serializing);
                } else if c > i {
                    assert(f[i as int].attr.skip_serializing);
                }
            }
            return Some(i);
        }
        i = i + 1;
    }
    None
}

/// Checks an enum for a shape that cannot be rendered.
pub fn check_enum(e: &Enum) -> (r: Option<GenErrorKind>)
    ensures
        r == enum_fault(*e),
{
    match &e.attr.tag {
        TagType::Untagged => Some(GenErrorKind::Untagged),
        TagType::Internal { .. } => {
            let mut i: usize = 0;
            while i < e.variants.len()
                invariant
                    e.attr.tag is Internal,
                    0 <= i <= e.variants@.len(),
                    forall|j: int| 0 <= j < i ==> !((#[trigger] e.variants@[j]).kind is Tuple),
                decreases e.variants@.len() - i,
            {
                if let VariantKind::Tuple(_) = &e.variants[i].kind {
                    assert(e.variants@[i as int].kind is Tuple);
                    return Some(GenErrorKind::InternallyTaggedTuple);
                }
                i = i + 1;
            }
            None
        },
        _ => None,
    }
}

/// Whether some variant carries data.
pub fn enum_has_data(vs: &Vec<EnumVariant>) -> (r: bool)
    ensures
        r == has_data(vs@),
{
    let mut i: usize = 0;
    while i < vs.len()
        invariant
            0 <= i <= vs@.len(),
            forall|j: int| 0 <= j < i ==> (#[trigger] vs@[j]).kind is Unit,
        decreases vs@.len() - i,
    {
        match &vs[i].kind {
            VariantKind::Unit => {},
            _ => {
                assert(!(vs@[i as int].kind is Unit));
                return true;
            },
        }
        i = i + 1;
    }
    false
}


/// A copy of a list of strings.
pub fn clone_strings(v: &Vec<String>) -> (r: Vec<String>)
    ensures
        r@.len() == v@.len(),
        forall|k: int| 0 <= k < v@.len() ==> (#[trigger] r@[k])@ == v@[k]@,
{
    let mut r: Vec<String> = Vec::new();
    let mut i: usize = 0;
    while i < v.len()
        invariant
            0 <= i <= v@.len(),
            r@.len() == i,
            forall|k: int| 0 <= k < i ==> (#[trigger] r@[k])@ == v@[k]@,
        decreases v@.len() - i,
    {
        r.push(v[i].clone());
        i = i + 1;
    }
    r
}

/// The handles of a tuple struct's fields.
pub fn tuple_tys(fields: &Vec<TupleStructField>) -> (r: Vec<DynTapi>)
    ensures
        r@ == fields@.map_values(|f: TupleStructField| f.ty),
{
    let mut r: Vec<DynTapi> = Vec::new();
    let mut i: usize = 0;
    while i < fields.len()
        invariant
            0 <= i <= fields@.len(),
            r@ == fields@.take(i as int).map_values(|f: TupleStructField| f.ty),
        decreases fields@.len() - i,
    {
        r.push(fields[i].ty);
        assert(r@ =~= fields@.take(i + 1).map_values(|f: TupleStructField| f.ty));
        i = i + 1;
    }
    assert(fields@.take(fields@.len() as int) =~= fields@);
    r
}

} // verus!
