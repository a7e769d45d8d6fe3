//! Types of outside crates that the library names: request extractors and
//! response types of `axum`, and data types of `serde_json`, `indexmap`,
//! `chrono`, `toml` and `smol_str` whose wire shape is known. Each is only
//! carried through; nothing inside one is read.
use vstd::prelude::*;

verus! {

/// `axum::extract::Path`: path parameters, described by their type.
#[verifier::external_type_specification]
#[verifier::external_body]
#[verifier::reject_recursive_types(T)]
pub struct ExPath<T>(axum::extract::Path<T>);

/// `axum::extract::Query`: a query-string body, described by its type.
#[verifier::external_type_specification]
#[verifier::external_body]
#[verifier::reject_recursive_types(T)]
pub struct ExQuery<T>(axum::extract::Query<T>);

/// `axum::Json`: a JSON body or response, described by its type.
#[verifier::external_type_specification]
#[verifier::external_body]
#[verifier::reject_recursive_types(T)]
pub struct ExJson<T>(axum::Json<T>);

/// `axum::extract::State`: application state, no part of the wire shape.
#[verifier::external_type_specification]
#[verifier::external_body]
#[verifier::reject_recursive_types(S)]
pub struct ExState<S>(axum::extract::State<S>);

/// `axum::response::Html`: an HTML response.
#[verifier::external_type_specification]
#[verifier::external_body]
#[verifier::reject_recursive_types(T)]
pub struct ExHtml<T>(axum::response::Html<T>);

/// `serde_json::Value`: any JSON value.
#[verifier::external_type_specification]
#[verifier::external_body]
pub struct ExValue(serde_json::Value);

/// `indexmap::IndexMap`: serialized as a map.
#[verifier::external_type_specification]
#[verifier::external_body]
#[verifier::reject_recursive_types(K)]
#[verifier::reject_recursive_types(V)]
#[verifier::reject_recursive_types(S)]
pub struct ExIndexMap<K, V, S>(indexmap::IndexMap<K, V, S>);

/// `indexmap::IndexSet`: serialized as a list.
#[verifier::external_type_specification]
#[verifier::external_body]
#[verifier::reject_recursive_types(T)]
#[verifier::reject_recursive_types(S)]
pub struct ExIndexSet<T, S>(indexmap::IndexSet<T, S>);

/// `chrono::NaiveDate`: serialized as a string.
#[verifier::external_type_specification]
#[verifier::external_body]
pub struct ExNaiveDate(chrono::NaiveDate);

/// `chrono::NaiveTime`: serialized as a string.
#[verifier::external_type_specification]
#[verifier::external_body]
pub struct ExNaiveTime(chrono::NaiveTime);

/// `chrono::NaiveDateTime`: serialized as a string.
#[verifier::external_type_specification]
#[verifier::external_body]
pub struct ExNaiveDateTime(chrono::NaiveDateTime);

/// `toml::value::Date`: serialized as a string.
#[verifier::external_type_specification]
#[verifier::external_body]
pub struct ExDate(toml::value::Date);

/// `toml::value::Datetime`: serialized as a string.
#[verifier::external_type_specification]
#[verifier::external_body]
pub struct ExDatetime(toml::value::Datetime);

/// `toml::value::Time`: serialized as a string.
#[verifier::external_type_specification]
#[verifier::external_body]
pub struct ExTime(toml::value::Time);

/// `smol_str::SmolStr`: serialized as a string.
#[verifier::external_type_specification]
#[verifier::external_body]
pub struct ExSmolStr(smol_str::SmolStr);

/// `std::cell::Cell`: serialized as the value it holds.
#[verifier::external_type_specification]
#[verifier::external_body]
#[verifier::reject_recursive_types(T)]
pub struct ExCell<T: ?Sized>(std::cell::Cell<T>);

/// `std::cell::RefCell`: serialized as the value it holds.
#[verifier::external_type_specification]
#[verifier::external_body]
#[verifier::reject_recursive_types(T)]
pub struct ExRefCell<T: ?Sized>(std::cell::RefCell<T>);

} // verus!
