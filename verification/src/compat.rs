//! Identifiers and definitions of types of other crates that can cross the
//! boundary between a plugin and its runtime.

use vstd::prelude::*;
use crate::serializable::{
    add_type, generic_ident2, generic_ident_view, holds_key, lemma_add_type, lemma_kept_key, map_of_k_v, param, plain_ident,
    Serializable,
};
use crate::types::type_map::lemma_keeps_entries_trans;
use crate::types::TypeMap;
use crate::text::str_views;
use crate::types::cargo_dependency::{feature_names, strs_of, version_dependency, CargoDependency};
use crate::types::custom_type::CustomType;
use crate::types::type_ident::IdentView;
use crate::types::{Type, TypeIdent};

verus! {

/// The type `bytes::Bytes`, which the library names and never looks into.
#[verifier::external_type_specification]
#[verifier::external_body]
pub struct ExBytes(bytes::Bytes);

/// The type `http::Method`, which the library names and never looks into.
#[verifier::external_type_specification]
#[verifier::external_body]
pub struct ExMethod(http::Method);

/// The type `http::uri::Scheme`, which the library names and never looks into.
#[verifier::external_type_specification]
#[verifier::external_body]
pub struct ExScheme(http::uri::Scheme);

/// The type `http::uri::Uri`, which the library names and never looks into.
#[verifier::external_type_specification]
#[verifier::external_body]
pub struct ExUri(http::uri::Uri);

/// The type `http::HeaderValue`, which the library names and never looks into.
#[verifier::external_type_specification]
#[verifier::external_body]
pub struct ExHeaderValue(http::HeaderValue);

/// The type `http::HeaderMap`, which the library names and never looks into.
#[verifier::external_type_specification]
#[verifier::external_body]
#[verifier::reject_recursive_types(T)]
pub struct ExHeaderMap<T>(http::HeaderMap<T>);

/// The type `time::OffsetDateTime`, which the library names and never looks into.
#[verifier::external_type_specification]
#[verifier::external_body]
pub struct ExOffsetDateTime(time::OffsetDateTime);

/// The type `time::PlainDateTime`, which the library names and never looks into.
#[verifier::external_type_specification]
#[verifier::external_body]
pub struct ExPlainDateTime(time::PlainDateTime);

/// The type `serde_json::Value`, which the library names and never looks into.
#[verifier::external_type_specification]
#[verifier::external_body]
pub struct ExJsonValue(serde_json::Value);

/// The type `serde_json::Map`, which the library names and never looks into.
#[verifier::external_type_specification]
#[verifier::external_body]
#[verifier::reject_recursive_types(K)]
#[verifier::reject_recursive_types(V)]
pub struct ExJsonMap<K, V>(serde_json::Map<K, V>);

/// The type `url::Url`, which the library names and never looks into.
#[verifier::external_type_specification]
#[verifier::external_body]
pub struct ExUrl(url::Url);

/// The TypeScript declaration of `Method`.
pub const METHOD_DECLARATION: &'static str = "\n    | \"GET\"\n    | \"POST\"\n    | \"PUT\"\n    | \"DELETE\"\n    | \"HEAD\"\n    | \"OPTIONS\"\n    | \"CONNECT\"\n    | \"PATCH\"\n    | \"TRACE\"";

/// The TypeScript declaration of `Scheme`.
pub const SCHEME_DECLARATION: &'static str = "\"http\" | \"https\"";

/// The TypeScript declaration of `HeaderMap`.
pub const HEADER_MAP_DECLARATION: &'static str = "{ [key: string]: Uint8Array }";

/// The Git repository of the support crate.
pub const SUPPORT_GIT: &'static str = "ssh://git@github.com/fiberplane/fp-bindgen.git";

/// The features `[f]`.
fn one_feature(f: &'static str) -> (res: Vec<&'static str>)
    ensures
        feature_names(res@) == set![f@],
{
    let mut v: Vec<&'static str> = Vec::new();
    v.push(f);
    proof {
        assert(strs_of(v@) =~= seq![f@]);
        assert forall|x: Seq<char>| strs_of(v@).to_set().contains(x) <==> set![f@].contains(x) by {
            if x == f@ {
                assert(strs_of(v@)[0] == x);
            }
        }
        assert(feature_names(v@) =~= set![f@]);
    }
    v
}

/// The dependencies of a custom type on the crate `krate` alone, in the
/// given version, with the given features.
fn single_dependency(krate: &'static str, version: &'static str, features: Vec<&'static str>) -> (res: Vec<(&'static str, CargoDependency)>)
    ensures
        res@.len() == 1,
        res@[0].0@ == krate@,
        version_dependency(res@[0].1, version@, feature_names(features@)),
{
    let dep = CargoDependency::with_version_and_features(version, features);
    let mut res: Vec<(&'static str, CargoDependency)> = Vec::new();
    res.push((krate, dep));
    res
}

/// Whether `t` is a custom type with the given identifier, Rust path, Serde
/// attributes and TypeScript type and declaration, that depends on the
/// crate `krate` alone, in the given version and with the given features.
pub open spec fn custom_type_with(
    t: Type,
    ident: IdentView,
    rs_ty: Seq<char>,
    krate: Seq<char>,
    version: Seq<char>,
    features: Set<Seq<char>>,
    serde_attrs: Seq<Seq<char>>,
    ts_ty: Seq<char>,
    ts_declaration: Option<Seq<char>>,
) -> bool {
    match t {
        Type::Custom(c) => {
            &&& c.ident@ == ident
            &&& c.rs_ty@ == rs_ty
            &&& c.rs_dependencies@.len() == 1
            &&& c.rs_dependencies@[0].0@ == krate
            &&& version_dependency(c.rs_dependencies@[0].1, version, features)
            &&& str_views(c.serde_attrs@) == serde_attrs
            &&& c.ts_ty@ == ts_ty
            &&& match (c.ts_declaration, ts_declaration) {
                (Some(d), Some(e)) => d@ == e,
                (None, None) => true,
                _ => false,
            }
        },
        _ => false,
    }
}

/// Whether `deps` are the dependencies of the HTTP types: the support crate
/// from its Git repository with the `http` feature, and `http` 0.2.
pub open spec fn http_dependencies_of(deps: Seq<(&'static str, CargoDependency)>) -> bool {
    &&& deps.len() == 2
    &&& deps[0].0@ == "fp-bindgen-support"@
    &&& deps[0].1.wf()
    &&& deps[0].1.git == Some(SUPPORT_GIT)
    &&& deps[0].1.branch == Some("main")
    &&& feature_names(deps[0].1.features@) == set!["http"@]
    &&& deps[0].1.default_features is None && deps[0].1.path is None
    &&& deps[0].1.registry is None && deps[0].1.version is None && deps[0].1.workspace is None
    &&& deps[1].0@ == "http"@
    &&& version_dependency(deps[1].1, "0.2"@, Set::empty())
}

/// Whether `t` is an HTTP type with the given identifier, Rust path,
/// functions that serialize and deserialize it, and TypeScript type and
/// declaration.
pub open spec fn http_type_with(
    t: Type,
    ident: Seq<char>,
    rs_ty: Seq<char>,
    serialize_with: Seq<char>,
    deserialize_with: Seq<char>,
    ts_ty: Seq<char>,
    ts_declaration: Option<Seq<char>>,
) -> bool {
    match t {
        Type::Custom(c) => {
            &&& c.ident@ == plain_ident(ident)
            &&& c.rs_ty@ == rs_ty
            &&& http_dependencies_of(c.rs_dependencies@)
            &&& str_views(c.serde_attrs@) == seq![serialize_with, deserialize_with]
            &&& c.ts_ty@ == ts_ty
            &&& match (c.ts_declaration, ts_declaration) {
                (Some(d), Some(e)) => d@ == e,
                (None, None) => true,
                _ => false,
            }
        },
        _ => false,
    }
}

/// The dependencies of the HTTP types.
fn http_dependencies() -> (res: Vec<(&'static str, CargoDependency)>)
    ensures
        http_dependencies_of(res@),
{
    let support = CargoDependency::with_git_and_branch_and_features(SUPPORT_GIT, "main", one_feature("http"));
    let http = CargoDependency::with_version("0.2");
    assert(feature_names(http.features@) =~= Set::empty());
    let mut res: Vec<(&'static str, CargoDependency)> = Vec::new();
    res.push(("fp-bindgen-support", support));
    res.push(("http", http));
    res
}

/// The Serde attributes `[first, second]`.
fn two_attrs(first: &str, second: &str) -> (res: Vec<String>)
    ensures
        str_views(res@) == seq![first@, second@],
{
    let mut res: Vec<String> = Vec::new();
    res.push(first.to_owned());
    res.push(second.to_owned());
    assert(str_views(res@) =~= seq![first@, second@]);
    res
}

/// The custom type of an HTTP type.
fn http_type(
    ident: &str,
    rs_ty: &str,
    serialize_with: &str,
    deserialize_with: &str,
    ts_ty: &str,
    ts_declaration: Option<&str>,
) -> (res: Type)
    ensures
        http_type_with(res, ident@, rs_ty@, serialize_with@, deserialize_with@, ts_ty@, match ts_declaration {
            Some(d) => Some(d@),
            None => None,
        }),
{
    Type::Custom(CustomType {
        ident: param(ident),
        rs_ty: rs_ty.to_owned(),
        rs_dependencies: http_dependencies(),
        serde_attrs: two_attrs(serialize_with, deserialize_with),
        ts_ty: ts_ty.to_owned(),
        ts_declaration: match ts_declaration {
            Some(d) => Some(d.to_owned()),
            None => None,
        },
    })
}


/// The Serde attributes `[attr]`.
fn one_attr(attr: &str) -> (res: Vec<String>)
    ensures
        str_views(res@) == seq![attr@],
{
    let mut res: Vec<String> = Vec::new();
    res.push(attr.to_owned());
    assert(str_views(res@) =~= seq![attr@]);
    res
}

/// The custom type of a date and time type of the `time` crate.
fn time_type(ident: &str, rs_ty: &str) -> (res: Type)
    ensures
        custom_type_with(res, plain_ident(ident@), rs_ty@, "time"@, "0.3"@, set!["serde-well-known"@],
            seq!["with = \"time::serde::rfc3339\""@], "string"@, None),
{
    Type::Custom(CustomType {
        ident: param(ident),
        rs_ty: rs_ty.to_owned(),
        rs_dependencies: single_dependency("time", "0.3", one_feature("serde-well-known")),
        serde_attrs: one_attr("with = \"time::serde::rfc3339\""),
        ts_ty: "string".to_owned(),
        ts_declaration: None,
    })
}

impl Serializable for bytes::Bytes {
    open spec fn ident_view() -> IdentView {
        plain_ident("Bytes"@)
    }

    fn ident() -> TypeIdent {
        param("Bytes")
    }

    open spec fn defines(t: Type) -> bool {
        custom_type_with(t, plain_ident("Bytes"@), "bytes::Bytes"@, "bytes"@, "1"@, set!["serde"@], Seq::empty(),
                "Uint8Array"@, None)
    }

    fn ty() -> Type {
        let res = Type::Custom(CustomType {
            ident: param("Bytes"),
            rs_ty: "bytes::Bytes".to_owned(),
            rs_dependencies: single_dependency("bytes", "1", one_feature("serde")),
            serde_attrs: Vec::new(),
            ts_ty: "Uint8Array".to_owned(),
            ts_declaration: None,
        });
        assert(res matches Type::Custom(c) && str_views(c.serde_attrs@) =~= Seq::<Seq<char>>::empty());
        res
    }
}

impl Serializable for http::Method {
    open spec fn ident_view() -> IdentView {
        plain_ident("Method"@)
    }

    fn ident() -> TypeIdent {
        param("Method")
    }

    open spec fn defines(t: Type) -> bool {
        http_type_with(t, "Method"@, "http::Method"@,
                "serialize_with = \"fp_bindgen_support::http::serialize_http_method\""@,
                "deserialize_with = \"fp_bindgen_support::http::deserialize_http_method\""@,
                "Method"@, Some(METHOD_DECLARATION@))
    }

    fn ty() -> Type {
        http_type("Method", "http::Method",
            "serialize_with = \"fp_bindgen_support::http::serialize_http_method\"",
            "deserialize_with = \"fp_bindgen_support::http::deserialize_http_method\"",
            "Method", Some(METHOD_DECLARATION))
    }
}

impl Serializable for http::uri::Scheme {
    open spec fn ident_view() -> IdentView {
        plain_ident("Scheme"@)
    }

    fn ident() -> TypeIdent {
        param("Scheme")
    }

    open spec fn defines(t: Type) -> bool {
        http_type_with(t, "Scheme"@, "http::Scheme"@,
                "serialize_with = \"fp_bindgen_support::http::serialize_uri_scheme\""@,
                "deserialize_with = \"fp_bindgen_support::http::deserialize_uri_scheme\""@,
                "Scheme"@, Some(SCHEME_DECLARATION@))
    }

    fn ty() -> Type {
        http_type("Scheme", "http::Scheme",
            "serialize_with = \"fp_bindgen_support::http::serialize_uri_scheme\"",
            "deserialize_with = \"fp_bindgen_support::http::deserialize_uri_scheme\"",
            "Scheme", Some(SCHEME_DECLARATION))
    }
}

impl Serializable for http::uri::Uri {
    open spec fn ident_view() -> IdentView {
        plain_ident("Uri"@)
    }

    fn ident() -> TypeIdent {
        param("Uri")
    }

    open spec fn defines(t: Type) -> bool {
        http_type_with(t, "Uri"@, "http::Uri"@,
                "serialize_with = \"fp_bindgen_support::http::serialize_uri\""@,
                "deserialize_with = \"fp_bindgen_support::http::deserialize_uri\""@,
                "string"@, None)
    }

    fn ty() -> Type {
        http_type("Uri", "http::Uri",
            "serialize_with = \"fp_bindgen_support::http::serialize_uri\"",
            "deserialize_with = \"fp_bindgen_support::http::deserialize_uri\"",
            "string", None)
    }
}

impl Serializable for http::HeaderMap {
    open spec fn ident_view() -> IdentView {
        plain_ident("http::HeaderMap"@)
    }

    fn ident() -> TypeIdent {
        param("http::HeaderMap")
    }

    open spec fn defines(t: Type) -> bool {
        http_type_with(t, "http::HeaderMap"@, "http::HeaderMap"@,
                "serialize_with = \"fp_bindgen_support::http::serialize_header_map\""@,
                "deserialize_with = \"fp_bindgen_support::http::deserialize_header_map\""@,
                "HeaderMap"@, Some(HEADER_MAP_DECLARATION@))
    }

    fn ty() -> Type {
        http_type("http::HeaderMap", "http::HeaderMap",
            "serialize_with = \"fp_bindgen_support::http::serialize_header_map\"",
            "deserialize_with = \"fp_bindgen_support::http::deserialize_header_map\"",
            "HeaderMap", Some(HEADER_MAP_DECLARATION))
    }
}

impl Serializable for time::OffsetDateTime {
    open spec fn ident_view() -> IdentView {
        plain_ident("OffsetDateTime"@)
    }

    fn ident() -> TypeIdent {
        param("OffsetDateTime")
    }

    open spec fn defines(t: Type) -> bool {
        custom_type_with(t, plain_ident("OffsetDateTime"@), "time::OffsetDateTime"@, "time"@, "0.3"@,
                set!["serde-well-known"@], seq!["with = \"time::serde::rfc3339\""@], "string"@, None)
    }

    fn ty() -> Type {
        time_type("OffsetDateTime", "time::OffsetDateTime")
    }
}

impl Serializable for time::PrimitiveDateTime {
    open spec fn ident_view() -> IdentView {
        plain_ident("PrimitiveDateTime"@)
    }

    fn ident() -> TypeIdent {
        param("PrimitiveDateTime")
    }

    open spec fn defines(t: Type) -> bool {
        custom_type_with(t, plain_ident("PrimitiveDateTime"@), "time::PrimitiveDateTime"@, "time"@, "0.3"@,
                set!["serde-well-known"@], seq!["with = \"time::serde::rfc3339\""@], "string"@, None)
    }

    fn ty() -> Type {
        time_type("PrimitiveDateTime", "time::PrimitiveDateTime")
    }
}

impl Serializable for serde_json::Value {
    open spec fn ident_view() -> IdentView {
        plain_ident("Value"@)
    }

    fn ident() -> TypeIdent {
        param("Value")
    }

    open spec fn defines(t: Type) -> bool {
        custom_type_with(t, plain_ident("Value"@), "serde_json::Value"@, "serde_json"@, "1.0"@, Set::empty(),
                Seq::empty(), "any"@, None)
    }

    fn ty() -> Type {
        let features: Vec<&'static str> = Vec::new();
        assert(feature_names(features@) =~= Set::empty());
        let res = Type::Custom(CustomType {
            ident: param("Value"),
            rs_ty: "serde_json::Value".to_owned(),
            rs_dependencies: single_dependency("serde_json", "1.0", features),
            serde_attrs: Vec::new(),
            ts_ty: "any".to_owned(),
            ts_declaration: None,
        });
        assert(res matches Type::Custom(c) && str_views(c.serde_attrs@) =~= Seq::<Seq<char>>::empty());
        res
    }
}

impl<K: Serializable, V: Serializable> Serializable for serde_json::Map<K, V> {
    open spec fn ident_view() -> IdentView {
        generic_ident_view("serde_json::Map"@, seq!["K"@, "V"@])
    }

    fn ident() -> TypeIdent {
        generic_ident2("serde_json::Map", "K", "V")
    }

    open spec fn defines(t: Type) -> bool {
        map_of_k_v(t, "serde_json::Map"@)
    }

    fn ty() -> Type {
        Type::Mapping("serde_json::Map".to_owned(), param("K"), param("V"))
    }

    fn collect_types(types: &mut TypeMap)
        ensures
            holds_key(final(types)@, K::ident_view()),
            holds_key(final(types)@, V::ident_view()),
    {
        let ident = Self::ident();
        let ty = Self::ty();
        let ghost (i, t, before) = (ident, ty, types@);
        add_type(types, ident, ty);
        let ghost mid = types@;
        proof {
            lemma_add_type(before, mid, i, t);
        }
        K::collect_types(types);
        let ghost mid2 = types@;
        V::collect_types(types);
        proof {
            lemma_keeps_entries_trans(before, mid, mid2);
            lemma_keeps_entries_trans(before, mid2, types@);
            lemma_keeps_entries_trans(mid, mid2, types@);
            lemma_kept_key(mid2, types@, K::ident_view());
            if !holds_key(before, i@) {
                lemma_kept_key(mid, types@, i@);
            }
        }
    }
}

impl Serializable for url::Url {
    open spec fn ident_view() -> IdentView {
        plain_ident("Url"@)
    }

    fn ident() -> TypeIdent {
        param("Url")
    }

    open spec fn defines(t: Type) -> bool {
        custom_type_with(t, plain_ident("Url"@), "url::Url"@, "url"@, "2"@, set!["serde"@], Seq::empty(),
                "URL"@, None)
    }

    fn ty() -> Type {
        let res = Type::Custom(CustomType {
            ident: param("Url"),
            rs_ty: "url::Url".to_owned(),
            rs_dependencies: single_dependency("url", "2", one_feature("serde")),
            serde_attrs: Vec::new(),
            ts_ty: "URL".to_owned(),
            ts_declaration: None,
        });
        assert(res matches Type::Custom(c) && str_views(c.serde_attrs@) =~= Seq::<Seq<char>>::empty());
        res
    }
}

} // verus!
