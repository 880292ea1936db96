use fp_bindgen::compat::{HEADER_MAP_DECLARATION, METHOD_DECLARATION, SCHEME_DECLARATION};
use fp_bindgen::serializable::Serializable;
use fp_bindgen::types::{CustomType, Type, TypeMap};

fn custom<T: Serializable>() -> CustomType {
    match T::ty() {
        Type::Custom(c) => c,
        other => panic!("not a custom type: {:?}", other),
    }
}

#[test]
fn bytes_definition() {
    assert_eq!(<bytes::Bytes as Serializable>::ident().format(true), "Bytes");
    let c = custom::<bytes::Bytes>();
    assert_eq!(c.rs_ty, "bytes::Bytes");
    assert_eq!(c.ts_ty, "Uint8Array");
    assert_eq!(c.rs_dependencies.len(), 1);
    assert_eq!(c.rs_dependencies[0].0, "bytes");
    assert_eq!(c.rs_dependencies[0].1.to_string(), "{ version = \"1\", features = [\"serde\"] }");
    assert!(c.serde_attrs.is_empty());
    assert!(c.ts_declaration.is_none());
}

#[test]
fn http_definitions() {
    let method = custom::<http::Method>();
    assert_eq!(method.rs_ty, "http::Method");
    assert_eq!(method.ts_ty, "Method");
    assert_eq!(method.ts_declaration.as_deref(), Some(METHOD_DECLARATION));
    assert!(METHOD_DECLARATION.contains("| \"PATCH\""));
    assert_eq!(
        method.serde_attrs,
        vec![
            "serialize_with = \"fp_bindgen_support::http::serialize_http_method\"".to_owned(),
            "deserialize_with = \"fp_bindgen_support::http::deserialize_http_method\"".to_owned(),
        ]
    );
    let deps: Vec<String> = method.rs_dependencies.iter().map(|(name, dep)| format!("{} = {}", name, dep.to_string())).collect();
    assert_eq!(
        deps,
        vec![
            "fp-bindgen-support = { git = \"ssh://git@github.com/fiberplane/fp-bindgen.git\", branch = \"main\", features = [\"http\"] }".to_owned(),
            "http = { version = \"0.2\" }".to_owned(),
        ]
    );
    let scheme = custom::<http::uri::Scheme>();
    assert_eq!(scheme.rs_ty, "http::Scheme");
    assert_eq!(scheme.ts_declaration.as_deref(), Some(SCHEME_DECLARATION));
    let uri = custom::<http::Uri>();
    assert_eq!(uri.ts_ty, "string");
    assert!(uri.ts_declaration.is_none());
    assert_eq!(<http::HeaderMap as Serializable>::ident().format(true), "http::HeaderMap");
    let headers = custom::<http::HeaderMap>();
    assert_eq!(headers.ts_declaration.as_deref(), Some(HEADER_MAP_DECLARATION));
}

#[test]
fn time_definitions() {
    let offset = custom::<time::OffsetDateTime>();
    assert_eq!(offset.rs_ty, "time::OffsetDateTime");
    assert_eq!(offset.serde_attrs, vec!["with = \"time::serde::rfc3339\"".to_owned()]);
    assert_eq!(offset.rs_dependencies[0].1.to_string(), "{ version = \"0.3\", features = [\"serde-well-known\"] }");
    let plain = custom::<time::PrimitiveDateTime>();
    assert_eq!(plain.rs_ty, "time::PrimitiveDateTime");
    assert_eq!(<time::PrimitiveDateTime as Serializable>::ident().format(true), "PrimitiveDateTime");
}

#[test]
fn json_and_url_definitions() {
    let value = custom::<serde_json::Value>();
    assert_eq!(value.ts_ty, "any");
    assert_eq!(value.rs_dependencies[0].1.to_string(), "{ version = \"1.0\" }");
    let url = custom::<url::Url>();
    assert_eq!(url.ts_ty, "URL");
    assert_eq!(url.rs_dependencies[0].0, "url");
    let mut types = TypeMap::new();
    <serde_json::Map<String, serde_json::Value> as Serializable>::collect_types(&mut types);
    assert_eq!(types.len(), 3);
    assert_eq!(<serde_json::Map<String, serde_json::Value> as Serializable>::ident().format(true), "serde_json::Map<K, V>");
}
