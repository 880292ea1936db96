use fp_bindgen::primitives::Primitive;
use fp_bindgen::types::TypeIdent;
use std::num::NonZeroUsize;

#[test]
fn type_ident_from_str() {
    let t = TypeIdent::from_str("u32").unwrap();
    assert_eq!(t.name, "u32");
    assert!(t.generic_args.is_empty());

    let t = TypeIdent::from_str("Vec<u32>").unwrap();
    assert_eq!(t.name, "Vec");
    assert_eq!(t.generic_args, vec![(TypeIdent::new("u32", vec![]), vec![])]);

    let t = TypeIdent::from_str("BTreeMap<K, V>").unwrap();
    assert_eq!(t.name, "BTreeMap");
    assert_eq!(
        t.generic_args,
        vec![
            (TypeIdent::new("K", vec![]), vec![]),
            (TypeIdent::new("V", vec![]), vec![])
        ]
    );

    let t = TypeIdent::from_str("Vec<T: Debug + Display>").unwrap();
    assert_eq!(t.name, "Vec");
    assert_eq!(
        t.generic_args,
        vec![(TypeIdent::new("T", vec![]), vec!["Debug".into(), "Display".into()])]
    );
}

#[test]
fn type_ident_from_str_array() {
    let t = TypeIdent::from_str("[u32; 8]").unwrap();
    assert_eq!(t.name, "u32");
    assert!(t.generic_args.is_empty());
    assert_eq!(t.array.and_then(NonZeroUsize::new), NonZeroUsize::new(8));

    // Cannot create non-primitive arrays, and other error scenarios
    assert!(TypeIdent::from_str("[Vec<f32>; 8]").is_err());
    assert!(TypeIdent::from_str("[u32;]").is_err());
    assert!(TypeIdent::from_str("[u32; foo]").is_err());
    assert!(TypeIdent::from_str("[u32; -1]").is_err());

    // Unsupported primitive array types
    assert!(TypeIdent::from_str("[u64; 8]").is_err());
}

use fp_bindgen::types::syntax::{BoundSyntax, GenericArgSyntax, LenSyntax, TypeSyntax};

fn path(name: &str, args: Vec<GenericArgSyntax>) -> TypeSyntax {
    TypeSyntax::Path(name.split("::").map(|s| s.to_owned()).collect(), args)
}

#[test]
fn type_ident_from_syn_type() {
    let ty = path("u32", vec![]);
    let t = TypeIdent::try_from(&ty).unwrap();
    assert_eq!(t.name, "u32");
    assert!(t.generic_args.is_empty());

    let ty = path("Vec", vec![GenericArgSyntax::Type(path("u32", vec![]))]);
    let t = TypeIdent::try_from(&ty).unwrap();
    assert_eq!(t.name, "Vec");
    assert_eq!(t.generic_args, vec![(TypeIdent::new("u32", vec![]), vec![])]);

    let ty = path(
        "BTreeMap",
        vec![GenericArgSyntax::Type(path("K", vec![])), GenericArgSyntax::Type(path("V", vec![]))],
    );
    let t = TypeIdent::try_from(&ty).unwrap();
    assert_eq!(t.name, "BTreeMap");
    assert_eq!(
        t.generic_args,
        vec![
            (TypeIdent::new("K", vec![]), vec![]),
            (TypeIdent::new("V", vec![]), vec![])
        ]
    );

    let ty = path(
        "Vec",
        vec![GenericArgSyntax::Constraint(
            "T".to_owned(),
            vec![BoundSyntax::Trait(vec!["Debug".to_owned()]), BoundSyntax::Trait(vec!["Display".to_owned()])],
        )],
    );
    let t = TypeIdent::try_from(&ty).unwrap();
    assert_eq!(t.name, "Vec");
    assert_eq!(
        t.generic_args,
        vec![(TypeIdent::new("T", vec![]), vec!["Debug".into(), "Display".into()])]
    );
}

#[test]
fn type_ident_from_syntax_edge_cases() {
    let t = TypeIdent::try_from(&path("std::collections::BTreeMap", vec![])).unwrap();
    assert_eq!(t.name, "std::collections::BTreeMap");

    let t = TypeIdent::try_from(&TypeSyntax::Unit).unwrap();
    assert_eq!(t.name, "()");

    let t = TypeIdent::try_from(&TypeSyntax::Array(Box::new(path("u8", vec![])), LenSyntax::Int("4".to_owned()))).unwrap();
    assert_eq!(t.name, "u8");
    assert_eq!(t.array, Some(4));
    let t = TypeIdent::try_from(&TypeSyntax::Array(Box::new(path("u8", vec![])), LenSyntax::Int("0".to_owned()))).unwrap();
    assert_eq!(t.array, None);

    assert_eq!(
        TypeIdent::try_from(&TypeSyntax::Other("Reference".to_owned())),
        Err("Unsupported type: Reference".to_owned())
    );
    assert_eq!(
        TypeIdent::try_from(&path("Vec", vec![GenericArgSyntax::Other("Lifetime".to_owned())])),
        Err("Unsupported generic argument: Lifetime".to_owned())
    );
    assert_eq!(
        TypeIdent::try_from(&path(
            "Vec",
            vec![GenericArgSyntax::Constraint("T".to_owned(), vec![BoundSyntax::Lifetime("'a".to_owned())])]
        )),
        Err("Lifecycle bounds are not supported: 'a".to_owned())
    );
}

#[test]
fn type_ident_format_and_primitives() {
    let t = TypeIdent::from_str("Vec<T: Debug + Display>").unwrap();
    assert_eq!(t.format(true), "Vec<T: Debug + Display>");
    assert_eq!(t.format(false), "Vec<T>");
    assert_eq!(t.to_string(), "Vec<T: Debug + Display>");
    let t = TypeIdent::from_str("[u32; 8]").unwrap();
    assert_eq!(t.to_string(), "[u32; 8]");
    assert!(t.is_array());
    assert!(!t.is_primitive());
    let t = TypeIdent::from_str("u16").unwrap();
    assert!(t.is_primitive());
    assert_eq!(t.as_primitive(), Some(fp_bindgen::primitives::Primitive::U16));
}

#[test]
fn type_ident_from_name() {
    let t = TypeIdent::from("BTreeMap<K, V>");
    assert_eq!(t.name, "BTreeMap");
    assert_eq!(t.generic_args.len(), 2);
    assert_eq!(t.to_string(), "BTreeMap<K, V>");
    let a = TypeIdent::from("[u8; 4]");
    assert_eq!(a.array, Some(4));
    assert_eq!(a.name, "u8");
}

#[test]
fn array_of_each_primitive_reads_only_where_javascript_has_a_typed_array() {
    let all = [
        Primitive::Bool,
        Primitive::F32,
        Primitive::F64,
        Primitive::I8,
        Primitive::I16,
        Primitive::I32,
        Primitive::I64,
        Primitive::U8,
        Primitive::U16,
        Primitive::U32,
        Primitive::U64,
    ];
    for p in all {
        for n in [1usize, 8, 1024] {
            let text = format!("[{}; {}]", p.name(), n);
            let parsed = TypeIdent::from_str(&text);
            assert_eq!(parsed.is_ok(), p.js_array_name().is_some(), "{text}");
            if let Ok(t) = parsed {
                assert_eq!(t.name, p.name());
                assert!(t.generic_args.is_empty());
                assert_eq!(t.array, Some(n));
            }
        }
    }
}

#[test]
fn formatted_plain_identifiers_read_back_as_themselves() {
    let plain = TypeIdent::new("Point", vec![]);
    assert_eq!(TypeIdent::from_str(&plain.format(true)).unwrap(), plain);
    let generic = TypeIdent::new(
        "HashMap",
        vec![(TypeIdent::new("K", vec![]), vec![]), (TypeIdent::new("V", vec![]), vec![])],
    );
    assert_eq!(generic.format(true), "HashMap<K, V>");
    assert_eq!(TypeIdent::from_str(&generic.format(true)).unwrap(), generic);
}
