use fp_bindgen::casing::Casing;
use fp_bindgen::functions::{FnDeclSyntax, FnInputSyntax, Function, FunctionList};
use fp_bindgen::generics::{contains_generic_arg, extract_args_str, peel};
use fp_bindgen::primitives::Primitive;
use fp_bindgen::support::{
    check_fat_ptr, fat_ptr_len_fits, from_fat_ptr, to_fat_ptr, AsyncValue, FPGuestError, HostFuture, PollDecision,
    Queue, WasmAbi, FUTURE_STATUS_PENDING, FUTURE_STATUS_READY,
};
use fp_bindgen::types::attrs::{AttrEntry, Attribute};
use fp_bindgen::types::items::{
    parse_enum_item, parse_struct_item, EnumItemSyntax, FieldSyntax, GenericParamSyntax, StructItemSyntax,
    TypeParamSyntax, VariantSyntax,
};
use fp_bindgen::types::syntax::{BoundSyntax, TypeSyntax};
use fp_bindgen::types::{create_default_type_map, CargoDependency, Type, TypeIdent, TypeMap};

fn path(name: &str) -> TypeSyntax {
    TypeSyntax::Path(vec![name.to_owned()], vec![])
}

fn doc(line: &str) -> Attribute {
    Attribute {
        ident: Some("doc".to_owned()),
        is_outer: true,
        literals: vec![format!("\"{}\"", line)],
        entries: None,
    }
}

fn fp_attr(entries: Vec<(&str, Option<&str>)>) -> Attribute {
    Attribute {
        ident: Some("fp".to_owned()),
        is_outer: true,
        literals: vec![],
        entries: Some(
            entries
                .into_iter()
                .map(|(k, v)| AttrEntry { key: k.to_owned(), value: v.map(|s| s.to_owned()) })
                .collect(),
        ),
    }
}

#[test]
fn peel_examples() {
    assert_eq!(peel("Point<T>"), ("Point".to_owned(), "<T>".to_owned()));
    assert_eq!(peel("ConcreteType"), ("ConcreteType".to_owned(), "".to_owned()));
    assert_eq!(peel("Map <K, V>"), ("Map".to_owned(), "<K, V>".to_owned()));
    assert!(contains_generic_arg("Point<T>"));
    assert!(!contains_generic_arg("Point"));
    assert_eq!(extract_args_str("BTreeMap<K, Vec<V>>"), "K, Vec<V>");
}

#[test]
fn fat_pointers_round_trip() {
    let p = to_fat_ptr(0x1234, 42);
    assert_eq!(p, (0x1234u64 << 32) | 42);
    assert_eq!(from_fat_ptr(p), (0x1234, 42));
    assert!(fat_ptr_len_fits(0x00ff_ffff));
    assert!(!fat_ptr_len_fits(0x0100_0000));
    assert!(check_fat_ptr(to_fat_ptr(1, 0x0100_0000)).is_err());
    assert_eq!(check_fat_ptr(to_fat_ptr(1, 2)).ok(), Some((1, 2)));
}

#[test]
fn async_values_and_host_futures() {
    let v = AsyncValue::new();
    assert_eq!((v.status, v.ptr, v.len), (FUTURE_STATUS_PENDING, 0, 0));
    assert!(matches!(HostFuture::poll_value(&v), PollDecision::Pending));
    let ready = AsyncValue::resolved(to_fat_ptr(8, 16));
    assert_eq!((ready.status, ready.ptr, ready.len), (FUTURE_STATUS_READY, 8, 16));
    assert_eq!(ready.buffer_ptr(), to_fat_ptr(8, 16));
    match HostFuture::poll_value(&ready) {
        PollDecision::Ready(p) => assert_eq!(p, to_fat_ptr(8, 16)),
        PollDecision::Pending => panic!("expected a ready value"),
    }
    let f = HostFuture::new(to_fat_ptr(24, 12));
    assert_eq!(f.value_address(), 24);
}

#[test]
fn wasm_abi_of_bool() {
    assert_eq!(true.to_abi(), 1u8);
    assert_eq!(false.to_abi(), 0u8);
    assert!(bool::from_abi(7));
    assert!(!bool::from_abi(0));
    assert_eq!(u32::from_abi(5u32.to_abi()), 5);
}

#[test]
fn guest_error_messages() {
    let e = FPGuestError::SerdeError { path: "a.b".to_owned(), message: "oops".to_owned() };
    assert_eq!(e.to_string(), "Failed to serde field: a.b");
    assert_eq!(FPGuestError::InvalidFatPtr.to_string(), "Received an invalid `FatPtr`");
}

#[test]
fn queue_runs_tasks_in_order() {
    let mut q = Queue::new();
    assert!(q.push_task(1));
    assert!(!q.push_task(2));
    assert_eq!(q.next_task(), Some(1));
    assert!(!q.push_task(3));
    assert_eq!(q.next_task(), Some(2));
    assert_eq!(q.next_task(), Some(3));
    assert_eq!(q.next_task(), None);
    assert!(q.push_task(4));
}

#[test]
fn type_map_insert_and_get() {
    let mut types = TypeMap::new();
    assert!(types.insert(TypeIdent::new("b", vec![]), Type::String).is_none());
    assert!(types.insert(TypeIdent::new("a", vec![]), Type::Unit).is_none());
    assert_eq!(types.len(), 2);
    assert_eq!(types.entry_at(0).0.name, "a");
    assert_eq!(types.insert(TypeIdent::new("b", vec![]), Type::Unit), Some(Type::String));
    assert_eq!(types.get(&TypeIdent::new("b", vec![])), Some(&Type::Unit));
    assert!(!types.contains_key(&TypeIdent::new("c", vec![])));
    let generic = TypeIdent::new("a", vec![(TypeIdent::new("T", vec![]), vec![])]);
    assert!(types.contains_key(&generic));
}

#[test]
fn default_type_map_holds_guest_error_and_result() {
    let types = create_default_type_map();
    assert_eq!(types.len(), 2);
    assert_eq!(types.entry_at(0).0.name, "FPGuestError");
    assert_eq!(types.entry_at(1).0.to_string(), "Result<T, E>");
    assert_eq!(types.entry_at(1).1.name(), "Result<T, E>");
}

#[test]
fn type_names() {
    let ident = |n: &str| TypeIdent::new(n, vec![]);
    assert_eq!(Type::Mapping("HashMap".to_owned(), ident("K"), ident("V")).name(), "HashMap<K, V>");
    assert_eq!(Type::Tuple(vec![ident("u8"), ident("u16")]).name(), "(u8, u16)");
    assert_eq!(Type::Unit.name(), "()");
    assert_eq!(Type::Primitive(Primitive::F64).name(), "f64");
    assert_eq!(Type::Container("Box".to_owned(), ident("T")).name(), "Box<T>");
}

#[test]
fn function_list_keeps_first_of_a_name() {
    let f = |name: &str, is_async: bool| Function {
        name: name.to_owned(),
        doc_lines: vec![],
        args: vec![],
        return_type: None,
        is_async,
    };
    let mut list = FunctionList::new();
    list.add_function(f("zeta", false));
    list.add_function(f("alpha", false));
    list.add_function(f("zeta", true));
    let names: Vec<&str> = list.iter().iter().map(|f| f.name.as_str()).collect();
    assert_eq!(names, vec!["alpha", "zeta"]);
    assert!(!list.iter()[1].is_async);
    assert_eq!(list.len(), 2);
}

#[test]
fn function_from_declaration() {
    let decl = FnDeclSyntax {
        ident: "fetch_data".to_owned(),
        attrs: vec![doc(" Fetches data.")],
        inputs: vec![FnInputSyntax::Typed("url".to_owned(), path("String"))],
        output: Some(TypeSyntax::Unit),
        is_async: true,
    };
    let f = Function::new(&decl);
    assert_eq!(f.name, "fetch_data");
    assert_eq!(f.doc_lines, vec![" Fetches data.".to_owned()]);
    assert_eq!(f.args[0].name, "url");
    assert_eq!(f.args[0].ty, TypeIdent::new("String", vec![]));
    assert!(f.return_type.is_none());
    assert!(f.is_async);
}

#[test]
fn struct_and_enum_items() {
    let item = StructItemSyntax {
        ident: "Point".to_owned(),
        generics: vec![GenericParamSyntax::Type(TypeParamSyntax {
            ident: "T".to_owned(),
            bounds: vec![BoundSyntax::Trait(vec!["Serializable".to_owned()])],
        })],
        fields: vec![FieldSyntax { ident: Some("value".to_owned()), ty: path("T"), attrs: vec![doc(" The value.")] }],
        attrs: vec![fp_attr(vec![("rename_all", Some("camelCase"))])],
    };
    let s = parse_struct_item(&item);
    assert_eq!(s.ident.format(false), "Point<T>");
    assert_eq!(s.ident.format(true), "Point<T: >");
    assert_eq!(s.ident.generic_args[0].1, vec!["Serializable".to_owned()]);
    assert_eq!(s.fields[0].name.as_deref(), Some("value"));
    assert_eq!(s.fields[0].doc_lines, vec![" The value.".to_owned()]);
    assert_eq!(s.options.field_casing, Casing::CamelCase);

    let item = EnumItemSyntax {
        ident: "Shape".to_owned(),
        generics: vec![],
        variants: vec![
            VariantSyntax { ident: "Empty".to_owned(), fields: vec![], has_discriminant: false, attrs: vec![] },
            VariantSyntax {
                ident: "Circle".to_owned(),
                fields: vec![FieldSyntax { ident: Some("radius".to_owned()), ty: path("f64"), attrs: vec![] }],
                has_discriminant: false,
                attrs: vec![],
            },
            VariantSyntax {
                ident: "Named".to_owned(),
                fields: vec![FieldSyntax { ident: None, ty: path("String"), attrs: vec![] }],
                has_discriminant: false,
                attrs: vec![],
            },
        ],
        attrs: vec![],
    };
    let e = parse_enum_item(&item);
    assert_eq!(e.ident.name, "Shape");
    assert_eq!(e.variants[0].ty, Type::Unit);
    match &e.variants[1].ty {
        Type::Struct(s) => {
            assert_eq!(s.ident.name, "Circle");
            assert_eq!(s.fields[0].ty.name, "f64");
        },
        _ => panic!("expected a struct variant"),
    }
    assert_eq!(e.variants[2].ty, Type::Tuple(vec![TypeIdent::new("String", vec![])]));
}

#[test]
fn casing_and_primitives() {
    assert_eq!(Casing::try_from("snake_case"), Ok(Casing::SnakeCase));
    assert!(Casing::try_from("kebab").is_err());
    assert_eq!(Casing::CamelCase.as_maybe_str(), Some("camelCase"));
    assert_eq!(Casing::Original.as_maybe_str(), None);
    assert_eq!(Casing::SnakeCase.format_string("SerdeError"), "serde_error");
    assert_eq!(Primitive::from_str("i64"), Ok(Primitive::I64));
    assert_eq!(Primitive::I64.js_array_name(), None);
    assert_eq!(Primitive::F32.js_array_name(), Some("Float32Array".to_owned()));
    assert_eq!(Primitive::Bool.js_array_name(), None);
}

#[test]
fn cargo_dependency_text_and_merge() {
    let dep = CargoDependency::with_git_and_branch("https://github.com/fiberplane/fp-bindgen", "main");
    assert_eq!(
        dep.to_string(),
        "{ git = \"https://github.com/fiberplane/fp-bindgen\", branch = \"main\" }"
    );
    let merged = CargoDependency::with_version_and_features("1", vec!["a"])
        .merge_or_replace_with(&CargoDependency::with_path_and_features("../x", vec!["b"]));
    assert_eq!(merged.to_string(), "{ path = \"../x\", version = \"1\", features = [\"a\", \"b\"] }");
}
