use fp_bindgen::primitives::Primitive;
use fp_bindgen::resolved::{
    clone_type, format_name_with_generics, resolve_type, type_eq, EnumOptions, Field, GenericArgument, Type, Variant,
};
use fp_bindgen::resolved_items::ItemSyntax;
use fp_bindgen::types::attrs::{AttrEntry, Attribute};
use fp_bindgen::types::items::{
    EnumItemSyntax, FieldSyntax, GenericParamSyntax, StructItemSyntax, TypeParamSyntax, VariantSyntax,
};
use fp_bindgen::types::syntax::{GenericArgSyntax, TypeSyntax};

fn path(name: &str) -> TypeSyntax {
    TypeSyntax::Path(vec![name.to_owned()], vec![])
}

fn path_with(name: &str, args: Vec<TypeSyntax>) -> TypeSyntax {
    TypeSyntax::Path(vec![name.to_owned()], args.into_iter().map(GenericArgSyntax::Type).collect())
}

fn field(name: &str, ty: TypeSyntax) -> FieldSyntax {
    FieldSyntax { ident: Some(name.to_owned()), ty, attrs: vec![] }
}

fn unnamed(ty: TypeSyntax) -> FieldSyntax {
    FieldSyntax { ident: None, ty, attrs: vec![] }
}

fn point_f64() -> Type {
    Type::Struct(
        "Point".to_owned(),
        vec![GenericArgument { name: "T".to_owned(), ty: Some(Type::Primitive(Primitive::F64)) }],
        vec![],
    )
}

#[test]
fn resolved_type_names() {
    assert_eq!(point_f64().name(), "Point<T>");
    let list = Type::List("Vec".to_owned(), Box::new(Type::String));
    assert_eq!(list.name(), "Vec<String>");
    let map = Type::Mapping("BTreeMap".to_owned(), Box::new(Type::String), Box::new(Type::Primitive(Primitive::U8)));
    assert_eq!(map.name(), "BTreeMap<String, u8>");
    let tuple = Type::Tuple(vec![Type::Primitive(Primitive::I32), Type::Unit]);
    assert_eq!(tuple.name(), "(i32, ())");
    assert_eq!(Type::Option(Box::new(Type::String)).name(), "Option<String>");
    assert_eq!(Type::named_generic("T").name(), "T");
    let args = vec![
        GenericArgument { name: "K".to_owned(), ty: None },
        GenericArgument { name: "V".to_owned(), ty: None },
    ];
    assert_eq!(format_name_with_generics("Pair", &args), "Pair<K, V>");
    assert_eq!(format_name_with_generics("Plain", &[]), "Plain");
}

#[test]
fn enum_options_serde_attrs() {
    let none = EnumOptions::default();
    assert_eq!(none.to_serde_attrs(), vec!["rename_all = \"snake_case\"".to_owned()]);
    let tagged = EnumOptions { content_prop_name: Some("\"value\"".to_owned()), tag_prop_name: Some("\"type\"".to_owned()) };
    assert_eq!(
        tagged.to_serde_attrs(),
        vec![
            "rename_all = \"snake_case\"".to_owned(),
            "tag = \"type\"".to_owned(),
            "content = \"value\"".to_owned()
        ]
    );
    let content_only = EnumOptions { content_prop_name: Some("\"value\"".to_owned()), tag_prop_name: None };
    assert_eq!(content_only.to_serde_attrs(), vec!["rename_all = \"snake_case\"".to_owned()]);
}

#[test]
fn clone_keeps_the_type() {
    let ty = Type::Enum(
        "Shape".to_owned(),
        vec![GenericArgument { name: "T".to_owned(), ty: None }],
        vec![Variant { name: "Circle".to_owned(), ty: Type::Tuple(vec![point_f64()]) }],
        EnumOptions { content_prop_name: None, tag_prop_name: Some("\"kind\"".to_owned()) },
    );
    let copy = clone_type(&ty);
    assert!(type_eq(&ty, &copy));
    assert!(!type_eq(&ty, &Type::Unit));
}

#[test]
fn resolve_primitive_without_known_types() {
    let res = resolve_type(&path("u32"), &vec![]).unwrap();
    assert!(type_eq(&res, &Type::Primitive(Primitive::U32)));
}

#[test]
fn resolve_known_string_only() {
    assert!(resolve_type(&path("String"), &vec![]).is_none());
    let res = resolve_type(&path("String"), &vec![Type::Unit, Type::String]).unwrap();
    assert!(type_eq(&res, &Type::String));
}

#[test]
fn resolve_option_by_its_argument() {
    let types = vec![Type::Option(Box::new(Type::Primitive(Primitive::U16)))];
    assert!(resolve_type(&path_with("Option", vec![path("u8")]), &types).is_none());
    let res = resolve_type(&path_with("Option", vec![path("u16")]), &types).unwrap();
    assert!(type_eq(&res, &types[0]));
}

#[test]
fn resolve_specialized_struct() {
    let types = vec![Type::String, point_f64()];
    let res = resolve_type(&path_with("Point", vec![path("f64")]), &types).unwrap();
    assert!(type_eq(&res, &point_f64()));
    assert!(resolve_type(&path_with("Point", vec![path("f32")]), &types).is_none());
    assert!(resolve_type(&path("Point"), &types).is_none());
}

#[test]
fn resolve_map_and_list() {
    let list = Type::List("Vec".to_owned(), Box::new(Type::String));
    let map = Type::Mapping("HashMap".to_owned(), Box::new(Type::String), Box::new(Type::Primitive(Primitive::Bool)));
    let types = vec![Type::String, list, map];
    let res = resolve_type(&path_with("Vec", vec![path("String")]), &types).unwrap();
    assert!(type_eq(&res, &types[1]));
    let res = resolve_type(&path_with("HashMap", vec![path("String"), path("bool")]), &types).unwrap();
    assert!(type_eq(&res, &types[2]));
    assert!(resolve_type(&path_with("HashMap", vec![path("String")]), &types).is_none());
}

#[test]
fn resolve_unit_and_tuple() {
    let tuple = Type::Tuple(vec![Type::Primitive(Primitive::U8), Type::String]);
    let types = vec![Type::String, tuple, Type::Unit];
    let res = resolve_type(&TypeSyntax::Unit, &types).unwrap();
    assert!(type_eq(&res, &Type::Unit));
    assert!(resolve_type(&TypeSyntax::Unit, &vec![Type::String]).is_none());
    let syntax = TypeSyntax::Tuple(vec![path("u8"), path("String")], "(u8, String)".to_owned());
    let res = resolve_type(&syntax, &types).unwrap();
    assert!(type_eq(&res, &types[1]));
    let other = TypeSyntax::Tuple(vec![path("String"), path("u8")], "(String, u8)".to_owned());
    assert!(resolve_type(&other, &types).is_none());
}

#[test]
fn resolve_generic_argument_by_name() {
    let types = vec![Type::named_generic("T")];
    let res = resolve_type(&path("T"), &types).unwrap();
    assert!(type_eq(&res, &types[0]));
}

#[test]
fn struct_from_item() {
    let item = ItemSyntax::Struct(StructItemSyntax {
        ident: "Point".to_owned(),
        generics: vec![GenericParamSyntax::Type(TypeParamSyntax { ident: "T".to_owned(), bounds: vec![] })],
        fields: vec![field("x", path("u32")), field("label", path("String"))],
        attrs: vec![],
    });
    let ty = Type::from_item(&item, &vec![Type::String]);
    let expected = Type::Struct(
        "Point".to_owned(),
        vec![GenericArgument { name: "T".to_owned(), ty: None }],
        vec![
            Field { name: "x".to_owned(), ty: Type::Primitive(Primitive::U32) },
            Field { name: "label".to_owned(), ty: Type::String },
        ],
    );
    assert!(type_eq(&ty, &expected));
    assert_eq!(ty.name(), "Point<T>");
}

#[test]
fn enum_from_item() {
    let item = ItemSyntax::Enum(EnumItemSyntax {
        ident: "Event".to_owned(),
        generics: vec![],
        variants: vec![
            VariantSyntax { ident: "Start".to_owned(), fields: vec![], has_discriminant: false, attrs: vec![] },
            VariantSyntax {
                ident: "Move".to_owned(),
                fields: vec![field("dx", path("i32"))],
                has_discriminant: false,
                attrs: vec![],
            },
            VariantSyntax {
                ident: "Say".to_owned(),
                fields: vec![unnamed(path("String")), unnamed(path("u8"))],
                has_discriminant: false,
                attrs: vec![],
            },
        ],
        attrs: vec![Attribute {
            ident: Some("fp".to_owned()),
            is_outer: true,
            literals: vec!["\"type\"".to_owned()],
            entries: Some(vec![AttrEntry { key: "tag".to_owned(), value: Some("\"type\"".to_owned()) }]),
        }],
    });
    let ty = Type::from_item(&item, &vec![Type::String]);
    let expected = Type::Enum(
        "Event".to_owned(),
        vec![],
        vec![
            Variant { name: "Start".to_owned(), ty: Type::Unit },
            Variant {
                name: "Move".to_owned(),
                ty: Type::Struct(
                    "Move".to_owned(),
                    vec![],
                    vec![Field { name: "dx".to_owned(), ty: Type::Primitive(Primitive::I32) }],
                ),
            },
            Variant {
                name: "Say".to_owned(),
                ty: Type::Tuple(vec![Type::String, Type::Primitive(Primitive::U8)]),
            },
        ],
        EnumOptions { content_prop_name: None, tag_prop_name: Some("\"type\"".to_owned()) },
    );
    assert!(type_eq(&ty, &expected));
}
