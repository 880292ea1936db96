use fp_bindgen::functions::{DeclRefusal, FnDeclSyntax, FnInputSyntax, Function, FunctionList};
use fp_bindgen::resolved_items::ItemSyntax;
use fp_bindgen::types::attrs::{AttrEntry, Attribute};
use fp_bindgen::types::items::{
    enum_item_refusal, struct_item_refusal, type_of_item, EnumItemSyntax, FieldSyntax, Refusal, StructItemSyntax,
    VariantSyntax,
};
use fp_bindgen::types::syntax::{LenSyntax, TypeSyntax};
use fp_bindgen::types::Type;

fn path(name: &str) -> TypeSyntax {
    TypeSyntax::Path(vec![name.to_owned()], vec![])
}

fn fp_attr(entries: Vec<(&str, Option<&str>)>) -> Attribute {
    Attribute {
        ident: Some("fp".to_owned()),
        is_outer: true,
        literals: vec![],
        entries: Some(
            entries
                .into_iter()
                .map(|(k, v)| AttrEntry { key: k.to_owned(), value: v.map(|s| s.to_owned()) })
                .collect(),
        ),
    }
}

fn field(name: Option<&str>, ty: TypeSyntax) -> FieldSyntax {
    FieldSyntax { ident: name.map(|n| n.to_owned()), ty, attrs: vec![] }
}

fn variant(name: &str, fields: Vec<FieldSyntax>) -> VariantSyntax {
    VariantSyntax { ident: name.to_owned(), fields, has_discriminant: false, attrs: vec![] }
}

fn inline_tagged(variants: Vec<VariantSyntax>) -> EnumItemSyntax {
    EnumItemSyntax {
        ident: "Shape".to_owned(),
        generics: vec![],
        variants,
        attrs: vec![fp_attr(vec![("tag", Some("\"type\""))])],
    }
}

#[test]
fn readable_struct_has_no_refusal() {
    let item = StructItemSyntax {
        ident: "Point".to_owned(),
        generics: vec![],
        fields: vec![field(Some("x"), path("f64"))],
        attrs: vec![],
    };
    assert_eq!(struct_item_refusal(&item), None);
    match type_of_item(&ItemSyntax::Struct(item)) {
        Ok(Type::Struct(s)) => assert_eq!(s.fields[0].ty.name, "f64"),
        other => panic!("expected a struct, got {other:?}"),
    }
}

#[test]
fn struct_refusals() {
    let bad_attr = StructItemSyntax {
        ident: "Point".to_owned(),
        generics: vec![],
        fields: vec![],
        attrs: vec![fp_attr(vec![("no_such_option", None)])],
    };
    assert_eq!(struct_item_refusal(&bad_attr), Some(Refusal::Attributes));
    let bad_type = StructItemSyntax {
        ident: "Point".to_owned(),
        generics: vec![],
        fields: vec![field(Some("x"), path("f64")), field(Some("y"), TypeSyntax::Other("fn()".to_owned()))],
        attrs: vec![],
    };
    assert_eq!(struct_item_refusal(&bad_type), Some(Refusal::FieldType(None, 1)));
    let bad_length = StructItemSyntax {
        ident: "Point".to_owned(),
        generics: vec![],
        fields: vec![field(Some("x"), TypeSyntax::Array(Box::new(path("u8")), LenSyntax::OtherLiteral))],
        attrs: vec![],
    };
    assert_eq!(struct_item_refusal(&bad_length), Some(Refusal::FieldType(None, 0)));
    assert!(matches!(type_of_item(&ItemSyntax::Struct(bad_length)), Err(Refusal::FieldType(None, 0))));
}

#[test]
fn enum_refusals() {
    let mut with_discriminant = variant("A", vec![]);
    with_discriminant.has_discriminant = true;
    let item = EnumItemSyntax { ident: "E".to_owned(), generics: vec![], variants: vec![with_discriminant], attrs: vec![] };
    assert_eq!(enum_item_refusal(&item), Some(Refusal::Discriminant(0)));

    let unnamed = inline_tagged(vec![variant("A", vec![field(Some("a"), path("u8")), field(None, path("u8"))])]);
    assert_eq!(enum_item_refusal(&unnamed), Some(Refusal::UnnamedField(0, 1)));

    let tag_field = inline_tagged(vec![variant("Unit", vec![]), variant("A", vec![field(Some("type"), path("u8"))])]);
    assert_eq!(enum_item_refusal(&tag_field), Some(Refusal::TagField(1, 0)));

    let primitive = inline_tagged(vec![variant("A", vec![field(None, path("String"))])]);
    assert_eq!(enum_item_refusal(&primitive), Some(Refusal::PrimitiveUnnamedField(0, 0)));

    let multiple = inline_tagged(vec![variant("A", vec![field(None, path("Point")), field(None, path("Point"))])]);
    assert_eq!(enum_item_refusal(&multiple), Some(Refusal::MultipleUnnamedFields(0)));

    let fine = inline_tagged(vec![variant("A", vec![field(None, path("Point"))])]);
    assert_eq!(enum_item_refusal(&fine), None);
    assert!(matches!(type_of_item(&ItemSyntax::Enum(fine)), Ok(Type::Enum(_))));
}

fn decl(inputs: Vec<FnInputSyntax>, output: Option<TypeSyntax>) -> FnDeclSyntax {
    FnDeclSyntax { ident: "run".to_owned(), attrs: vec![], inputs, output, is_async: false }
}

#[test]
fn declaration_refusals() {
    assert_eq!(
        Function::read(&decl(vec![FnInputSyntax::Receiver], None)).unwrap_err(),
        DeclRefusal::Receiver(0)
    );
    assert_eq!(
        Function::read(&decl(vec![FnInputSyntax::Typed("a".to_owned(), TypeSyntax::Other("fn()".to_owned()))], None))
            .unwrap_err(),
        DeclRefusal::ArgumentType(0)
    );
    assert_eq!(
        Function::read(&decl(vec![], Some(TypeSyntax::Other("fn()".to_owned())))).unwrap_err(),
        DeclRefusal::ReturnType
    );
    let f = Function::read(&decl(vec![FnInputSyntax::Typed("a".to_owned(), path("u32"))], Some(TypeSyntax::Unit)))
        .unwrap();
    assert_eq!(f.name, "run");
    assert_eq!(f.return_type, None);
}

#[test]
fn adding_declared_functions() {
    let mut list = FunctionList::new();
    assert_eq!(list.add_declared_function(&decl(vec![FnInputSyntax::Receiver], None)), Err(DeclRefusal::Receiver(0)));
    assert_eq!(list.len(), 0);
    assert_eq!(list.add_declared_function(&decl(vec![], None)), Ok(()));
    let mut other = decl(vec![], Some(path("u8")));
    other.is_async = true;
    assert_eq!(list.add_declared_function(&other), Ok(()));
    assert_eq!(list.len(), 1);
    assert!(!list.iter()[0].is_async);
}

fn entries(text: &str) -> Option<Vec<(String, Option<String>)>> {
    fp_bindgen::types::attr_tokens::parse_entries(text)
        .map(|es| es.into_iter().map(|e| (e.key, e.value)).collect())
}

#[test]
fn attribute_entries_from_token_text() {
    assert_eq!(
        entries("(rename_all = \"camelCase\" , tag = \"type\")"),
        Some(vec![
            ("rename_all".to_owned(), Some("\"camelCase\"".to_owned())),
            ("tag".to_owned(), Some("\"type\"".to_owned())),
        ])
    );
    assert_eq!(entries("(default)"), Some(vec![("default".to_owned(), None)]));
    assert_eq!(
        entries(" ( skip_serializing_if = \"Option::is_none\" ) "),
        Some(vec![("skip_serializing_if".to_owned(), Some("\"Option::is_none\"".to_owned()))])
    );
    assert_eq!(entries("(a = \"x\\\"y, z\")"), Some(vec![("a".to_owned(), Some("\"x\\\"y, z\"".to_owned()))]));
    assert_eq!(entries("(a = r#\"x\"#)"), Some(vec![("a".to_owned(), Some("r#\"x\"#".to_owned()))]));
    assert_eq!(entries("(r#type = \"x\")"), Some(vec![("r#type".to_owned(), Some("\"x\"".to_owned()))]));
    assert_eq!(entries("(bound (serialize = \"T: Serialize\"))"), None);
    assert_eq!(entries("()"), None);
    assert_eq!(entries("(a ,)"), None);
    assert_eq!(entries("(a = 1)"), None);
    assert_eq!(entries("(a) b"), None);
    assert_eq!(entries("= \" doc line\""), None);
    assert_eq!(entries(""), None);
}
