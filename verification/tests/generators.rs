use fp_bindgen::casing::Casing;
use fp_bindgen::functions::{Function, FunctionArg, FunctionList};
use fp_bindgen::generators::{
    bindings_writable, display_warnings, rust_plugin, ts_runtime, BindingsType, RustPluginConfig, TsExtendedRuntimeConfig,
};
use fp_bindgen::primitives::Primitive;
use fp_bindgen::types::{
    create_default_type_map, CargoDependency, CustomType, Field, FieldAttrs, Struct, StructOptions, Type, TypeIdent,
    TypeMap,
};

fn ident(name: &str) -> TypeIdent {
    TypeIdent::new(name, vec![])
}

fn point_struct() -> Struct {
    Struct {
        ident: TypeIdent::new("Point", vec![(ident("T"), vec![])]),
        fields: vec![Field {
            name: Some("value".to_owned()),
            ty: ident("T"),
            doc_lines: vec![],
            attrs: FieldAttrs::default(),
        }],
        doc_lines: vec![],
        options: StructOptions::default(),
    }
}

fn plain_function(name: &str, is_async: bool) -> Function {
    Function {
        name: name.to_owned(),
        doc_lines: vec![],
        args: vec![
            FunctionArg { name: "a".to_owned(), ty: ident("u32") },
            FunctionArg { name: "b".to_owned(), ty: ident("u32") },
        ],
        return_type: Some(ident("u32")),
        is_async,
    }
}

fn primitive_types() -> TypeMap {
    let mut types = create_default_type_map();
    types.insert(ident("u32"), Type::Primitive(Primitive::U32));
    types
}

#[test]
fn rust_struct_definition() {
    let types = TypeMap::new();
    assert_eq!(
        rust_plugin::create_struct_definition(&point_struct(), &types),
        "#[derive(Clone, Debug, Deserialize, PartialEq, Serialize)]\npub struct Point<T> {\n    pub value: T,\n}"
    );
}

#[test]
fn rust_tuple_struct_definition() {
    let types = TypeMap::new();
    let s = Struct {
        ident: ident("Wrapper"),
        fields: vec![Field { name: None, ty: ident("u64"), doc_lines: vec![], attrs: FieldAttrs::default() }],
        doc_lines: vec![" A wrapper.".to_owned()],
        options: StructOptions::default(),
    };
    assert_eq!(
        rust_plugin::create_struct_definition(&s, &types),
        "/// A wrapper.\n#[derive(Clone, Debug, Deserialize, PartialEq, Serialize)]\npub struct Wrapper(pub u64,);"
    );
}

#[test]
fn rust_enum_definition_of_guest_error() {
    let types = create_default_type_map();
    let (_, ty) = types.entry_at(0);
    let e = match ty {
        Type::Enum(e) => e,
        _ => panic!("expected an enum"),
    };
    assert_eq!(
        rust_plugin::create_enum_definition(e, &types),
        "#[derive(Clone, Debug, Deserialize, PartialEq, Serialize)]\n\
         #[serde(tag = \"type\", rename_all = \"snake_case\")]\n\
         pub enum FPGuestError {\n    \
         /// Deserialization of data failed, possible mismatch between guest and runtime protocol version\n    \
         #[serde(rename_all = \"camelCase\")]\n    \
         SerdeError {\n        \
         /// Path to the failed field that failed to serde\n        \
         path: String,\n        \
         message: String,\n    \
         },\n    \
         InvalidFatPtr,\n\
         }"
    );
}

#[test]
fn rust_types_file_skips_result() {
    let types = create_default_type_map();
    let file = rust_plugin::generate_type_bindings(&types);
    assert!(file.starts_with("#![allow(unused_imports)]\nuse serde::{Deserialize, Serialize};\n\npub enum FPGuestError")
        || file.starts_with("#![allow(unused_imports)]\nuse serde::{Deserialize, Serialize};\n\n#[derive("));
    assert!(!file.contains("pub enum Result"));
    assert!(file.ends_with("}\n"));
}

#[test]
fn rust_types_file_imports_std_collections() {
    let mut types = TypeMap::new();
    types.insert(
        TypeIdent::new("BTreeMap", vec![(ident("K"), vec![]), (ident("V"), vec![])]),
        Type::Mapping("BTreeMap".to_owned(), ident("K"), ident("V")),
    );
    types.insert(TypeIdent::new("Rc", vec![(ident("T"), vec![])]), Type::Container("Rc".to_owned(), ident("T")));
    assert_eq!(
        rust_plugin::generate_type_bindings(&types),
        "#![allow(unused_imports)]\nuse serde::{Deserialize, Serialize};\nuse std::{collections::BTreeMap, rc::Rc};\n\n\n"
    );
}

#[test]
fn rust_format_ident_with_generic_args() {
    let mut types = TypeMap::new();
    types.insert(TypeIdent::new("Vec", vec![(ident("T"), vec![])]), Type::List("Vec".to_owned(), ident("T")));
    types.insert(ident("u32"), Type::Primitive(Primitive::U32));
    let vec_of_u32 = TypeIdent::new("Vec", vec![(ident("u32"), vec![])]);
    assert_eq!(rust_plugin::format_ident(&vec_of_u32, &types), "Vec<u32>");
    assert_eq!(rust_plugin::format_ident(&ident("Unknown"), &types), "Unknown");
}

#[test]
fn rust_imported_functions() {
    let types = TypeMap::new();
    let mut functions = FunctionList::new();
    functions.add_function(plain_function("my_plain_imported_function", false));
    assert_eq!(
        rust_plugin::generate_imported_function_bindings(&functions, &types),
        "use crate::types::*;\n\n#[fp_bindgen_support::fp_import_signature]\npub fn my_plain_imported_function(a: u32, b: u32) -> u32;\n"
    );
}

#[test]
fn rust_async_exported_function() {
    let types = TypeMap::new();
    let mut functions = FunctionList::new();
    let mut f = plain_function("fetch", true);
    f.doc_lines = vec![" Fetches.".to_owned()];
    functions.add_function(f);
    assert_eq!(
        rust_plugin::generate_exported_function_bindings(&functions, &types),
        "use crate::types::*;\n\n/// Fetches.\n#[fp_bindgen_support::fp_export_signature]\npub async fn fetch(a: u32, b: u32) -> u32;\n"
    );
}

fn plugin_config(dependencies: Vec<(&'static str, CargoDependency)>) -> RustPluginConfig {
    RustPluginConfig {
        name: "example-plugin".to_owned(),
        authors: "[\"Fiberplane <info@fiberplane.com>\"]".to_owned(),
        version: "1.0.0".to_owned(),
        dependencies,
    }
}

#[test]
fn rust_cargo_file() {
    let types = create_default_type_map();
    let functions = FunctionList::new();
    assert_eq!(
        rust_plugin::generate_cargo_file(&plugin_config(vec![]), &functions, &types, "3.0.0"),
        "[package]\nname = \"example-plugin\"\nversion = \"1.0.0\"\nauthors = [\"Fiberplane <info@fiberplane.com>\"]\nedition = \"2018\"\n\n[dependencies]\n\
         fp-bindgen-support = { version = \"3.0.0\", features = [\"guest\"] }\n\
         once_cell = { version = \"1\" }\n\
         rmp-serde = { version = \"1.0\" }\n\
         serde = { version = \"1.0\", features = [\"derive\"] }\n"
    );
}

#[test]
fn rust_cargo_file_merges_dependencies() {
    let types = create_default_type_map();
    let mut functions = FunctionList::new();
    functions.add_function(plain_function("fetch", true));
    let config = plugin_config(vec![
        ("http", CargoDependency::with_version("0.2")),
        ("serde", CargoDependency::with_version_and_features("1.0", vec!["rc", "derive"])),
    ]);
    assert_eq!(
        rust_plugin::generate_cargo_file(&config, &functions, &types, "3.0.0"),
        "[package]\nname = \"example-plugin\"\nversion = \"1.0.0\"\nauthors = [\"Fiberplane <info@fiberplane.com>\"]\nedition = \"2018\"\n\n[dependencies]\n\
         fp-bindgen-support = { version = \"3.0.0\", features = [\"async\", \"guest\"] }\n\
         http = { version = \"0.2\" }\n\
         once_cell = { version = \"1\" }\n\
         rmp-serde = { version = \"1.0\" }\n\
         serde = { version = \"1.0\", features = [\"derive\", \"rc\"] }\n"
    );
}

#[test]
fn rust_plugin_files() {
    let types = create_default_type_map();
    let functions = FunctionList::new();
    let files = rust_plugin::generate_bindings(&functions, &functions, &types, &plugin_config(vec![]), "3.0.0");
    let names: Vec<&str> = files.iter().map(|(n, _)| n.as_str()).collect();
    assert_eq!(names, vec!["Cargo.toml", "src/types.rs", "src/import.rs", "src/export.rs", "src/lib.rs"]);
    assert!(files[4].1.contains("pub use fp_bindgen_support::*;"));
}

#[test]
fn ts_struct_definition() {
    let types = TypeMap::new();
    assert_eq!(
        ts_runtime::create_struct_definition(&point_struct(), &types),
        "export type Point<T> = {\n    value: T;\n};"
    );
}

#[test]
fn ts_result_definition() {
    let types = create_default_type_map();
    let (_, ty) = types.entry_at(1);
    let e = match ty {
        Type::Enum(e) => e,
        _ => panic!("expected an enum"),
    };
    assert_eq!(
        ts_runtime::create_enum_definition(e, &types),
        "/**\n * A result that can be either successful (`Ok`) or represent an error (`Err`).\n */\n\
         export type Result<T, E> =\n    \
         /**\n     \
          * Represents a successful result.\n     \
          */\n    \
         | { Ok: T }\n    \
         /**\n     \
          * Represents an error.\n     \
          */\n    \
         | { Err: E };"
    );
}

#[test]
fn ts_guest_error_definition() {
    let types = create_default_type_map();
    let (_, ty) = types.entry_at(0);
    let e = match ty {
        Type::Enum(e) => e,
        _ => panic!("expected an enum"),
    };
    assert_eq!(
        ts_runtime::create_enum_definition(e, &types),
        "export type FPGuestError =\n    \
         /**\n     \
          * Deserialization of data failed, possible mismatch between guest and runtime protocol version\n     \
          */\n    \
         | {\n        \
         type: \"serde_error\";\n\n        \
         /**\n         \
          * Path to the failed field that failed to serde\n         \
          */\n        \
         path: String;\n        \
         message: String;\n    \
         }\n    \
         | { type: \"invalid_fat_ptr\" };"
    );
}

#[test]
fn ts_format_ident() {
    let mut types = primitive_types();
    types.insert(TypeIdent::new("Option", vec![(ident("T"), vec![])]), Type::Container("Option".to_owned(), ident("T")));
    types.insert(ident("String"), Type::String);
    let opt = TypeIdent::new("Option", vec![(ident("String"), vec![])]);
    assert_eq!(ts_runtime::format_ident(&opt, &types), "string | null");
    assert_eq!(ts_runtime::format_ident(&ident("u32"), &types), "number");
    assert_eq!(ts_runtime::format_primitive(Primitive::U64), "bigint");
}

#[test]
fn ts_function_declarations_and_wrappers() {
    let types = primitive_types();
    let mut imports = FunctionList::new();
    imports.add_function(plain_function("my_plain_imported_function", false));
    assert_eq!(
        ts_runtime::format_function_declarations(&imports, &types, ts_runtime::FunctionType::Import),
        vec!["myPlainImportedFunction: (a: number, b: number) => number".to_owned()]
    );
    assert_eq!(
        ts_runtime::format_function_declarations(&imports, &types, ts_runtime::FunctionType::Export),
        vec!["myPlainImportedFunction?: (a: number, b: number) => number".to_owned()]
    );
    assert_eq!(
        ts_runtime::format_import_wrappers(&imports, &types),
        vec![
            "__fp_gen_my_plain_imported_function: (a: number, b: number): number => {".to_owned(),
            "    return importFunctions.myPlainImportedFunction(a, b);".to_owned(),
            "},".to_owned(),
        ]
    );
    assert_eq!(
        ts_runtime::format_export_wrappers(&imports, &types),
        vec!["myPlainImportedFunction: instance.exports.__fp_gen_my_plain_imported_function as any,".to_owned()]
    );
    assert!(ts_runtime::format_raw_export_wrappers(&imports).is_empty());
    assert!(ts_runtime::format_raw_function_declarations(&imports, ts_runtime::FunctionType::Export).is_empty());
}

#[test]
fn ts_async_export_wrapper() {
    let types = primitive_types();
    let mut exports = FunctionList::new();
    exports.add_function(plain_function("fetch_data", true));
    assert_eq!(
        ts_runtime::format_export_wrappers(&exports, &types),
        vec![
            "fetchData: (() => {".to_owned(),
            "    const export_fn = instance.exports.__fp_gen_fetch_data as any;".to_owned(),
            "    if (!export_fn) return;".to_owned(),
            "".to_owned(),
            "    return (a: number, b: number) => promiseFromPtr(export_fn(a, b)).then((ptr) => parseObject<number>(ptr));"
                .to_owned(),
            "})(),".to_owned(),
        ]
    );
    assert_eq!(
        ts_runtime::format_raw_function_declarations(&exports, ts_runtime::FunctionType::Export),
        vec!["fetchDataRaw?: (a: number, b: number) => Promise<number>".to_owned()]
    );
}

#[test]
fn ts_join_lines_and_docs() {
    let lines = vec!["a".to_owned(), "".to_owned(), "b".to_owned()];
    assert_eq!(ts_runtime::join_lines(&lines, "  ", ";"), "  a;\n\n  b;\n");
    assert_eq!(ts_runtime::join_lines(&vec![], "  ", ";"), "");
    assert_eq!(
        ts_runtime::format_docs(&vec![" Doc.".to_owned()]),
        vec!["/**".to_owned(), " * Doc.".to_owned(), " */".to_owned()]
    );
}

#[test]
fn ts_runtime_files() {
    let types = create_default_type_map();
    let functions = FunctionList::new();
    let config = TsExtendedRuntimeConfig::new().with_raw_export_wrappers();
    let files = ts_runtime::generate_bindings(&functions, &functions, &types, &config);
    assert_eq!(files[0].0, "types.ts");
    assert!(files[0].1.starts_with("// ============================================= //\n// Types for WebAssembly runtime"));
    assert_eq!(files[1].0, "index.ts");
    assert!(files[1].1.contains("import type {\n    FPGuestError,\n    Result,\n} from \"./types\";"));
    assert!(!files[1].1.contains("resolveFuture"));
}

#[test]
fn ts_config_builders() {
    let config = TsExtendedRuntimeConfig::new();
    assert_eq!(config.msgpack_module, "@msgpack/msgpack");
    assert!(!config.generate_raw_export_wrappers);
    let config = config.with_msgpack_module("https://unpkg.com/@msgpack/msgpack/mod.ts").with_raw_export_wrappers();
    assert_eq!(config.msgpack_module, "https://unpkg.com/@msgpack/msgpack/mod.ts");
    assert!(config.generate_raw_export_wrappers);
}

#[test]
fn warnings_about_custom_serializers() {
    let mut types = TypeMap::new();
    types.insert(
        ident("OffsetDateTime"),
        Type::Custom(CustomType {
            ident: ident("OffsetDateTime"),
            rs_ty: "time::OffsetDateTime".to_owned(),
            rs_dependencies: vec![],
            serde_attrs: vec!["with = \"time::serde::rfc3339\"".to_owned()],
            ts_ty: "string".to_owned(),
            ts_declaration: None,
        }),
    );
    let mut imports = FunctionList::new();
    imports.add_function(Function {
        name: "now".to_owned(),
        doc_lines: vec![],
        args: vec![],
        return_type: Some(ident("OffsetDateTime")),
        is_async: false,
    });
    let exports = FunctionList::new();
    let warnings = display_warnings(&imports, &exports, &types);
    assert_eq!(warnings.len(), 1);
    assert!(warnings[0].starts_with("WARNING: Type `OffsetDateTime` is used directly in a function signature"));
    assert!(display_warnings(&exports, &exports, &types).is_empty());
}

#[test]
fn ts_field_and_variant_names() {
    let field = Field {
        name: Some("r#type".to_owned()),
        ty: ident("u32"),
        doc_lines: vec![],
        attrs: FieldAttrs::default(),
    };
    assert_eq!(ts_runtime::get_field_name(&field, Casing::Original), "type");
}

fn self_holding_tuple() -> TypeMap {
    let mut types = create_default_type_map();
    types.insert(ident("Loop"), Type::Tuple(vec![ident("Loop")]));
    types
}

#[test]
fn writable_bindings() {
    let types = primitive_types();
    let mut functions = FunctionList::new();
    functions.add_function(plain_function("add", false));
    assert!(rust_plugin::plugin_writable(&functions, &functions, &types, &plugin_config(vec![]), 64));
    assert!(ts_runtime::runtime_writable(&functions, &functions, &types, 64));
    let bindings = BindingsType::TsRuntimeWithExtendedConfig(TsExtendedRuntimeConfig::new());
    assert!(bindings_writable(&bindings, &functions, &functions, &types, 64));
}

#[test]
fn unwritable_bindings() {
    let types = self_holding_tuple();
    let mut functions = FunctionList::new();
    functions.add_function(Function {
        name: "spin".to_owned(),
        doc_lines: vec![],
        args: vec![FunctionArg { name: "x".to_owned(), ty: ident("Loop") }],
        return_type: None,
        is_async: false,
    });
    assert!(!rust_plugin::plugin_writable(&functions, &FunctionList::new(), &types, &plugin_config(vec![]), 64));
    assert!(!ts_runtime::runtime_writable(&functions, &FunctionList::new(), &types, 64));
    let unsorted = CargoDependency {
        features: vec!["serde", "derive"],
        ..CargoDependency::with_version("1")
    };
    assert!(!rust_plugin::plugin_writable(
        &FunctionList::new(),
        &FunctionList::new(),
        &primitive_types(),
        &plugin_config(vec![("serde", unsorted)]),
        64
    ));
}

#[test]
fn ts_index_imports_from_the_msgpack_module() {
    let types = create_default_type_map();
    let functions = FunctionList::new();
    let config = TsExtendedRuntimeConfig::new().with_msgpack_module("https://unpkg.com/@msgpack/msgpack/mod.ts");
    let files = ts_runtime::generate_bindings(&functions, &functions, &types, &config);
    assert!(files[1].1.contains("import { encode, decode } from \"https://unpkg.com/@msgpack/msgpack/mod.ts\";\n"));
    let default_files = ts_runtime::generate_bindings(&functions, &functions, &types, &TsExtendedRuntimeConfig::new());
    assert!(default_files[1].1.contains("import { encode, decode } from \"@msgpack/msgpack\";\n"));
}
