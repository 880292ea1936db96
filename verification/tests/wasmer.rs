use fp_bindgen::functions::{Function, FunctionArg, FunctionList};
use fp_bindgen::generators::rust_wasmer_runtime::{
    wasm_arg, export_call, import_wrapper, raw_type, wasm_type, ExportResult, ImportResult, RawType, WasmType,
};
use fp_bindgen::generators::{generate_bindings, BindingsType, GeneratedBindings};
use fp_bindgen::primitives::Primitive;
use fp_bindgen::types::{TypeIdent, TypeMap};

fn ident(name: &str) -> TypeIdent {
    TypeIdent::new(name, vec![])
}

fn wasm_text(ty: WasmType) -> String {
    match ty {
        WasmType::Primitive(p) => p.name(),
        WasmType::FatPtr => "FatPtr".to_owned(),
    }
}

fn function(name: &str, args: Vec<(&str, &str)>, return_type: Option<&str>, is_async: bool) -> Function {
    Function {
        name: name.to_owned(),
        doc_lines: vec![" Does things.".to_owned()],
        args: args
            .into_iter()
            .map(|(name, ty)| FunctionArg { name: name.to_owned(), ty: ident(ty) })
            .collect(),
        return_type: return_type.map(ident),
        is_async,
    }
}

#[test]
fn mod_test_function_arg_to_tokens() {
    let arg = FunctionArg { name: "foobar".into(), ty: TypeIdent::from("String") };
    let shape = wasm_arg(&arg);
    let stringified = format!("{} : {}", shape.name, wasm_text(shape.wasm));
    assert_eq!(&stringified, "foobar : FatPtr");
}

#[test]
fn wasm_types_of_primitives_and_others() {
    assert_eq!(wasm_type(&ident("u32")), WasmType::Primitive(Primitive::U32));
    assert_eq!(wasm_type(&ident("bool")), WasmType::Primitive(Primitive::Bool));
    assert_eq!(wasm_type(&ident("String")), WasmType::FatPtr);
    assert_eq!(wasm_type(&TypeIdent::new("Vec", vec![(ident("u8"), vec![])])), WasmType::FatPtr);
    assert_eq!(raw_type(&ident("f64")), RawType::Primitive(Primitive::F64));
    assert_eq!(raw_type(&ident("Point")), RawType::Bytes);
}

#[test]
fn export_call_of_a_function_with_complex_types() {
    let f = function("fetch_point", vec![("count", "u32"), ("name", "String")], Some("Point"), false);
    let call = export_call(&f);
    assert_eq!(call.name, "fetch_point");
    assert_eq!(call.raw_name, "fetch_point_raw");
    assert_eq!(call.export_name, "__fp_gen_fetch_point");
    assert_eq!(call.doc_lines, vec![" Does things.".to_owned()]);
    assert_eq!(call.args.len(), 2);
    assert!(!call.args[0].serialized);
    assert_eq!(call.args[0].rust_type, "u32");
    assert!(call.args[1].serialized);
    assert_eq!(call.args[1].wasm, WasmType::FatPtr);
    assert_eq!(call.args[1].raw, RawType::Bytes);
    assert_eq!(call.return_type.as_deref(), Some("Point"));
    assert_eq!(call.wasm_return, Some(WasmType::FatPtr));
    assert_eq!(call.raw_return, Some(RawType::Bytes));
    assert_eq!(call.result, ExportResult::Deserialize);
}

#[test]
fn export_call_results() {
    let primitive = export_call(&function("add", vec![("a", "u32")], Some("u32"), false));
    assert_eq!(primitive.result, ExportResult::Direct);
    assert_eq!(primitive.wasm_return, Some(WasmType::Primitive(Primitive::U32)));
    let unit = export_call(&function("log", vec![], None, false));
    assert_eq!(unit.result, ExportResult::Direct);
    assert_eq!(unit.return_type, None);
    assert_eq!(unit.raw_return, None);
    let asynchronous = export_call(&function("wait", vec![], Some("u32"), true));
    assert_eq!(asynchronous.result, ExportResult::Async);
    assert!(asynchronous.is_async);
}

#[test]
fn import_wrapper_results() {
    let asynchronous = import_wrapper(&function("fetch", vec![("url", "String")], Some("Body"), true));
    assert_eq!(asynchronous.name, "_fetch");
    assert_eq!(asynchronous.impl_name, "fetch");
    assert_eq!(asynchronous.import_name, "__fp_gen_fetch");
    assert_eq!(asynchronous.wasm_return, Some(WasmType::FatPtr));
    assert_eq!(asynchronous.result, ImportResult::Async);
    assert!(asynchronous.args[0].serialized);
    let unit = import_wrapper(&function("log", vec![("message", "String")], None, false));
    assert_eq!(unit.wasm_return, None);
    assert_eq!(unit.result, ImportResult::Unit);
    let primitive = import_wrapper(&function("count", vec![], Some("i64"), false));
    assert_eq!(primitive.wasm_return, Some(WasmType::Primitive(Primitive::I64)));
    assert_eq!(primitive.result, ImportResult::Direct);
    let complex = import_wrapper(&function("point", vec![], Some("Point"), false));
    assert_eq!(complex.wasm_return, Some(WasmType::FatPtr));
    assert_eq!(complex.result, ImportResult::Export);
}

#[test]
fn wasmer_runtime_bindings() {
    let mut imports = FunctionList::new();
    imports.add_function(function("log", vec![("message", "String")], None, false));
    let mut exports = FunctionList::new();
    exports.add_function(function("b_second", vec![], Some("u32"), false));
    exports.add_function(function("a_first", vec![], None, true));
    let types = TypeMap::new();
    for bindings_type in [BindingsType::RustWasmerRuntime, BindingsType::RustWasmerWasiRuntime] {
        let (warnings, generated) = generate_bindings(&imports, &exports, &types, &bindings_type, "3.0.0");
        assert!(warnings.is_empty());
        match generated {
            GeneratedBindings::Wasmer(bindings) => {
                assert!(bindings.types_file.starts_with("#![allow(unused_imports)]\n"));
                assert_eq!(bindings.exports.len(), 2);
                assert_eq!(bindings.exports[0].name, "a_first");
                assert_eq!(bindings.exports[1].name, "b_second");
                assert_eq!(bindings.imports.len(), 1);
                assert_eq!(bindings.imports[0].name, "_log");
            }
            GeneratedBindings::Files(_) => panic!("expected the parts of a Wasmer runtime"),
        }
    }
}
