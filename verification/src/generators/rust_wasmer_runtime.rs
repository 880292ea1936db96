use vstd::prelude::*;
use crate::functions::{Function, FunctionArg, FunctionList};
use crate::generators::rust_plugin;
use crate::generators::ts_runtime::ident_is_primitive;
use crate::primitives::{primitive_from_name, Primitive};
use crate::text::str_views;
use crate::types::type_ident::{clone_strings, format_view, TypeIdent};
use crate::types::TypeMap;

verus! {

/// How a value crosses the boundary of a Wasm module: a primitive passes as
/// itself, anything else as a fat pointer to its MessagePack encoding.
#[derive(Clone, Copy, Debug, PartialEq, Eq, Structural)]
pub enum WasmType {
    Primitive(Primitive),
    FatPtr,
}

/// How the raw variant of an exported function passes a value: a primitive
/// as itself, anything else as its MessagePack bytes.
#[derive(Clone, Copy, Debug, PartialEq, Eq, Structural)]
pub enum RawType {
    Primitive(Primitive),
    Bytes,
}

/// The Wasm type of an identifier; only its name decides.
pub open spec fn wasm_type_of(ty: TypeIdent) -> WasmType {
    match primitive_from_name(ty.name@) {
        Some(p) => WasmType::Primitive(p),
        None => WasmType::FatPtr,
    }
}

/// The raw type of an identifier; only its name decides.
pub open spec fn raw_type_of(ty: TypeIdent) -> RawType {
    match primitive_from_name(ty.name@) {
        Some(p) => RawType::Primitive(p),
        None => RawType::Bytes,
    }
}

/// The Wasm type in which a value of type `ty` crosses the boundary.
pub fn wasm_type(ty: &TypeIdent) -> (res: WasmType)
    ensures
        res == wasm_type_of(*ty),
{
    match Primitive::from_str(ty.name.as_str()) {
        Ok(p) => WasmType::Primitive(p),
        Err(_) => WasmType::FatPtr,
    }
}

/// The type in which the raw variant of an exported function passes a
/// value of type `ty`.
pub fn raw_type(ty: &TypeIdent) -> (res: RawType)
    ensures
        res == raw_type_of(*ty),
{
    match Primitive::from_str(ty.name.as_str()) {
        Ok(p) => RawType::Primitive(p),
        Err(_) => RawType::Bytes,
    }
}

/// An argument of a generated function, with the types in which it
/// crosses the boundary of the Wasm module.
#[derive(Debug)]
pub struct WasmArg {
    /// The argument's name.
    pub name: String,
    /// The Rust text of its type.
    pub rust_type: String,
    /// The Wasm type in which it crosses the boundary.
    pub wasm: WasmType,
    /// The type in which the raw variant passes it.
    pub raw: RawType,
    /// Whether it crosses the boundary serialized (it is no primitive).
    pub serialized: bool,
}

/// Whether `shape` describes the argument `arg`.
pub open spec fn wasm_arg_of(shape: WasmArg, arg: FunctionArg) -> bool {
    &&& shape.name@ == arg.name@
    &&& shape.rust_type@ == format_view(arg.ty@, false)
    &&& shape.wasm == wasm_type_of(arg.ty)
    &&& shape.raw == raw_type_of(arg.ty)
    &&& shape.serialized == !ident_is_primitive(arg.ty)
}

/// Whether `shapes` describe the arguments `args`, one for one.
pub open spec fn wasm_args_of(shapes: Seq<WasmArg>, args: Seq<FunctionArg>) -> bool {
    &&& shapes.len() == args.len()
    &&& forall|i: int| 0 <= i < args.len() ==> wasm_arg_of(#[trigger] shapes[i], args[i])
}

/// The shape of an argument.
pub fn wasm_arg(arg: &FunctionArg) -> (res: WasmArg)
    ensures
        wasm_arg_of(res, *arg),
{
    WasmArg {
        name: arg.name.clone(),
        rust_type: arg.ty.format(false),
        wasm: wasm_type(&arg.ty),
        raw: raw_type(&arg.ty),
        serialized: !arg.ty.is_primitive(),
    }
}

/// The shapes of a list of arguments.
pub fn wasm_args(args: &Vec<FunctionArg>) -> (res: Vec<WasmArg>)
    ensures
        wasm_args_of(res@, args@),
{
    let mut res: Vec<WasmArg> = Vec::new();
    let mut i: usize = 0;
    while i < args.len()
        invariant
            i <= args@.len(),
            res@.len() == i,
            forall|k: int| 0 <= k < i ==> wasm_arg_of(#[trigger] res@[k], args@[k]),
        decreases args@.len() - i,
    {
        res.push(wasm_arg(&args[i]));
        i = i + 1;
    }
    res
}

/// What the runtime does with the result of a call into a plugin's export.
#[derive(Clone, Copy, Debug, PartialEq, Eq, Structural)]
pub enum ExportResult {
    /// The call gives a future, which is awaited and then deserialized.
    Async,
    /// The call gives a fat pointer, whose data is read and deserialized.
    Deserialize,
    /// The call gives the value itself (a primitive, or nothing).
    Direct,
}

/// How the runtime handles the result of calling `f`.
pub open spec fn export_result_of(f: Function) -> ExportResult {
    if f.is_async {
        ExportResult::Async
    } else if f.return_type matches Some(t) && !ident_is_primitive(t) {
        ExportResult::Deserialize
    } else {
        ExportResult::Direct
    }
}

/// The method of the runtime that calls a function the plugin exports,
/// and its raw variant.
#[derive(Debug)]
pub struct ExportCall {
    /// The name of the method, the function's own.
    pub name: String,
    /// The name of its raw variant.
    pub raw_name: String,
    /// The name under which the plugin exports the function.
    pub export_name: String,
    /// The lines of the function's documentation.
    pub doc_lines: Vec<String>,
    /// The arguments.
    pub args: Vec<WasmArg>,
    /// The Rust text of the return type, if any.
    pub return_type: Option<String>,
    /// The Wasm type of the result, if any.
    pub wasm_return: Option<WasmType>,
    /// The type of the raw variant's result, if any.
    pub raw_return: Option<RawType>,
    /// Whether the methods are async.
    pub is_async: bool,
    /// What is done with the result.
    pub result: ExportResult,
}

/// The Wasm type of an optional return type.
pub open spec fn wasm_return_of(t: Option<TypeIdent>) -> Option<WasmType> {
    match t {
        Some(t) => Some(wasm_type_of(t)),
        None => None,
    }
}

/// Whether `call` describes the methods that call the export `f`.
pub open spec fn export_call_of(call: ExportCall, f: Function) -> bool {
    &&& call.name@ == f.name@
    &&& call.raw_name@ == f.name@ + "_raw"@
    &&& call.export_name@ == "__fp_gen_"@ + f.name@
    &&& str_views(call.doc_lines@) == str_views(f.doc_lines@)
    &&& wasm_args_of(call.args@, f.args@)
    &&& match f.return_type {
        Some(t) => {
            &&& call.return_type matches Some(r) && r@ == format_view(t@, false)
            &&& call.raw_return == Some(raw_type_of(t))
        },
        None => call.return_type is None && call.raw_return is None,
    }
    &&& call.wasm_return == wasm_return_of(f.return_type)
    &&& call.is_async == f.is_async
    &&& call.result == export_result_of(f)
}

/// The methods of the runtime that call the export `f`.
pub fn export_call(f: &Function) -> (res: ExportCall)
    ensures
        export_call_of(res, *f),
{
    let name = f.name.clone();
    let mut raw_name = f.name.clone();
    raw_name.append("_raw");
    let mut export_name = "__fp_gen_".to_owned();
    export_name.append(f.name.as_str());
    let (return_type, wasm_return, raw_return) = match &f.return_type {
        Some(t) => (Some(t.format(false)), Some(wasm_type(t)), Some(raw_type(t))),
        None => (None, None, None),
    };
    let result = if f.is_async {
        ExportResult::Async
    } else {
        match &f.return_type {
            Some(t) => if t.is_primitive() { ExportResult::Direct } else { ExportResult::Deserialize },
            None => ExportResult::Direct,
        }
    };
    ExportCall {
        name,
        raw_name,
        export_name,
        doc_lines: clone_strings(&f.doc_lines),
        args: wasm_args(&f.args),
        return_type,
        wasm_return,
        raw_return,
        is_async: f.is_async,
        result,
    }
}

/// What the host's wrapper of an import does with the result of the
/// host's implementation.
#[derive(Clone, Copy, Debug, PartialEq, Eq, Structural)]
pub enum ImportResult {
    /// The result is a future: the wrapper hands the plugin a pointer to
    /// an async value, which it resolves once the future is done.
    Async,
    /// There is no result.
    Unit,
    /// The result is a primitive, handed back as it is.
    Direct,
    /// The result is serialized into the plugin's memory.
    Export,
}

/// How the wrapper of the import `f` handles its result.
pub open spec fn import_result_of(f: Function) -> ImportResult {
    if f.is_async {
        ImportResult::Async
    } else {
        match f.return_type {
            None => ImportResult::Unit,
            Some(t) => if ident_is_primitive(t) { ImportResult::Direct } else { ImportResult::Export },
        }
    }
}

/// The wrapper through which the host implements a function the plugin
/// imports.
#[derive(Debug)]
pub struct ImportWrapper {
    /// The name of the wrapper: the function's, after an underscore.
    pub name: String,
    /// The name of the host's implementation, the function's own.
    pub impl_name: String,
    /// The name under which the plugin imports the function.
    pub import_name: String,
    /// The arguments.
    pub args: Vec<WasmArg>,
    /// The Wasm type the wrapper returns, if any.
    pub wasm_return: Option<WasmType>,
    /// What is done with the implementation's result.
    pub result: ImportResult,
}

/// Whether `w` describes the wrapper of the import `f`.
pub open spec fn import_wrapper_of(w: ImportWrapper, f: Function) -> bool {
    &&& w.name@ == "_"@ + f.name@
    &&& w.impl_name@ == f.name@
    &&& w.import_name@ == "__fp_gen_"@ + f.name@
    &&& wasm_args_of(w.args@, f.args@)
    &&& w.wasm_return == (if f.is_async { Some(WasmType::FatPtr) } else { wasm_return_of(f.return_type) })
    &&& w.result == import_result_of(f)
}

/// The wrapper of the import `f`.
pub fn import_wrapper(f: &Function) -> (res: ImportWrapper)
    ensures
        import_wrapper_of(res, *f),
{
    let mut name = "_".to_owned();
    name.append(f.name.as_str());
    let mut import_name = "__fp_gen_".to_owned();
    import_name.append(f.name.as_str());
    let wasm_return = if f.is_async {
        Some(WasmType::FatPtr)
    } else {
        match &f.return_type {
            Some(t) => Some(wasm_type(t)),
            None => None,
        }
    };
    let result = if f.is_async {
        ImportResult::Async
    } else {
        match &f.return_type {
            None => ImportResult::Unit,
            Some(t) => if t.is_primitive() { ImportResult::Direct } else { ImportResult::Export },
        }
    };
    ImportWrapper {
        name,
        impl_name: f.name.clone(),
        import_name,
        args: wasm_args(&f.args),
        wasm_return,
        result,
    }
}

/// What the Wasmer runtime's bindings are made of: the types file, the
/// methods that call the plugin's exports and the wrappers of its imports,
/// each in the order of its list of functions.
#[derive(Debug)]
pub struct WasmerBindings {
    /// The text of the types file, as the Rust plugin writes it.
    pub types_file: String,
    /// The methods that call the exports.
    pub exports: Vec<ExportCall>,
    /// The wrappers of the imports.
    pub imports: Vec<ImportWrapper>,
}

/// The methods that call each of `functions`.
pub fn export_calls(functions: &FunctionList) -> (res: Vec<ExportCall>)
    ensures
        res@.len() == functions@.len(),
        forall|i: int| 0 <= i < functions@.len() ==> export_call_of(#[trigger] res@[i], functions@[i]),
{
    let list = functions.iter();
    let mut res: Vec<ExportCall> = Vec::new();
    let mut i: usize = 0;
    while i < list.len()
        invariant
            list@ == functions@,
            i <= list@.len(),
            res@.len() == i,
            forall|k: int| 0 <= k < i ==> export_call_of(#[trigger] res@[k], list@[k]),
        decreases list@.len() - i,
    {
        res.push(export_call(&list[i]));
        i = i + 1;
    }
    res
}

/// The wrappers of each of `functions`.
pub fn import_wrappers(functions: &FunctionList) -> (res: Vec<ImportWrapper>)
    ensures
        res@.len() == functions@.len(),
        forall|i: int| 0 <= i < functions@.len() ==> import_wrapper_of(#[trigger] res@[i], functions@[i]),
{
    let list = functions.iter();
    let mut res: Vec<ImportWrapper> = Vec::new();
    let mut i: usize = 0;
    while i < list.len()
        invariant
            list@ == functions@,
            i <= list@.len(),
            res@.len() == i,
            forall|k: int| 0 <= k < i ==> import_wrapper_of(#[trigger] res@[k], list@[k]),
        decreases list@.len() - i,
    {
        res.push(import_wrapper(&list[i]));
        i = i + 1;
    }
    res
}

/// The parts of a Wasmer runtime's bindings: the types file as the Rust
/// plugin writes it, a method calling each of the plugin's exports and a
/// wrapper for each of its imports, in the order of the lists.
pub fn generate_bindings(
    import_functions: &FunctionList,
    export_functions: &FunctionList,
    types: &TypeMap,
) -> (res: WasmerBindings)
    requires
        rust_plugin::types_formattable(types@),
    ensures
        res.types_file@ == rust_plugin::rs_types_file(types@),
        res.exports@.len() == export_functions@.len(),
        forall|i: int| 0 <= i < export_functions@.len() ==> export_call_of(#[trigger] res.exports@[i], export_functions@[i]),
        res.imports@.len() == import_functions@.len(),
        forall|i: int| 0 <= i < import_functions@.len() ==> import_wrapper_of(#[trigger] res.imports@[i], import_functions@[i]),
{
    let (exports, imports) = generate_function_bindings(import_functions, export_functions);
    WasmerBindings { types_file: rust_plugin::generate_type_bindings(types), exports, imports }
}

/// The methods that call each of the plugin's exports and the wrappers of
/// each of its imports, in the order of the lists.
pub fn generate_function_bindings(
    import_functions: &FunctionList,
    export_functions: &FunctionList,
) -> (res: (Vec<ExportCall>, Vec<ImportWrapper>))
    ensures
        res.0@.len() == export_functions@.len(),
        forall|i: int| 0 <= i < export_functions@.len() ==> export_call_of(#[trigger] res.0@[i], export_functions@[i]),
        res.1@.len() == import_functions@.len(),
        forall|i: int| 0 <= i < import_functions@.len() ==> import_wrapper_of(#[trigger] res.1@[i], import_functions@[i]),
{
    (export_calls(export_functions), import_wrappers(import_functions))
}


/// A value that is no array crosses the Wasm boundary as a fat pointer
/// exactly when it is serialized, that is when it is no primitive, and the
/// raw variant passes it as bytes exactly then; a primitive crosses as
/// itself.
pub proof fn lemma_fat_pointer_iff_serialized(arg: FunctionArg)
    requires
        arg.ty.array is None,
    ensures
        (wasm_type_of(arg.ty) == WasmType::FatPtr) == !ident_is_primitive(arg.ty),
        (raw_type_of(arg.ty) == RawType::Bytes) == !ident_is_primitive(arg.ty),
        ident_is_primitive(arg.ty) ==> {
            &&& wasm_type_of(arg.ty) == WasmType::Primitive(primitive_from_name(arg.ty.name@).unwrap())
            &&& raw_type_of(arg.ty) == RawType::Primitive(primitive_from_name(arg.ty.name@).unwrap())
        },
{
}

/// What the host does with the result of an import, and what the wrapper
/// returns, agree: an async import returns a fat pointer to the future's
/// value; an import without a result returns nothing; a primitive result
/// is returned as itself, and any other result is serialized and returned
/// as a fat pointer.
pub proof fn lemma_import_result_matches_return(w: ImportWrapper, f: Function)
    requires
        import_wrapper_of(w, f),
        f.return_type matches Some(t) ==> t.array is None,
    ensures
        w.result == ImportResult::Async ==> f.is_async && w.wasm_return == Some(WasmType::FatPtr),
        w.result == ImportResult::Unit ==> !f.is_async && f.return_type is None && w.wasm_return is None,
        w.result == ImportResult::Direct ==> w.wasm_return matches Some(WasmType::Primitive(_)),
        w.result == ImportResult::Export ==> w.wasm_return == Some(WasmType::FatPtr),
{
}

/// What the runtime does with the result of calling an export agrees with
/// what the export returns: a result that is no primitive arrives as a fat
/// pointer and is deserialized, and a primitive result (or none) is taken
/// as it is.
pub proof fn lemma_export_result_matches_return(call: ExportCall, f: Function)
    requires
        export_call_of(call, f),
        f.return_type matches Some(t) ==> t.array is None,
    ensures
        call.result == ExportResult::Async <==> f.is_async,
        call.result == ExportResult::Deserialize ==> call.wasm_return == Some(WasmType::FatPtr)
            && call.raw_return == Some(RawType::Bytes),
        call.result == ExportResult::Direct ==> match call.wasm_return {
            Some(t) => t is Primitive,
            None => true,
        },
{
}

} // verus!
