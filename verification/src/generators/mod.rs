use vstd::prelude::*;
use crate::functions::{Function, FunctionArg, FunctionList};
use crate::text::{seq_lt, starts_with, str_views, string_starts_with};
use crate::types::type_ident::{format_view, IdentView, TypeIdent};
use crate::types::type_map::{array_lt, key_lt, lookup, lookup_key, same_key};
use crate::types::{CargoDependency, Field, Type, TypeMap, Variant};
use rust_plugin::map_values;

pub mod rust_plugin;
pub mod rust_wasmer_runtime;
pub mod ts_runtime;

verus! {

/// Settings of the Rust plugin generator.
#[derive(Debug)]
pub struct RustPluginConfig {
    /// Name of the plugin crate that will be generated.
    pub name: String,
    /// Authors to be listed in the plugin crate that will be generated.
    pub authors: String,
    /// Version of the plugin crate that will be generated.
    pub version: String,
    /// *Additional* dependencies to be listed in the plugin crate that will
    /// be generated, in ascending order of name.
    ///
    /// These are merged with a small set of dependencies that are necessary
    /// for the plugin to work and which will always be included. Specifying
    /// these dependencies yourself can be useful if you want to explicitly
    /// bump a dependency version or you want to enable a Cargo feature in
    /// them.
    pub dependencies: Vec<(&'static str, crate::types::CargoDependency)>,
}

/// Settings of the TypeScript runtime generator.
#[derive(Debug)]
pub struct TsExtendedRuntimeConfig {
    /// The module from which to import the MessagePack dependency.
    ///
    /// By default, "@msgpack/msgpack" is used, which should work with Node.js
    /// and most NPM-based bundlers. If you use Deno, you may wish to specify
    /// "https://unpkg.com/@msgpack/msgpack/mod.ts".
    pub msgpack_module: String,
    /// Whether or not to generate raw export wrappers.
    ///
    /// Raw export wrappers allow you to call `fp_export!` functions from the
    /// runtime while passing raw MessagePack data, which you can use in some
    /// situations to avoid (de)serialization overhead. If you don't need these
    /// wrappers, you can omit them to optimize your bundle size.
    pub generate_raw_export_wrappers: bool,
}

impl TsExtendedRuntimeConfig {
    /// Returns a new config instance with default settings.
    pub fn new() -> (res: Self)
        ensures
            res.msgpack_module@ == "@msgpack/msgpack"@,
            !res.generate_raw_export_wrappers,
    {
        Self::default()
    }

    /// Sets the `msgpack_module` setting.
    pub fn with_msgpack_module(self, msgpack_module: &str) -> (res: Self)
        ensures
            res.msgpack_module@ == msgpack_module@,
            res.generate_raw_export_wrappers == self.generate_raw_export_wrappers,
    {
        let mut s = self;
        s.msgpack_module = msgpack_module.to_owned();
        s
    }

    /// Enables the `generate_raw_export_wrappers` setting.
    pub fn with_raw_export_wrappers(self) -> (res: Self)
        ensures
            res.msgpack_module == self.msgpack_module,
            res.generate_raw_export_wrappers,
    {
        let mut s = self;
        s.generate_raw_export_wrappers = true;
        s
    }

    /// The default settings: "@msgpack/msgpack", and no raw export wrappers.
    pub fn default() -> (res: Self)
        ensures
            res.msgpack_module@ == "@msgpack/msgpack"@,
            !res.generate_raw_export_wrappers,
    {
        TsExtendedRuntimeConfig { generate_raw_export_wrappers: false, msgpack_module: "@msgpack/msgpack".to_owned() }
    }
}


/// Whether a serde attribute names a custom (de)serializer.
pub open spec fn custom_serializer_attr(a: Seq<char>) -> bool {
    starts_with(a, "with = "@) || starts_with(a, "serialize_with = "@) || starts_with(a, "deserialize_with = "@)
}

/// Whether the map holds `ident` as a custom type with a custom Serde
/// (de)serializer.
pub open spec fn has_custom_serializer(ident: IdentView, types: Seq<(TypeIdent, Type)>) -> bool {
    match lookup_key(types, ident.name, ident.array) {
        Some(Type::Custom(c)) => exists|i: int| 0 <= i < c.serde_attrs@.len()
            && #[trigger] custom_serializer_attr(c.serde_attrs@[i]@),
        _ => false,
    }
}

/// Whether two identifiers have the same key: name and array length.
pub open spec fn view_same_key(a: IdentView, b: IdentView) -> bool {
    a.name == b.name && a.array == b.array
}

/// The order of the keys of identifiers: by name, then by array length.
pub open spec fn view_key_lt(a: IdentView, b: IdentView) -> bool {
    seq_lt(a.name, b.name) || (a.name == b.name && array_lt(a.array, b.array))
}

/// `x` put into `sorted` in the order of the keys of a type map, unless an
/// identifier of the same key is there already.
pub open spec fn ident_set_insert(sorted: Seq<IdentView>, x: IdentView) -> Seq<IdentView>
    decreases sorted.len(),
{
    if sorted.len() == 0 {
        seq![x]
    } else if view_same_key(x, sorted[0]) {
        sorted
    } else if view_key_lt(x, sorted[0]) {
        seq![x] + sorted
    } else {
        seq![sorted[0]] + ident_set_insert(sorted.drop_first(), x)
    }
}

/// The distinct identifiers among `idents` that have a custom serializer,
/// in the order of their keys.
pub open spec fn custom_serializer_idents(idents: Seq<IdentView>, types: Seq<(TypeIdent, Type)>) -> Seq<IdentView>
    decreases idents.len(),
{
    if idents.len() == 0 {
        Seq::empty()
    } else {
        let prev = custom_serializer_idents(idents.drop_last(), types);
        if has_custom_serializer(idents.last(), types) { ident_set_insert(prev, idents.last()) } else { prev }
    }
}

/// The views of identifiers.
pub open spec fn ident_views(v: Seq<TypeIdent>) -> Seq<IdentView> {
    v.map_values(|t: TypeIdent| t@)
}

/// The warning about a type with a custom serializer that is used directly
/// in the given context.
pub open spec fn serializer_warning(ident: Seq<char>, context: Seq<char>) -> Seq<char> {
    "WARNING: Type `"@ + ident + "` is used directly in a "@ + context
        + ", but relies on a custom Serde (de)serializer. This (de)serializer is NOT used when using the type directly in a "@
        + context
        + ". This may result in unexpected (de)serialization issues, for instance when passing data between Rust and TypeScript.\nYou may wish to create a newtype to avoid this warning.\nSee `examples/example-protocol/src/types/time.rs` for an example."@
}

/// The warnings about the identifiers with a custom serializer.
pub open spec fn serializer_warnings(idents: Seq<IdentView>, context: Seq<char>, types: Seq<(TypeIdent, Type)>) -> Seq<Seq<char>> {
    custom_serializer_idents(idents, types).map_values(|t: IdentView| serializer_warning(format_view(t, true), context))
}

fn custom_serializer(ident: &TypeIdent, types: &TypeMap) -> (res: bool)
    ensures
        res == has_custom_serializer(ident@, types@),
{
    proof {
        crate::types::type_map::lemma_lookup_key(types@, *ident);
    }
    match types.get(ident) {
        Some(Type::Custom(c)) => {
            let mut i: usize = 0;
            while i < c.serde_attrs.len()
                invariant
                    i <= c.serde_attrs@.len(),
                    lookup_key(types@, ident@.name, ident@.array) == Some(Type::Custom(*c)),
                    forall|j: int| 0 <= j < i ==> !#[trigger] custom_serializer_attr(c.serde_attrs@[j]@),
                decreases c.serde_attrs@.len() - i,
            {
                let a = c.serde_attrs[i].as_str();
                if string_starts_with(a, "with = ") || string_starts_with(a, "serialize_with = ")
                    || string_starts_with(a, "deserialize_with = ") {
                    assert(custom_serializer_attr(c.serde_attrs@[i as int]@));
                    return true;
                }
                i = i + 1;
            }
            false
        },
        _ => false,
    }
}

proof fn lemma_view_key_cases(a: IdentView, b: IdentView)
    ensures
        view_same_key(a, b) || view_key_lt(a, b) || view_key_lt(b, a),
        !(view_key_lt(a, b) && view_key_lt(b, a)),
        view_same_key(a, b) ==> !view_key_lt(a, b),
{
    crate::text::lemma_seq_lt_total(a.name, b.name);
    if seq_lt(a.name, b.name) {
        crate::text::lemma_seq_lt_asymmetric(a.name, b.name);
    }
    if seq_lt(b.name, a.name) {
        crate::text::lemma_seq_lt_asymmetric(b.name, a.name);
    }
    crate::text::lemma_seq_lt_irreflexive(a.name);
}

proof fn lemma_ident_set_insert_prefix(sorted: Seq<IdentView>, x: IdentView, i: int)
    requires
        0 <= i <= sorted.len(),
        forall|j: int| 0 <= j < i ==> view_key_lt(#[trigger] sorted[j], x),
    ensures
        ident_set_insert(sorted, x) == sorted.take(i) + ident_set_insert(sorted.skip(i), x),
    decreases i,
{
    if i > 0 {
        let rest = sorted.drop_first();
        lemma_view_key_cases(sorted[0], x);
        assert forall|j: int| 0 <= j < i - 1 implies view_key_lt(#[trigger] rest[j], x) by {
            assert(rest[j] == sorted[j + 1]);
        }
        lemma_ident_set_insert_prefix(rest, x, i - 1);
        assert(rest.skip(i - 1) =~= sorted.skip(i));
        assert(sorted.take(i) =~= seq![sorted[0]] + rest.take(i - 1));
    } else {
        assert(sorted.skip(0) =~= sorted);
    }
}

fn insert_ident(v: &mut Vec<TypeIdent>, x: &TypeIdent)
    ensures
        ident_views(final(v)@) == ident_set_insert(ident_views(old(v)@), x@),
{
    let ghost sorted = ident_views(v@);
    let mut p: usize = 0;
    while p < v.len() && crate::types::type_map::key_lt_exec(&v[p], x)
        invariant
            p <= v@.len(),
            sorted == ident_views(v@),
            forall|j: int| 0 <= j < p ==> view_key_lt(#[trigger] sorted[j], x@),
        decreases v@.len() - p,
    {
        assert(sorted[p as int] == v@[p as int]@);
        p = p + 1;
    }
    proof {
        lemma_ident_set_insert_prefix(sorted, x@, p as int);
    }
    if p < v.len() && crate::types::type_map::same_key_exec(x, &v[p]) {
        assert(sorted.skip(p as int)[0] == sorted[p as int]);
        assert(sorted[p as int] == v@[p as int]@);
        assert(sorted.take(p as int) + sorted.skip(p as int) =~= sorted);
    } else {
        proof {
            if p < sorted.len() {
                assert(sorted.skip(p as int)[0] == sorted[p as int]);
                assert(sorted[p as int] == v@[p as int]@);
                lemma_view_key_cases(x@, sorted[p as int]);
                assert(ident_set_insert(sorted.skip(p as int), x@) =~= seq![x@] + sorted.skip(p as int));
            } else {
                assert(ident_set_insert(sorted.skip(p as int), x@) =~= seq![x@]);
            }
        }
        let c = x.clone();
        v.insert(p, c);
        assert(ident_views(v@) =~= sorted.take(p as int) + (seq![x@] + sorted.skip(p as int)));
    }
}

/// The warnings about the identifiers among `idents` whose custom
/// (de)serializer is not used where they are used directly in `context`;
/// one for each key, in the order of the keys.
pub fn warn_about_custom_serializer_usage(idents: &Vec<TypeIdent>, context: &str, types: &TypeMap) -> (res: Vec<String>)
    ensures
        str_views(res@) == serializer_warnings(ident_views(idents@), context@, types@),
{
    let mut found: Vec<TypeIdent> = Vec::new();
    let mut i: usize = 0;
    while i < idents.len()
        invariant
            i <= idents@.len(),
            ident_views(found@) == custom_serializer_idents(ident_views(idents@).take(i as int), types@),
        decreases idents@.len() - i,
    {
        proof {
            let t = ident_views(idents@).take(i as int + 1);
            assert(t.drop_last() =~= ident_views(idents@).take(i as int));
            assert(t.last() == idents@[i as int]@);
        }
        if custom_serializer(&idents[i], types) {
            insert_ident(&mut found, &idents[i]);
        }
        i = i + 1;
    }
    assert(ident_views(idents@).take(idents@.len() as int) =~= ident_views(idents@));
    let mut res: Vec<String> = Vec::new();
    let mut k: usize = 0;
    let ghost target = custom_serializer_idents(ident_views(idents@), types@);
    while k < found.len()
        invariant
            k <= found@.len(),
            target == custom_serializer_idents(ident_views(idents@), types@),
            ident_views(found@) == target,
            str_views(res@) == target.take(k as int).map_values(|t: IdentView| serializer_warning(format_view(t, true), context@)),
        decreases found@.len() - k,
    {
        let mut s = "WARNING: Type `".to_owned();
        let ident = found[k].format(true);
        s.append(ident.as_str());
        s.append("` is used directly in a ");
        s.append(context);
        s.append(", but relies on a custom Serde (de)serializer. This (de)serializer is NOT used when using the type directly in a ");
        s.append(context);
        s.append(". This may result in unexpected (de)serialization issues, for instance when passing data between Rust and TypeScript.\nYou may wish to create a newtype to avoid this warning.\nSee `examples/example-protocol/src/types/time.rs` for an example.");
        assert(found@[k as int]@ == target[k as int]);
        let ghost before = res@;
        res.push(s);
        assert(str_views(res@) =~= str_views(before).push(s@));
        assert(target.take(k as int + 1).map_values(|t: IdentView| serializer_warning(format_view(t, true), context@))
            =~= target.take(k as int).map_values(|t: IdentView| serializer_warning(format_view(t, true), context@)).push(s@));
        k = k + 1;
    }
    assert(target.take(target.len() as int) =~= target);
    res
}


/// The identifiers in the signature of a function: its arguments' types,
/// then its return type.
pub open spec fn function_signature_views(f: Function) -> Seq<IdentView> {
    f.args@.map_values(|a: FunctionArg| a.ty@) + match f.return_type {
        Some(t) => seq![t@],
        None => Seq::empty(),
    }
}

/// The identifiers in the signatures of the functions, in order.
pub open spec fn signature_views(functions: Seq<Function>) -> Seq<IdentView>
    decreases functions.len(),
{
    if functions.len() == 0 {
        Seq::empty()
    } else {
        signature_views(functions.drop_last()) + function_signature_views(functions.last())
    }
}

/// The types of the fields.
pub open spec fn field_views(fields: Seq<Field>) -> Seq<IdentView> {
    fields.map_values(|f: Field| f.ty@)
}

/// The types of the fields of the structs among `values`.
pub open spec fn struct_field_views(values: Seq<Type>) -> Seq<IdentView>
    decreases values.len(),
{
    if values.len() == 0 {
        Seq::empty()
    } else {
        struct_field_views(values.drop_last()) + match values.last() {
            Type::Struct(s) => field_views(s.fields@),
            _ => Seq::empty(),
        }
    }
}

/// The types of the fields of the struct variants among `variants`.
pub open spec fn variant_field_views(variants: Seq<Variant>) -> Seq<IdentView>
    decreases variants.len(),
{
    if variants.len() == 0 {
        Seq::empty()
    } else {
        variant_field_views(variants.drop_last()) + match variants.last().ty {
            Type::Struct(s) => field_views(s.fields@),
            _ => Seq::empty(),
        }
    }
}

/// The types of the fields of the struct variants of the enums among
/// `values`.
pub open spec fn enum_field_views(values: Seq<Type>) -> Seq<IdentView>
    decreases values.len(),
{
    if values.len() == 0 {
        Seq::empty()
    } else {
        enum_field_views(values.drop_last()) + match values.last() {
            Type::Enum(e) => variant_field_views(e.variants@),
            _ => Seq::empty(),
        }
    }
}

/// The generic arguments of the identifiers, in order.
pub open spec fn generic_arg_views(idents: Seq<IdentView>) -> Seq<IdentView>
    decreases idents.len(),
{
    if idents.len() == 0 {
        Seq::empty()
    } else {
        generic_arg_views(idents.drop_last())
            + idents.last().generic_args.map_values(|a: (IdentView, Seq<Seq<char>>)| a.0)
    }
}

/// The warnings about types with a custom serializer that are used directly
/// in a function signature, then those about such types used as a generic
/// argument (in a signature, a struct field or a field of an enum variant).
pub open spec fn warnings_text(imports: Seq<Function>, exports: Seq<Function>, types: Seq<(TypeIdent, Type)>) -> Seq<Seq<char>> {
    let signatures = signature_views(imports + exports);
    let values = types.map_values(|e: (TypeIdent, Type)| e.1);
    let all = signatures + struct_field_views(values) + enum_field_views(values);
    serializer_warnings(signatures, "function signature"@, types)
        + serializer_warnings(generic_arg_views(all), "generic argument"@, types)
}

fn push_idents_of_fields(out: &mut Vec<TypeIdent>, fields: &Vec<Field>)
    ensures
        ident_views(final(out)@) == ident_views(old(out)@) + field_views(fields@),
{
    let ghost start = ident_views(out@);
    let mut i: usize = 0;
    while i < fields.len()
        invariant
            i <= fields@.len(),
            ident_views(out@) == start + field_views(fields@.take(i as int)),
        decreases fields@.len() - i,
    {
        let c = fields[i].ty.clone();
        let ghost before = out@;
        out.push(c);
        assert(ident_views(out@) =~= ident_views(before).push(c@));
        assert(field_views(fields@.take(i as int + 1)) =~= field_views(fields@.take(i as int)).push(fields@[i as int].ty@));
        i = i + 1;
    }
    assert(fields@.take(fields@.len() as int) =~= fields@);
}

fn push_signature_idents(out: &mut Vec<TypeIdent>, f: &Function)
    ensures
        ident_views(final(out)@) == ident_views(old(out)@) + function_signature_views(*f),
{
    let ghost start = ident_views(out@);
    let mut i: usize = 0;
    while i < f.args.len()
        invariant
            i <= f.args@.len(),
            ident_views(out@) == start + f.args@.take(i as int).map_values(|a: FunctionArg| a.ty@),
        decreases f.args@.len() - i,
    {
        let c = f.args[i].ty.clone();
        let ghost before = out@;
        out.push(c);
        assert(ident_views(out@) =~= ident_views(before).push(c@));
        assert(f.args@.take(i as int + 1).map_values(|a: FunctionArg| a.ty@)
            =~= f.args@.take(i as int).map_values(|a: FunctionArg| a.ty@).push(f.args@[i as int].ty@));
        i = i + 1;
    }
    assert(f.args@.take(f.args@.len() as int) =~= f.args@);
    let ghost mid = ident_views(out@);
    match &f.return_type {
        Some(t) => {
            let c = t.clone();
            let ghost before = out@;
            out.push(c);
            assert(ident_views(out@) =~= ident_views(before).push(c@));
            assert(ident_views(out@) =~= start + function_signature_views(*f));
        },
        None => {
            assert(ident_views(out@) =~= start + function_signature_views(*f));
        },
    }
}

fn push_signatures(out: &mut Vec<TypeIdent>, functions: &FunctionList)
    ensures
        ident_views(final(out)@) == ident_views(old(out)@) + signature_views(functions@),
{
    let list = functions.iter();
    let ghost start = ident_views(out@);
    let mut i: usize = 0;
    assert(list@.take(0) =~= Seq::<Function>::empty());
    while i < list.len()
        invariant
            i <= list@.len(),
            list@ == functions@,
            ident_views(out@) == start + signature_views(list@.take(i as int)),
        decreases list@.len() - i,
    {
        push_signature_idents(out, &list[i]);
        proof {
            let t = list@.take(i as int + 1);
            assert(t.drop_last() =~= list@.take(i as int));
            assert(t.last() == list@[i as int]);
        }
        i = i + 1;
    }
    assert(list@.take(list@.len() as int) =~= list@);
}

proof fn lemma_signature_views_append(a: Seq<Function>, b: Seq<Function>)
    ensures
        signature_views(a + b) == signature_views(a) + signature_views(b),
    decreases b.len(),
{
    if b.len() == 0 {
        assert(a + b =~= a);
    } else {
        lemma_signature_views_append(a, b.drop_last());
        assert((a + b).drop_last() =~= a + b.drop_last());
        assert((a + b).last() == b.last());
    }
}

/// The warnings about types with a custom Serde (de)serializer that is not
/// used where they stand directly in a function signature, or as a generic
/// argument.
pub fn display_warnings(import_functions: &FunctionList, export_functions: &FunctionList, types: &TypeMap) -> (res: Vec<String>)
    ensures
        str_views(res@) == warnings_text(import_functions@, export_functions@, types@),
{
    let mut signatures: Vec<TypeIdent> = Vec::new();
    assert(ident_views(signatures@) =~= Seq::<IdentView>::empty());
    push_signatures(&mut signatures, import_functions);
    push_signatures(&mut signatures, export_functions);
    proof {
        lemma_signature_views_append(import_functions@, export_functions@);
    }
    let mut res = warn_about_custom_serializer_usage(&signatures, "function signature", types);
    let ghost values = types@.map_values(|e: (TypeIdent, Type)| e.1);
    let mut all: Vec<TypeIdent> = Vec::new();
    let mut k: usize = 0;
    while k < signatures.len()
        invariant
            k <= signatures@.len(),
            ident_views(all@) == ident_views(signatures@).take(k as int),
        decreases signatures@.len() - k,
    {
        let c = signatures[k].clone();
        let ghost before = all@;
        all.push(c);
        assert(ident_views(all@) =~= ident_views(before).push(c@));
        assert(ident_views(signatures@).take(k as int + 1) =~= ident_views(signatures@).take(k as int).push(signatures@[k as int]@));
        k = k + 1;
    }
    assert(ident_views(signatures@).take(signatures@.len() as int) =~= ident_views(signatures@));
    let ghost sig = ident_views(all@);
    let mut i: usize = 0;
    assert(values.take(0) =~= Seq::<Type>::empty());
    while i < types.len()
        invariant
            i <= types@.len(),
            values == types@.map_values(|e: (TypeIdent, Type)| e.1),
            ident_views(all@) == sig + struct_field_views(values.take(i as int)),
        decreases types@.len() - i,
    {
        let (_, ty) = types.entry_at(i);
        proof {
            let t = values.take(i as int + 1);
            assert(t.drop_last() =~= values.take(i as int));
            assert(t.last() == values[i as int]);
        }
        match ty {
            Type::Struct(s) => push_idents_of_fields(&mut all, &s.fields),
            _ => {
                assert(ident_views(all@) =~= ident_views(all@) + Seq::<IdentView>::empty());
            },
        }
        i = i + 1;
    }
    assert(values.take(values.len() as int) =~= values);
    let ghost with_structs = ident_views(all@);
    let mut i: usize = 0;
    while i < types.len()
        invariant
            i <= types@.len(),
            values == types@.map_values(|e: (TypeIdent, Type)| e.1),
            ident_views(all@) == with_structs + enum_field_views(values.take(i as int)),
        decreases types@.len() - i,
    {
        let (_, ty) = types.entry_at(i);
        proof {
            let t = values.take(i as int + 1);
            assert(t.drop_last() =~= values.take(i as int));
            assert(t.last() == values[i as int]);
        }
        match ty {
            Type::Enum(e) => {
                let ghost before = ident_views(all@);
                let mut j: usize = 0;
                assert(e.variants@.take(0) =~= Seq::<Variant>::empty());
                while j < e.variants.len()
                    invariant
                        j <= e.variants@.len(),
                        ident_views(all@) == before + variant_field_views(e.variants@.take(j as int)),
                    decreases e.variants@.len() - j,
                {
                    proof {
                        let t = e.variants@.take(j as int + 1);
                        assert(t.drop_last() =~= e.variants@.take(j as int));
                        assert(t.last() == e.variants@[j as int]);
                    }
                    match &e.variants[j].ty {
                        Type::Struct(s) => push_idents_of_fields(&mut all, &s.fields),
                        _ => {
                            assert(ident_views(all@) =~= ident_views(all@) + Seq::<IdentView>::empty());
                        },
                    }
                    j = j + 1;
                }
                assert(e.variants@.take(e.variants@.len() as int) =~= e.variants@);
            },
            _ => {
                assert(ident_views(all@) =~= ident_views(all@) + Seq::<IdentView>::empty());
            },
        }
        i = i + 1;
    }
    assert(values.take(values.len() as int) =~= values);
    let mut args: Vec<TypeIdent> = Vec::new();
    let mut k: usize = 0;
    let ghost allv = ident_views(all@);
    assert(allv.take(0) =~= Seq::<IdentView>::empty());
    while k < all.len()
        invariant
            k <= all@.len(),
            allv == ident_views(all@),
            ident_views(args@) == generic_arg_views(allv.take(k as int)),
        decreases all@.len() - k,
    {
        let t = &all[k];
        let ghost before = ident_views(args@);
        proof {
            crate::types::type_ident::lemma_args_view(t.generic_args@);
        }
        let mut j: usize = 0;
        while j < t.generic_args.len()
            invariant
                j <= t.generic_args@.len(),
                ident_views(args@) == before + t@.generic_args.take(j as int).map_values(|a: (IdentView, Seq<Seq<char>>)| a.0),
                t@.generic_args.len() == t.generic_args@.len(),
                forall|m: int| 0 <= m < t.generic_args@.len() ==> #[trigger] t@.generic_args[m].0 == t.generic_args@[m].0@,
            decreases t.generic_args@.len() - j,
        {
            let c = t.generic_args[j].0.clone();
            let ghost prev = args@;
            args.push(c);
            assert(ident_views(args@) =~= ident_views(prev).push(c@));
            assert(t@.generic_args.take(j as int + 1).map_values(|a: (IdentView, Seq<Seq<char>>)| a.0)
                =~= t@.generic_args.take(j as int).map_values(|a: (IdentView, Seq<Seq<char>>)| a.0).push(t@.generic_args[j as int].0));
            j = j + 1;
        }
        assert(t@.generic_args.take(t@.generic_args.len() as int) =~= t@.generic_args);
        proof {
            let s = allv.take(k as int + 1);
            assert(s.drop_last() =~= allv.take(k as int));
            assert(s.last() == t@);
        }
        k = k + 1;
    }
    assert(allv.take(allv.len() as int) =~= allv);
    let mut more = warn_about_custom_serializer_usage(&args, "generic argument", types);
    let ghost first = res@;
    let ghost second = more@;
    res.append(&mut more);
    assert(str_views(res@) =~= str_views(first) + str_views(second));
    res
}


/// The kind of bindings to generate, with its settings.
#[derive(Debug)]
pub enum BindingsType {
    RustPlugin(RustPluginConfig),
    RustWasmerRuntime,
    RustWasmerWasiRuntime,
    TsRuntimeWithExtendedConfig(TsExtendedRuntimeConfig),
}

/// The name of a kind of bindings.
pub open spec fn bindings_name(t: BindingsType) -> Seq<char> {
    match t {
        BindingsType::RustPlugin(_) => "rust-plugin"@,
        BindingsType::RustWasmerRuntime => "rust-wasmer-runtime"@,
        BindingsType::RustWasmerWasiRuntime => "rust-wasmer-wasi-runtime"@,
        BindingsType::TsRuntimeWithExtendedConfig(_) => "ts-runtime"@,
    }
}

impl BindingsType {
    /// The name of the kind of bindings.
    pub fn to_string(&self) -> (res: String)
        ensures
            res@ == bindings_name(*self),
    {
        match self {
            BindingsType::RustPlugin(_) => "rust-plugin".to_owned(),
            BindingsType::RustWasmerRuntime => "rust-wasmer-runtime".to_owned(),
            BindingsType::RustWasmerWasiRuntime => "rust-wasmer-wasi-runtime".to_owned(),
            BindingsType::TsRuntimeWithExtendedConfig(_) => "ts-runtime".to_owned(),
        }
    }
}

/// What to generate, and where.
#[derive(Debug)]
pub struct BindingConfig {
    pub bindings_type: BindingsType,
    pub path: String,
}

/// Whether the generator of the given kind can write the bindings for the
/// functions and types.
pub open spec fn bindings_formattable(t: BindingsType, imports: Seq<Function>, exports: Seq<Function>, types: Seq<(TypeIdent, Type)>) -> bool {
    match t {
        BindingsType::RustPlugin(config) => {
            &&& rust_plugin::cargo_inputs_wf(types, config)
            &&& rust_plugin::types_formattable(types)
            &&& rust_plugin::functions_formattable(imports, types)
            &&& rust_plugin::functions_formattable(exports, types)
        },
        BindingsType::TsRuntimeWithExtendedConfig(_) => {
            &&& ts_runtime::ts_types_formattable(types)
            &&& ts_runtime::ts_runtime_formattable(imports, exports, types)
        },
        BindingsType::RustWasmerRuntime | BindingsType::RustWasmerWasiRuntime => rust_plugin::types_formattable(types),
    }
}

/// What a generator produces: the files of a plugin or a TypeScript
/// runtime (paths relative to the output directory), or the parts of a
/// Wasmer runtime, whose code is built from token streams.
#[derive(Debug)]
pub enum GeneratedBindings {
    Files(Vec<(String, String)>),
    Wasmer(rust_wasmer_runtime::WasmerBindings),
}

/// The warnings, and the bindings of the given kind: the files of a plugin
/// or a TypeScript runtime, or the parts of a Wasmer runtime (with or
/// without WASI, which only differ in how the runtime is set up).
pub fn generate_bindings(
    import_functions: &FunctionList,
    export_functions: &FunctionList,
    types: &TypeMap,
    bindings_type: &BindingsType,
    support_version: &'static str,
) -> (res: (Vec<String>, GeneratedBindings))
    requires
        bindings_formattable(*bindings_type, import_functions@, export_functions@, types@),
    ensures
        str_views(res.0@) == warnings_text(import_functions@, export_functions@, types@),
        match *bindings_type {
            BindingsType::RustPlugin(_) | BindingsType::TsRuntimeWithExtendedConfig(_) => res.1 is Files,
            _ => res.1 is Wasmer,
        },
        match *bindings_type {
            BindingsType::TsRuntimeWithExtendedConfig(config) => res.1 matches GeneratedBindings::Files(files) && {
                &&& files@.len() == 2
                &&& files@[0].0@ == "types.ts"@
                &&& files@[0].1@ == ts_runtime::ts_types_file(types@)
                &&& files@[1].0@ == "index.ts"@
                &&& files@[1].1@ == ts_runtime::ts_index_file(import_functions@, export_functions@, types@, config.generate_raw_export_wrappers, config.msgpack_module@)
            },
            BindingsType::RustPlugin(config) => res.1 matches GeneratedBindings::Files(files) && {
                &&& files@.len() == 5
                &&& files@[0].0@ == "Cargo.toml"@
                &&& exists|start: Seq<(&'static str, CargoDependency)>, end: Seq<(&'static str, CargoDependency)>| {
                    &&& rust_plugin::base_dependencies(start, rust_plugin::any_async_fn(import_functions@), support_version@)
                    &&& rust_plugin::dep_upserts(start, rust_plugin::custom_dependencies(map_values(types@)) + config.dependencies@, end)
                    &&& files@[0].1@ == rust_plugin::cargo_text(config, end)
                }
                &&& files@[1].0@ == "src/types.rs"@
                &&& files@[1].1@ == rust_plugin::rs_types_file(types@)
                &&& files@[2].0@ == "src/import.rs"@
                &&& files@[2].1@ == rust_plugin::rs_import_file(import_functions@, types@)
                &&& files@[3].0@ == "src/export.rs"@
                &&& files@[3].1@ == rust_plugin::rs_export_file(export_functions@, types@)
                &&& files@[4].0@ == "src/lib.rs"@
                &&& files@[4].1@ == rust_plugin::PLUGIN_LIB@
            },
            _ => res.1 matches GeneratedBindings::Wasmer(w) && {
                &&& w.types_file@ == rust_plugin::rs_types_file(types@)
                &&& w.exports@.len() == export_functions@.len()
                &&& forall|i: int| 0 <= i < export_functions@.len()
                    ==> rust_wasmer_runtime::export_call_of(#[trigger] w.exports@[i], export_functions@[i])
                &&& w.imports@.len() == import_functions@.len()
                &&& forall|i: int| 0 <= i < import_functions@.len()
                    ==> rust_wasmer_runtime::import_wrapper_of(#[trigger] w.imports@[i], import_functions@[i])
            },
        },
{
    let warnings = display_warnings(import_functions, export_functions, types);
    let files = match bindings_type {
        BindingsType::RustPlugin(config) => GeneratedBindings::Files(rust_plugin::generate_bindings(
            import_functions, export_functions, types, config, support_version)),
        BindingsType::TsRuntimeWithExtendedConfig(config) => GeneratedBindings::Files(ts_runtime::generate_bindings(
            import_functions, export_functions, types, config)),
        BindingsType::RustWasmerRuntime | BindingsType::RustWasmerWasiRuntime => GeneratedBindings::Wasmer(
            rust_wasmer_runtime::generate_bindings(import_functions, export_functions, types)),
    };
    (warnings, files)
}


/// Whether the bindings of the given type are written for the functions
/// and types with every identifier written within `fuel` unfoldings of the
/// map of types.
pub open spec fn bindings_within(
    t: BindingsType,
    imports: Seq<Function>,
    exports: Seq<Function>,
    types: Seq<(TypeIdent, Type)>,
    fuel: nat,
) -> bool {
    match t {
        BindingsType::RustPlugin(config) => rust_plugin::plugin_within(imports, exports, types, config, fuel),
        BindingsType::TsRuntimeWithExtendedConfig(_) => ts_runtime::ts_runtime_within(imports, exports, types, fuel),
        BindingsType::RustWasmerRuntime | BindingsType::RustWasmerWasiRuntime =>
            forall|i: int| 0 <= i < types.len() ==> rust_plugin::type_def_within(#[trigger] types[i].1, types, fuel),
    }
}

/// Whether the bindings of the given type can be written for the
/// functions and types, with every identifier written within `fuel`
/// unfoldings of the map of types.
pub fn bindings_writable(
    bindings_type: &BindingsType,
    import_functions: &FunctionList,
    export_functions: &FunctionList,
    types: &TypeMap,
    fuel: u64,
) -> (res: bool)
    ensures
        res == bindings_within(*bindings_type, import_functions@, export_functions@, types@, fuel as nat),
        res ==> bindings_formattable(*bindings_type, import_functions@, export_functions@, types@),
{
    match bindings_type {
        BindingsType::RustPlugin(config) => rust_plugin::plugin_writable(import_functions, export_functions, types, config, fuel),
        BindingsType::TsRuntimeWithExtendedConfig(_) => ts_runtime::runtime_writable(import_functions, export_functions, types, fuel),
        BindingsType::RustWasmerRuntime | BindingsType::RustWasmerWasiRuntime => rust_plugin::types_writable(types, fuel),
    }
}

} // verus!
