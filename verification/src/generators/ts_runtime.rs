use vstd::prelude::*;
use crate::casing::{camel_case_of, cased, Casing};
use crate::functions::{names_ascending, Function, FunctionArg, FunctionList};
use crate::primitives::{primitive_from_name, Primitive};
use crate::text::{concat, concat_strings, join, join_strings, starts_with, str_eq, str_views, string_starts_with};
use crate::text::{split_char, split_string, trim_end, trim_end_char, trim_end_string, trim_start_char, trim_start_string};
use crate::types::attrs::opt_view;
use crate::text::somes;
use crate::types::type_ident::{format_view, TypeIdent};
use crate::types::type_map::lookup;
use crate::types::{Enum, EnumOptions, Field, Struct, Type, TypeMap, Variant};

verus! {

/// The TypeScript type of a primitive.
pub open spec fn ts_primitive(p: Primitive) -> Seq<char> {
    match p {
        Primitive::Bool => "boolean"@,
        Primitive::I64 => "bigint"@,
        Primitive::U64 => "bigint"@,
        _ => "number"@,
    }
}

/// The TypeScript type of a primitive.
pub fn format_primitive(primitive: Primitive) -> (res: &'static str)
    ensures
        res@ == ts_primitive(primitive),
{
    match primitive {
        Primitive::Bool => "boolean",
        Primitive::F32 => "number",
        Primitive::F64 => "number",
        Primitive::I8 => "number",
        Primitive::I16 => "number",
        Primitive::I32 => "number",
        Primitive::I64 => "bigint",
        Primitive::U8 => "number",
        Primitive::U16 => "number",
        Primitive::U32 => "number",
        Primitive::U64 => "bigint",
    }
}

/// How the TypeScript runtime writes `ident`, unfolding the map at most
/// `fuel` times; `None` where that is not enough, or where the generator
/// would panic for want of a generic argument.
pub open spec fn ts_ident(ident: TypeIdent, types: Seq<(TypeIdent, Type)>, fuel: nat) -> Option<Seq<char>>
    decreases fuel, 0nat, 0nat,
{
    if fuel == 0 {
        None
    } else {
        match lookup(types, ident) {
            Some(ty) => ts_type_with_ident(ty, ident, types, (fuel - 1) as nat),
            None => Some(format_view(ident@, true)),
        }
    }
}

/// How the TypeScript runtime writes the identifiers `items`.
pub open spec fn ts_idents(items: Seq<TypeIdent>, types: Seq<(TypeIdent, Type)>, fuel: nat) -> Option<Seq<Seq<char>>>
    decreases fuel, 1nat, items.len(),
{
    if items.len() == 0 {
        Some(Seq::empty())
    } else {
        match (ts_idents(items.drop_last(), types, fuel), ts_ident(items.last(), types, fuel)) {
            (Some(prev), Some(t)) => Some(prev.push(t)),
            _ => None,
        }
    }
}

/// The identifiers of generic arguments.
pub open spec fn arg_idents(args: Seq<(TypeIdent, Vec<String>)>) -> Seq<TypeIdent> {
    args.map_values(|a: (TypeIdent, Vec<String>)| a.0)
}

/// How the TypeScript runtime writes `ident`, which the map holds as `ty`.
pub open spec fn ts_type_with_ident(ty: Type, ident: TypeIdent, types: Seq<(TypeIdent, Type)>, fuel: nat) -> Option<Seq<char>>
    decreases fuel, 2nat, 0nat,
{
    let args = arg_idents(ident.generic_args@);
    match ty {
        Type::Alias(name, _) => Some(name@),
        Type::Container(name, _) => if args.len() == 0 {
            None
        } else {
            match ts_idents(args.take(1), types, fuel) {
                Some(t) => Some(if name@ == "Option"@ { t[0] + " | null"@ } else { t[0] }),
                None => None,
            }
        },
        Type::Custom(custom) => Some(custom.ts_ty@),
        Type::Enum(_) | Type::Struct(_) => match ts_idents(args, types, fuel) {
            Some(t) => Some(if t.len() == 0 { ident.name@ } else { ident.name@ + "<"@ + join(t, ", "@) + ">"@ }),
            None => None,
        },
        Type::List(_, _) => if args.len() == 0 {
            None
        } else {
            match ts_idents(args.take(1), types, fuel) {
                Some(t) => Some("Array<"@ + t[0] + ">"@),
                None => None,
            }
        },
        Type::Mapping(_, _, _) => if args.len() < 2 {
            None
        } else {
            match ts_idents(args.take(2), types, fuel) {
                Some(t) => Some("Record<"@ + t[0] + ", "@ + t[1] + ">"@),
                None => None,
            }
        },
        Type::Primitive(p) => Some(ts_primitive(p)),
        Type::String => Some("string"@),
        Type::Tuple(items) => match ts_idents(items@, types, fuel) {
            Some(t) => Some("["@ + join(t, ", "@) + "]"@),
            None => None,
        },
        Type::Unit => Some("void"@),
    }
}

/// How the TypeScript runtime writes `ident`, where some number of
/// unfoldings of the map is enough; `None` where none is.
pub open spec fn ts_ident_text(ident: TypeIdent, types: Seq<(TypeIdent, Type)>) -> Option<Seq<char>> {
    if exists|f: nat| #[trigger] ts_ident(ident, types, f) is Some {
        ts_ident(ident, types, choose|f: nat| #[trigger] ts_ident(ident, types, f) is Some)
    } else {
        None
    }
}

proof fn lemma_ts_idents_prefix(items: Seq<TypeIdent>, types: Seq<(TypeIdent, Type)>, fuel: nat, i: int)
    requires
        ts_idents(items, types, fuel) is Some,
        0 <= i <= items.len(),
    ensures
        ts_idents(items.take(i), types, fuel) is Some,
        i < items.len() ==> ts_ident(items[i], types, fuel) is Some,
        i < items.len() ==> ts_idents(items.take(i + 1), types, fuel) == Some(
            ts_idents(items.take(i), types, fuel).unwrap().push(ts_ident(items[i], types, fuel).unwrap())),
    decreases items.len() - i,
{
    if i < items.len() {
        lemma_ts_idents_prefix(items, types, fuel, i + 1);
        let t = items.take(i + 1);
        assert(t.drop_last() =~= items.take(i));
        assert(t.last() == items[i]);
    } else {
        assert(items.take(i) =~= items);
    }
}

/// Formats `ident` so it is valid TypeScript.
pub fn format_ident(ident: &TypeIdent, types: &TypeMap) -> (res: String)
    requires
        ts_ident_text(*ident, types@) is Some,
    ensures
        Some(res@) == ts_ident_text(*ident, types@),
{
    let ghost f = choose|f: nat| #[trigger] ts_ident(*ident, types@, f) is Some;
    format_ident_fuel(ident, types, Ghost(f))
}

fn format_ident_fuel(ident: &TypeIdent, types: &TypeMap, Ghost(fuel): Ghost<nat>) -> (res: String)
    requires
        ts_ident(*ident, types@, fuel) is Some,
    ensures
        Some(res@) == ts_ident(*ident, types@, fuel),
    decreases fuel, 0nat, 0nat,
{
    match types.get(ident) {
        Some(ty) => format_type_with_ident(ty, ident, types, Ghost((fuel - 1) as nat)),
        None => ident.to_string(),
    }
}

/// Formats the first `n` generic arguments of `ident`.
fn format_arg_prefix(ident: &TypeIdent, n: usize, types: &TypeMap, Ghost(fuel): Ghost<nat>) -> (res: Vec<String>)
    requires
        n <= ident.generic_args@.len(),
        ts_idents(arg_idents(ident.generic_args@).take(n as int), types@, fuel) is Some,
    ensures
        Some(str_views(res@)) == ts_idents(arg_idents(ident.generic_args@).take(n as int), types@, fuel),
        res@.len() == n,
    decreases fuel, 1nat, n,
{
    let ghost items = arg_idents(ident.generic_args@).take(n as int);
    let mut res: Vec<String> = Vec::new();
    let mut i: usize = 0;
    assert(items.take(0) =~= Seq::<TypeIdent>::empty());
    while i < n
        invariant
            i <= n <= ident.generic_args@.len(),
            items == arg_idents(ident.generic_args@).take(n as int),
            ts_idents(items, types@, fuel) is Some,
            Some(str_views(res@)) == ts_idents(items.take(i as int), types@, fuel),
            res@.len() == i,
        decreases n - i,
    {
        proof {
            lemma_ts_idents_prefix(items, types@, fuel, i as int);
        }
        assert(items[i as int] == ident.generic_args@[i as int].0);
        let text = format_ident_fuel(&ident.generic_args[i].0, types, Ghost(fuel));
        let ghost before = res@;
        res.push(text);
        assert(str_views(res@) =~= str_views(before).push(text@));
        i = i + 1;
    }
    assert(items.take(n as int) =~= items);
    res
}

fn format_type_with_ident(ty: &Type, ident: &TypeIdent, types: &TypeMap, Ghost(fuel): Ghost<nat>) -> (res: String)
    requires
        ts_type_with_ident(*ty, *ident, types@, fuel) is Some,
    ensures
        Some(res@) == ts_type_with_ident(*ty, *ident, types@, fuel),
    decreases fuel, 2nat, 0nat,
{
    let ghost args = arg_idents(ident.generic_args@);
    assert(args.len() == ident.generic_args@.len());
    match ty {
        Type::Alias(name, _) => name.clone(),
        Type::Container(name, _) => {
            let t = format_arg_prefix(ident, 1, types, Ghost(fuel));
            let mut s = t[0].clone();
            if str_eq(name.as_str(), "Option") {
                s.append(" | null");
            }
            s
        },
        Type::Custom(custom) => custom.ts_ty.clone(),
        Type::Enum(_) | Type::Struct(_) => {
            assert(args.take(args.len() as int) =~= args);
            let t = format_arg_prefix(ident, ident.generic_args.len(), types, Ghost(fuel));
            if t.len() == 0 {
                ident.name.clone()
            } else {
                let mut s = ident.name.clone();
                s.append("<");
                let joined = join_strings(&t, ", ");
                s.append(joined.as_str());
                s.append(">");
                s
            }
        },
        Type::List(_, _) => {
            let t = format_arg_prefix(ident, 1, types, Ghost(fuel));
            let mut s = "Array<".to_owned();
            s.append(t[0].as_str());
            s.append(">");
            s
        },
        Type::Mapping(_, _, _) => {
            let t = format_arg_prefix(ident, 2, types, Ghost(fuel));
            let mut s = "Record<".to_owned();
            s.append(t[0].as_str());
            s.append(", ");
            s.append(t[1].as_str());
            s.append(">");
            s
        },
        Type::Primitive(p) => format_primitive(*p).to_owned(),
        Type::String => "string".to_owned(),
        Type::Tuple(items) => {
            let mut texts: Vec<String> = Vec::new();
            let mut i: usize = 0;
            assert(items@.take(0) =~= Seq::<TypeIdent>::empty());
            while i < items.len()
                invariant
                    i <= items@.len(),
                    ts_idents(items@, types@, fuel) is Some,
                    Some(str_views(texts@)) == ts_idents(items@.take(i as int), types@, fuel),
                decreases items@.len() - i,
            {
                proof {
                    lemma_ts_idents_prefix(items@, types@, fuel, i as int);
                }
                let text = format_ident_fuel(&items[i], types, Ghost(fuel));
                let ghost before = texts@;
                texts.push(text);
                assert(str_views(texts@) =~= str_views(before).push(text@));
                i = i + 1;
            }
            assert(items@.take(items@.len() as int) =~= items@);
            let joined = join_strings(&texts, ", ");
            let mut res = "[".to_owned();
            res.append(joined.as_str());
            res.append("]");
            res
        },
        Type::Unit => "void".to_owned(),
    }
}


/// Each line between `before` and `after`, but the empty ones.
pub open spec fn ts_line(before: Seq<char>, line: Seq<char>, after: Seq<char>) -> Seq<char> {
    if line.len() == 0 { line } else { before + line + after }
}

/// The lines, each formatted unless empty, one per line; nothing where
/// that text is empty.
pub open spec fn join_lines_text(lines: Seq<Seq<char>>, before: Seq<char>, after: Seq<char>) -> Seq<char> {
    let joined = join(lines.map_values(|l: Seq<char>| ts_line(before, l, after)), "\n"@);
    if joined.len() == 0 { joined } else { joined + "\n"@ }
}

/// Joins `lines`, putting `before` and `after` around each that is not
/// empty, and ends the text with a new line unless it is empty.
pub fn join_lines(lines: &Vec<String>, before: &str, after: &str) -> (res: String)
    ensures
        res@ == join_lines_text(str_views(lines@), before@, after@),
{
    let mut formatted: Vec<String> = Vec::new();
    let mut i: usize = 0;
    let ghost f = |l: Seq<char>| ts_line(before@, l, after@);
    while i < lines.len()
        invariant
            i <= lines@.len(),
            f == (|l: Seq<char>| ts_line(before@, l, after@)),
            str_views(formatted@) == str_views(lines@).take(i as int).map_values(f),
        decreases lines@.len() - i,
    {
        let line = if lines[i].unicode_len() == 0 {
            lines[i].clone()
        } else {
            let mut l = before.to_owned();
            l.append(lines[i].as_str());
            l.append(after);
            l
        };
        assert(line@ == ts_line(before@, lines@[i as int]@, after@));
        let ghost prev = formatted@;
        formatted.push(line);
        assert(str_views(formatted@) =~= str_views(prev).push(line@));
        assert(str_views(lines@).take(i as int + 1).map_values(f) =~= str_views(lines@).take(i as int).map_values(f).push(line@));
        i = i + 1;
    }
    assert(str_views(lines@).take(lines@.len() as int) =~= str_views(lines@));
    let mut joined = join_strings(&formatted, "\n");
    if joined.unicode_len() > 0 {
        joined.append("\n");
    }
    joined
}

/// The lines of a TypeScript doc comment; none without doc lines.
pub open spec fn ts_docs(doc_lines: Seq<Seq<char>>) -> Seq<Seq<char>> {
    if doc_lines.len() == 0 {
        Seq::empty()
    } else {
        seq!["/**"@] + doc_lines.map_values(|l: Seq<char>| " *"@ + l) + seq![" */"@]
    }
}

/// Formats doc lines as the lines of a TypeScript doc comment.
pub fn format_docs(doc_lines: &Vec<String>) -> (res: Vec<String>)
    ensures
        str_views(res@) == ts_docs(str_views(doc_lines@)),
{
    if doc_lines.len() == 0 {
        return Vec::new();
    }
    let mut res: Vec<String> = Vec::new();
    res.push("/**".to_owned());
    let mut i: usize = 0;
    let ghost f = |l: Seq<char>| " *"@ + l;
    while i < doc_lines.len()
        invariant
            i <= doc_lines@.len(),
            f == (|l: Seq<char>| " *"@ + l),
            str_views(res@) == seq!["/**"@] + str_views(doc_lines@).take(i as int).map_values(f),
        decreases doc_lines@.len() - i,
    {
        let mut line = " *".to_owned();
        line.append(doc_lines[i].as_str());
        let ghost prev = res@;
        res.push(line);
        assert(str_views(res@) =~= str_views(prev).push(line@));
        assert(str_views(doc_lines@).take(i as int + 1).map_values(f) =~= str_views(doc_lines@).take(i as int).map_values(f).push(line@));
        i = i + 1;
    }
    assert(str_views(doc_lines@).take(doc_lines@.len() as int) =~= str_views(doc_lines@));
    let ghost prev = res@;
    res.push(" */".to_owned());
    assert(str_views(res@) =~= str_views(prev).push(" */"@));
    res
}

/// `name` without a leading `r#`.
pub open spec fn unraw(name: Seq<char>) -> Seq<char> {
    if starts_with(name, "r#"@) { name.skip(2) } else { name }
}

fn unraw_string(name: &String) -> (res: String)
    ensures
        res@ == unraw(name@),
{
    if string_starts_with(name.as_str(), "r#") {
        proof {
            reveal_strlit("r#");
        }
        let v = crate::text::chars_of(name.as_str());
        let rest = crate::text::sub_chars(&v, 2, v.len());
        assert(rest@ =~= name@.skip(2));
        crate::text::string_of(rest.as_slice())
    } else {
        name.clone()
    }
}

/// The name of a field in TypeScript: its serde name, or its own name in
/// the casing of its struct.
pub open spec fn ts_field_name(field: Field, casing: Casing) -> Seq<char> {
    match field.attrs.rename {
        Some(r) => r@,
        None => cased(casing, unraw(field.name.unwrap()@)),
    }
}

/// Whether the field has a name to give it in TypeScript.
pub open spec fn field_named(field: Field) -> bool {
    field.attrs.rename is Some || field.name is Some
}

/// The name of a field in TypeScript.
pub fn get_field_name(field: &Field, casing: Casing) -> (res: String)
    requires
        field_named(*field),
    ensures
        res@ == ts_field_name(*field, casing),
{
    match &field.attrs.rename {
        Some(r) => r.clone(),
        None => {
            let name = match &field.name {
                Some(n) => unraw_string(n),
                None => String::new(),
            };
            casing.format_string(name.as_str())
        },
    }
}

/// The name of a variant in TypeScript: its serde name, or its own name in
/// the casing of its enum.
pub open spec fn ts_variant_name(v: Variant, opts: EnumOptions) -> Seq<char> {
    match v.attrs.rename {
        Some(r) => r@,
        None => cased(opts.variant_casing, unraw(v.name@)),
    }
}

/// The name of a variant in TypeScript.
pub fn get_variant_name(variant: &Variant, opts: &EnumOptions) -> (res: String)
    ensures
        res@ == ts_variant_name(*variant, *opts),
{
    match &variant.attrs.rename {
        Some(r) => r.clone(),
        None => {
            let name = unraw_string(&variant.name);
            opts.variant_casing.format_string(name.as_str())
        },
    }
}

/// Whether the TypeScript runtime can write each of `fields`: each has a
/// name, its type can be written, and a container type has its argument.
pub open spec fn ts_fields_formattable(fields: Seq<Field>, types: Seq<(TypeIdent, Type)>) -> bool {
    forall|i: int| 0 <= i < fields.len() ==> {
        &&& field_named(#[trigger] fields[i])
        &&& match lookup(types, fields[i].ty) {
            Some(Type::Container(_, _)) => fields[i].ty.generic_args@.len() > 0
                && ts_ident_text(fields[i].ty.generic_args@[0].0, types) is Some,
            _ => ts_ident_text(fields[i].ty, types) is Some,
        }
    }
}

/// The declaration of one field of a TypeScript object type.
pub open spec fn ts_field_decl(field: Field, types: Seq<(TypeIdent, Type)>, casing: Casing) -> Seq<char> {
    match lookup(types, field.ty) {
        Some(Type::Container(name, _)) => ts_field_name(field, casing) + (if name@ == "Option"@ { "?"@ } else { Seq::empty() })
            + ": "@ + ts_ident_text(field.ty.generic_args@[0].0, types).unwrap() + ";"@,
        _ => ts_field_name(field, casing) + ": "@ + ts_ident_text(field.ty, types).unwrap() + ";"@,
    }
}

/// The lines of one field: its declaration, after a blank line and its
/// doc comment where it has docs.
pub open spec fn ts_field_lines(field: Field, types: Seq<(TypeIdent, Type)>, casing: Casing) -> Seq<Seq<char>> {
    if field.doc_lines@.len() == 0 {
        seq![ts_field_decl(field, types, casing)]
    } else {
        seq![Seq::empty()] + ts_docs(str_views(field.doc_lines@)) + seq![ts_field_decl(field, types, casing)]
    }
}

/// The lines of all of `fields`.
pub open spec fn ts_fields_lines(fields: Seq<Field>, types: Seq<(TypeIdent, Type)>, casing: Casing) -> Seq<Seq<char>>
    decreases fields.len(),
{
    if fields.len() == 0 {
        Seq::empty()
    } else {
        ts_fields_lines(fields.drop_last(), types, casing) + ts_field_lines(fields.last(), types, casing)
    }
}

fn field_lines(field: &Field, types: &TypeMap, casing: Casing) -> (res: Vec<String>)
    requires
        field_named(*field),
        match lookup(types@, field.ty) {
            Some(Type::Container(_, _)) => field.ty.generic_args@.len() > 0
                && ts_ident_text(field.ty.generic_args@[0].0, types@) is Some,
            _ => ts_ident_text(field.ty, types@) is Some,
        },
    ensures
        str_views(res@) == ts_field_lines(*field, types@, casing),
{
    let mut decl = get_field_name(field, casing);
    match types.get(&field.ty) {
        Some(Type::Container(name, _)) => {
            if str_eq(name.as_str(), "Option") {
                decl.append("?");
            }
            decl.append(": ");
            let t = format_ident(&field.ty.generic_args[0].0, types);
            decl.append(t.as_str());
        },
        _ => {
            decl.append(": ");
            let t = format_ident(&field.ty, types);
            decl.append(t.as_str());
        },
    }
    decl.append(";");
    assert(decl@ == ts_field_decl(*field, types@, casing));
    if field.doc_lines.len() == 0 {
        let mut res: Vec<String> = Vec::new();
        res.push(decl);
        assert(str_views(res@) =~= seq![decl@]);
        res
    } else {
        let mut res: Vec<String> = Vec::new();
        res.push(String::new());
        let mut docs = format_docs(&field.doc_lines);
        let ghost d = docs@;
        res.append(&mut docs);
        let ghost before = res@;
        res.push(decl);
        assert(str_views(res@) =~= seq![Seq::<char>::empty()] + str_views(d) + seq![decl@]);
        res
    }
}

/// The lines of the fields of a TypeScript object type.
pub fn format_struct_fields(fields: &Vec<Field>, types: &TypeMap, casing: Casing) -> (res: Vec<String>)
    requires
        ts_fields_formattable(fields@, types@),
    ensures
        str_views(res@) == ts_fields_lines(fields@, types@, casing),
{
    let mut res: Vec<String> = Vec::new();
    let mut i: usize = 0;
    assert(fields@.take(0) =~= Seq::<Field>::empty());
    while i < fields.len()
        invariant
            i <= fields@.len(),
            ts_fields_formattable(fields@, types@),
            str_views(res@) == ts_fields_lines(fields@.take(i as int), types@, casing),
        decreases fields@.len() - i,
    {
        assert(field_named(fields@[i as int]));
        let mut lines = field_lines(&fields[i], types, casing);
        let ghost before = res@;
        let ghost added = lines@;
        res.append(&mut lines);
        proof {
            let t = fields@.take(i as int + 1);
            assert(t.drop_last() =~= fields@.take(i as int));
            assert(t.last() == fields@[i as int]);
            assert(str_views(res@) =~= str_views(before) + str_views(added));
        }
        i = i + 1;
    }
    assert(fields@.take(fields@.len() as int) =~= fields@);
    res
}

/// How the TypeScript runtime defines a struct.
pub open spec fn ts_struct_definition(s: Struct, types: Seq<(TypeIdent, Type)>) -> Seq<char> {
    join_lines_text(ts_docs(str_views(s.doc_lines@)), ""@, ""@) + "export type "@ + format_view(s.ident@, true)
        + " = {\n"@ + trim_start_char(join_lines_text(ts_fields_lines(s.fields@, types, s.options.field_casing), "    "@, ""@), '\n')
        + "};"@
}

/// Defines a struct as a TypeScript object type.
pub fn create_struct_definition(ty: &Struct, types: &TypeMap) -> (res: String)
    requires
        ts_fields_formattable(ty.fields@, types@),
    ensures
        res@ == ts_struct_definition(*ty, types@),
{
    let docs = format_docs(&ty.doc_lines);
    let mut res = join_lines(&docs, "", "");
    res.append("export type ");
    let ident = ty.ident.format(true);
    res.append(ident.as_str());
    res.append(" = {\n");
    let lines = format_struct_fields(&ty.fields, types, ty.options.field_casing);
    let joined = join_lines(&lines, "    ", "");
    let body = trim_start_string(joined.as_str(), '\n');
    res.append(body.as_str());
    res.append("};");
    res
}


/// Whether the TypeScript runtime can write every variant of `variants`: a
/// unit variant, a struct variant whose fields it can write, or a tuple
/// variant of one item whose type it can write.
pub open spec fn ts_variants_formattable(variants: Seq<Variant>, types: Seq<(TypeIdent, Type)>) -> bool {
    forall|i: int| 0 <= i < variants.len() ==> match (#[trigger] variants[i]).ty {
        Type::Unit => true,
        Type::Struct(s) => ts_fields_formattable(s.fields@, types),
        Type::Tuple(items) => items@.len() == 1 && ts_ident_text(items@[0], types) is Some,
        _ => false,
    }
}

/// The fields of a struct variant, inside the braces of its object type.
pub open spec fn ts_variant_fields(sv: Struct, field_lines: Seq<Seq<char>>) -> Seq<char> {
    if field_lines.len() > sv.fields@.len() {
        "\n"@ + join_lines_text(field_lines, "    "@, ""@)
    } else {
        " "@ + trim_end_char(concat(field_lines), ';') + " "@
    }
}

/// The declaration of one variant in a TypeScript union type.
pub open spec fn ts_variant_decl(v: Variant, e: Enum, types: Seq<(TypeIdent, Type)>) -> Seq<char> {
    let name = ts_variant_name(v, e.options);
    let opts = e.options;
    match v.ty {
        Type::Unit => match opts.tag_prop_name {
            Some(tag) => "| { "@ + tag@ + ": \""@ + name + "\" }"@,
            None => "| \""@ + name + "\""@,
        },
        Type::Struct(sv) => {
            let field_lines = ts_fields_lines(sv.fields@, types, v.attrs.field_casing);
            if opts.untagged {
                "| { "@ + join(field_lines, " "@) + " }"@
            } else {
                let formatted = ts_variant_fields(sv, field_lines);
                match (opts.tag_prop_name, opts.content_prop_name) {
                    (Some(tag), Some(content)) => "| { "@ + tag@ + ": \""@ + name + "\"; "@ + content@ + ": {"@
                        + formatted + "} }"@,
                    (Some(tag), None) => "| {"@ + (if formatted.contains('\n') { "\n    "@ } else { " "@ })
                        + tag@ + ": \""@ + name + "\";"@ + formatted + "}"@,
                    (None, _) => "| { "@ + name + ": {"@ + formatted + "} }"@,
                }
            }
        },
        Type::Tuple(items) => {
            let item = ts_ident_text(items@[0], types).unwrap();
            if opts.untagged {
                "| "@ + item
            } else {
                match (opts.tag_prop_name, opts.content_prop_name) {
                    (Some(tag), Some(content)) => "| { "@ + tag@ + ": \""@ + name + "\"; "@ + content@ + ": "@ + item + " }"@,
                    (Some(tag), None) => "| { "@ + tag@ + ": \""@ + name + "\" } & "@ + item,
                    (None, _) => "| { "@ + name + ": "@ + item + " }"@,
                }
            }
        },
        _ => Seq::empty(),
    }
}

/// The text of one variant in a TypeScript union type, indented, with its
/// doc comment.
pub open spec fn ts_variant_text(v: Variant, e: Enum, types: Seq<(TypeIdent, Type)>) -> Seq<char> {
    let decl_lines = split_char(ts_variant_decl(v, e, types), '\n');
    let lines = if v.doc_lines@.len() == 0 { decl_lines } else { ts_docs(str_views(v.doc_lines@)) + decl_lines };
    join_lines_text(lines, "    "@, ""@)
}

/// How the TypeScript runtime defines an enum, as a union type.
pub open spec fn ts_enum_definition(e: Enum, types: Seq<(TypeIdent, Type)>) -> Seq<char> {
    let variants = concat(e.variants@.map_values(|v: Variant| ts_variant_text(v, e, types)));
    join_lines_text(ts_docs(str_views(e.doc_lines@)), ""@, ""@) + "export type "@ + format_view(e.ident@, true)
        + " =\n"@ + trim_end(variants) + ";"@
}

fn variant_decl(v: &Variant, e: &Enum, types: &TypeMap) -> (res: String)
    requires
        match v.ty {
            Type::Unit => true,
            Type::Struct(s) => ts_fields_formattable(s.fields@, types@),
            Type::Tuple(items) => items@.len() == 1 && ts_ident_text(items@[0], types@) is Some,
            _ => false,
        },
    ensures
        res@ == ts_variant_decl(*v, *e, types@),
{
    let name = get_variant_name(v, &e.options);
    let opts = &e.options;
    match &v.ty {
        Type::Unit => match &opts.tag_prop_name {
            Some(tag) => {
                let mut s = "| { ".to_owned();
                s.append(tag.as_str());
                s.append(": \"");
                s.append(name.as_str());
                s.append("\" }");
                s
            },
            None => {
                let mut s = "| \"".to_owned();
                s.append(name.as_str());
                s.append("\"");
                s
            },
        },
        Type::Struct(sv) => {
            let field_lines = format_struct_fields(&sv.fields, types, v.attrs.field_casing);
            if opts.untagged {
                let mut s = "| { ".to_owned();
                let joined = join_strings(&field_lines, " ");
                s.append(joined.as_str());
                s.append(" }");
                s
            } else {
                let formatted = if field_lines.len() > sv.fields.len() {
                    let mut f = "\n".to_owned();
                    let body = join_lines(&field_lines, "    ", "");
                    f.append(body.as_str());
                    f
                } else {
                    let all = concat_strings(&field_lines);
                    let trimmed = trim_end_string(all.as_str(), ';');
                    let mut f = " ".to_owned();
                    f.append(trimmed.as_str());
                    f.append(" ");
                    f
                };
                match (&opts.tag_prop_name, &opts.content_prop_name) {
                    (Some(tag), Some(content)) => {
                        let mut s = "| { ".to_owned();
                        s.append(tag.as_str());
                        s.append(": \"");
                        s.append(name.as_str());
                        s.append("\"; ");
                        s.append(content.as_str());
                        s.append(": {");
                        s.append(formatted.as_str());
                        s.append("} }");
                        s
                    },
                    (Some(tag), None) => {
                        let mut s = "| {".to_owned();
                        if crate::text::contains_char(formatted.as_str(), '\n') {
                            s.append("\n    ");
                        } else {
                            s.append(" ");
                        }
                        s.append(tag.as_str());
                        s.append(": \"");
                        s.append(name.as_str());
                        s.append("\";");
                        s.append(formatted.as_str());
                        s.append("}");
                        s
                    },
                    (None, _) => {
                        let mut s = "| { ".to_owned();
                        s.append(name.as_str());
                        s.append(": {");
                        s.append(formatted.as_str());
                        s.append("} }");
                        s
                    },
                }
            }
        },
        Type::Tuple(items) => {
            let item = format_ident(&items[0], types);
            if opts.untagged {
                let mut s = "| ".to_owned();
                s.append(item.as_str());
                s
            } else {
                match (&opts.tag_prop_name, &opts.content_prop_name) {
                    (Some(tag), Some(content)) => {
                        let mut s = "| { ".to_owned();
                        s.append(tag.as_str());
                        s.append(": \"");
                        s.append(name.as_str());
                        s.append("\"; ");
                        s.append(content.as_str());
                        s.append(": ");
                        s.append(item.as_str());
                        s.append(" }");
                        s
                    },
                    (Some(tag), None) => {
                        let mut s = "| { ".to_owned();
                        s.append(tag.as_str());
                        s.append(": \"");
                        s.append(name.as_str());
                        s.append("\" } & ");
                        s.append(item.as_str());
                        s
                    },
                    (None, _) => {
                        let mut s = "| { ".to_owned();
                        s.append(name.as_str());
                        s.append(": ");
                        s.append(item.as_str());
                        s.append(" }");
                        s
                    },
                }
            }
        },
        _ => String::new(),
    }
}

fn variant_text(v: &Variant, e: &Enum, types: &TypeMap) -> (res: String)
    requires
        match v.ty {
            Type::Unit => true,
            Type::Struct(s) => ts_fields_formattable(s.fields@, types@),
            Type::Tuple(items) => items@.len() == 1 && ts_ident_text(items@[0], types@) is Some,
            _ => false,
        },
    ensures
        res@ == ts_variant_text(*v, *e, types@),
{
    let decl = variant_decl(v, e, types);
    let mut decl_lines = split_string(decl.as_str(), '\n');
    let lines = if v.doc_lines.len() == 0 {
        decl_lines
    } else {
        let mut lines = format_docs(&v.doc_lines);
        let ghost l1 = lines@;
        let ghost l2 = decl_lines@;
        lines.append(&mut decl_lines);
        assert(str_views(lines@) =~= str_views(l1) + str_views(l2));
        lines
    };
    join_lines(&lines, "    ", "")
}

/// Defines an enum as a TypeScript union type.
pub fn create_enum_definition(ty: &Enum, types: &TypeMap) -> (res: String)
    requires
        ts_variants_formattable(ty.variants@, types@),
    ensures
        res@ == ts_enum_definition(*ty, types@),
{
    let mut texts: Vec<String> = Vec::new();
    let mut i: usize = 0;
    let ghost f = |v: Variant| ts_variant_text(v, *ty, types@);
    while i < ty.variants.len()
        invariant
            i <= ty.variants@.len(),
            ts_variants_formattable(ty.variants@, types@),
            f == (|v: Variant| ts_variant_text(v, *ty, types@)),
            str_views(texts@) == ty.variants@.take(i as int).map_values(f),
        decreases ty.variants@.len() - i,
    {
        let v = &ty.variants[i];
        assert(match v.ty {
            Type::Unit => true,
            Type::Struct(s) => ts_fields_formattable(s.fields@, types@),
            Type::Tuple(items) => items@.len() == 1 && ts_ident_text(items@[0], types@) is Some,
            _ => false,
        });
        let text = variant_text(v, ty, types);
        let ghost before = texts@;
        texts.push(text);
        assert(str_views(texts@) =~= str_views(before).push(text@));
        assert(ty.variants@.take(i as int + 1).map_values(f) =~= ty.variants@.take(i as int).map_values(f).push(text@));
        i = i + 1;
    }
    assert(ty.variants@.take(ty.variants@.len() as int) =~= ty.variants@);
    let variants = concat_strings(&texts);
    let docs = format_docs(&ty.doc_lines);
    let mut res = join_lines(&docs, "", "");
    res.append("export type ");
    let ident = ty.ident.format(true);
    res.append(ident.as_str());
    res.append(" =\n");
    let trimmed = crate::text::trim_end_string_ws(variants.as_str());
    res.append(trimmed.as_str());
    res.append(";");
    res
}


/// Whether the TypeScript runtime can write the definition of `ty`.
pub open spec fn ts_type_def_formattable(ty: Type, types: Seq<(TypeIdent, Type)>) -> bool {
    match ty {
        Type::Alias(_, t) => ts_ident_text(t, types) is Some,
        Type::Enum(e) => ts_variants_formattable(e.variants@, types),
        Type::Struct(s) => ts_fields_formattable(s.fields@, types),
        _ => true,
    }
}

/// Whether the TypeScript runtime can write the types file for `types`.
pub open spec fn ts_types_formattable(types: Seq<(TypeIdent, Type)>) -> bool {
    forall|i: int| 0 <= i < types.len() ==> ts_type_def_formattable(#[trigger] types[i].1, types)
}

/// The definition of `ty` in the TypeScript types file, if it gets one.
pub open spec fn ts_type_def(ty: Type, types: Seq<(TypeIdent, Type)>) -> Option<Seq<char>> {
    match ty {
        Type::Alias(name, t) => Some("export type "@ + name@ + " = "@ + ts_ident_text(t, types).unwrap() + ";"@),
        Type::Custom(c) => match c.ts_declaration {
            Some(d) => Some("export type "@ + c.ts_ty@ + " = "@ + d@ + ";"@),
            None => None,
        },
        Type::Enum(e) => Some(ts_enum_definition(e, types)),
        Type::Struct(s) => Some(ts_struct_definition(s, types)),
        _ => None,
    }
}

/// The heading of the TypeScript types file.
pub open spec fn ts_types_heading() -> Seq<char> {
    "// ============================================= //\n// Types for WebAssembly runtime                 //\n//                                               //\n// This file is generated. PLEASE DO NOT MODIFY. //\n// ============================================= //\n\n"@
}

/// The TypeScript runtime's types file for `types`.
pub open spec fn ts_types_file(types: Seq<(TypeIdent, Type)>) -> Seq<char> {
    let defs = somes(types.map_values(|e: (TypeIdent, Type)| ts_type_def(e.1, types)));
    ts_types_heading() + join(defs, "\n\n"@) + "\n"@
}

fn type_def(ty: &Type, types: &TypeMap) -> (res: Option<String>)
    requires
        ts_type_def_formattable(*ty, types@),
    ensures
        opt_view(res) == ts_type_def(*ty, types@),
{
    match ty {
        Type::Alias(name, t) => {
            let mut s = "export type ".to_owned();
            s.append(name.as_str());
            s.append(" = ");
            let text = format_ident(t, types);
            s.append(text.as_str());
            s.append(";");
            Some(s)
        },
        Type::Custom(c) => match &c.ts_declaration {
            Some(d) => {
                let mut s = "export type ".to_owned();
                s.append(c.ts_ty.as_str());
                s.append(" = ");
                s.append(d.as_str());
                s.append(";");
                Some(s)
            },
            None => None,
        },
        Type::Enum(e) => Some(create_enum_definition(e, types)),
        Type::Struct(s) => Some(create_struct_definition(s, types)),
        _ => None,
    }
}

/// The contents of the TypeScript runtime's types file for `types`.
pub fn generate_type_bindings(types: &TypeMap) -> (res: String)
    requires
        ts_types_formattable(types@),
    ensures
        res@ == ts_types_file(types@),
{
    let ghost opts = types@.map_values(|e: (TypeIdent, Type)| ts_type_def(e.1, types@));
    let mut defs: Vec<String> = Vec::new();
    let mut i: usize = 0;
    assert(opts.take(0) =~= Seq::<Option<Seq<char>>>::empty());
    while i < types.len()
        invariant
            i <= types@.len(),
            opts == types@.map_values(|e: (TypeIdent, Type)| ts_type_def(e.1, types@)),
            ts_types_formattable(types@),
            str_views(defs@) == somes(opts.take(i as int)),
        decreases types@.len() - i,
    {
        let (_, ty) = types.entry_at(i);
        proof {
            let t = opts.take(i as int + 1);
            assert(t.drop_last() =~= opts.take(i as int));
            assert(t.last() == opts[i as int]);
            assert(ts_type_def_formattable(types@[i as int].1, types@));
        }
        match type_def(ty, types) {
            Some(s) => {
                let ghost before = defs@;
                defs.push(s);
                assert(str_views(defs@) =~= str_views(before).push(s@));
            },
            None => {},
        }
        i = i + 1;
    }
    assert(opts.take(opts.len() as int) =~= opts);
    let mut res = "// ============================================= //\n// Types for WebAssembly runtime                 //\n//                                               //\n// This file is generated. PLEASE DO NOT MODIFY. //\n// ============================================= //\n\n".to_owned();
    let joined = join_strings(&defs, "\n\n");
    res.append(joined.as_str());
    res.append("\n");
    res
}

/// Whether an identifier names a primitive type (and is no array).
pub open spec fn ident_is_primitive(t: TypeIdent) -> bool {
    t.array is None && primitive_from_name(t.name@) is Some
}

/// Whether a function only passes primitives, and is not async: such a
/// function needs no wrapper.
pub open spec fn primitive_function(f: Function) -> bool {
    &&& forall|i: int| 0 <= i < f.args@.len() ==> ident_is_primitive(#[trigger] f.args@[i].ty)
    &&& !f.is_async
    &&& match f.return_type {
        Some(t) => ident_is_primitive(t),
        None => true,
    }
}

/// Whether `function` only passes primitives and is not async.
pub fn is_primitive_function(function: &Function) -> (res: bool)
    ensures
        res == primitive_function(*function),
{
    let mut i: usize = 0;
    while i < function.args.len()
        invariant
            i <= function.args@.len(),
            forall|j: int| 0 <= j < i ==> ident_is_primitive(#[trigger] function.args@[j].ty),
        decreases function.args@.len() - i,
    {
        if !function.args[i].ty.is_primitive() {
            return false;
        }
        i = i + 1;
    }
    if function.is_async {
        return false;
    }
    match &function.return_type {
        Some(t) => t.is_primitive(),
        None => true,
    }
}

/// The TypeScript type of a value passed as raw MessagePack data.
pub open spec fn ts_raw_type(t: TypeIdent) -> Seq<char> {
    match primitive_from_name(t.name@) {
        Some(p) => ts_primitive(p),
        None => "Uint8Array"@,
    }
}

/// The TypeScript type of a value passed as raw MessagePack data.
pub fn format_raw_type(ty: &TypeIdent) -> (res: &'static str)
    ensures
        res@ == ts_raw_type(*ty),
{
    match Primitive::from_str(ty.name.as_str()) {
        Ok(p) => format_primitive(p),
        Err(_) => "Uint8Array",
    }
}

/// The ways in which the TypeScript runtime writes a function argument.
pub enum ArgForm {
    /// `name: Type`.
    Declared,
    /// `name: RawType`.
    Raw,
    /// `name: primitive` or `name_ptr: FatPtr`.
    Pointer,
    /// The name alone.
    Name,
    /// The name of a primitive, or `name_ptr`.
    Call,
    /// Parses the object that a pointer holds; none for a primitive.
    Import,
    /// Serializes an object to a pointer; none for a primitive.
    Export,
    /// Copies raw data to a pointer; none for a primitive.
    RawExport,
}

/// How the TypeScript runtime writes an argument in the given form; `None`
/// where the form leaves it out.
pub open spec fn arg_form_text(form: ArgForm, a: FunctionArg, types: Seq<(TypeIdent, Type)>) -> Option<Seq<char>> {
    let camel = camel_case_of(a.name@);
    match form {
        ArgForm::Declared => Some(camel + ": "@ + ts_ident_text(a.ty, types).unwrap()),
        ArgForm::Raw => Some(camel + ": "@ + ts_raw_type(a.ty)),
        ArgForm::Pointer => match primitive_from_name(a.ty.name@) {
            Some(p) => Some(camel + ": "@ + ts_primitive(p)),
            None => Some(a.name@ + "_ptr: FatPtr"@),
        },
        ArgForm::Name => Some(camel),
        ArgForm::Call => Some(if ident_is_primitive(a.ty) { camel } else { a.name@ + "_ptr"@ }),
        ArgForm::Import => if ident_is_primitive(a.ty) {
            None
        } else {
            Some("const "@ + camel + " = parseObject<"@ + ts_ident_text(a.ty, types).unwrap() + ">("@ + a.name@ + "_ptr);"@)
        },
        ArgForm::Export => if ident_is_primitive(a.ty) {
            None
        } else {
            Some("const "@ + a.name@ + "_ptr = serializeObject("@ + camel + ");"@)
        },
        ArgForm::RawExport => if ident_is_primitive(a.ty) {
            None
        } else {
            Some("const "@ + a.name@ + "_ptr = exportToMemory("@ + camel + ");"@)
        },
    }
}

/// Whether the TypeScript runtime can write an argument in the given form.
pub open spec fn arg_form_ok(form: ArgForm, a: FunctionArg, types: Seq<(TypeIdent, Type)>) -> bool {
    match form {
        ArgForm::Declared => ts_ident_text(a.ty, types) is Some,
        ArgForm::Import => ident_is_primitive(a.ty) || ts_ident_text(a.ty, types) is Some,
        _ => true,
    }
}

/// The arguments in the given form, in order.
pub open spec fn args_in_form(form: ArgForm, args: Seq<FunctionArg>, types: Seq<(TypeIdent, Type)>) -> Seq<Seq<char>> {
    somes(args.map_values(|a: FunctionArg| arg_form_text(form, a, types)))
}

/// Whether the TypeScript runtime can write all of `args` in the form.
pub open spec fn args_form_ok(form: ArgForm, args: Seq<FunctionArg>, types: Seq<(TypeIdent, Type)>) -> bool {
    forall|i: int| 0 <= i < args.len() ==> arg_form_ok(form, #[trigger] args[i], types)
}

fn arg_in_form(form: &ArgForm, a: &FunctionArg, types: &TypeMap) -> (res: Option<String>)
    requires
        arg_form_ok(*form, *a, types@),
    ensures
        opt_view(res) == arg_form_text(*form, *a, types@),
{
    let camel = crate::casing::to_camel_case(a.name.as_str());
    match form {
        ArgForm::Declared => {
            let mut s = camel;
            s.append(": ");
            let t = format_ident(&a.ty, types);
            s.append(t.as_str());
            Some(s)
        },
        ArgForm::Raw => {
            let mut s = camel;
            s.append(": ");
            s.append(format_raw_type(&a.ty));
            Some(s)
        },
        ArgForm::Pointer => match Primitive::from_str(a.ty.name.as_str()) {
            Ok(p) => {
                let mut s = camel;
                s.append(": ");
                s.append(format_primitive(p));
                Some(s)
            },
            Err(_) => {
                let mut s = a.name.clone();
                s.append("_ptr: FatPtr");
                Some(s)
            },
        },
        ArgForm::Name => Some(camel),
        ArgForm::Call => if a.ty.is_primitive() {
            Some(camel)
        } else {
            let mut s = a.name.clone();
            s.append("_ptr");
            Some(s)
        },
        ArgForm::Import => if a.ty.is_primitive() {
            None
        } else {
            let mut s = "const ".to_owned();
            s.append(camel.as_str());
            s.append(" = parseObject<");
            let t = format_ident(&a.ty, types);
            s.append(t.as_str());
            s.append(">(");
            s.append(a.name.as_str());
            s.append("_ptr);");
            Some(s)
        },
        ArgForm::Export => if a.ty.is_primitive() {
            None
        } else {
            let mut s = "const ".to_owned();
            s.append(a.name.as_str());
            s.append("_ptr = serializeObject(");
            s.append(camel.as_str());
            s.append(");");
            Some(s)
        },
        ArgForm::RawExport => if a.ty.is_primitive() {
            None
        } else {
            let mut s = "const ".to_owned();
            s.append(a.name.as_str());
            s.append("_ptr = exportToMemory(");
            s.append(camel.as_str());
            s.append(");");
            Some(s)
        },
    }
}

fn args_in_form_exec(form: ArgForm, args: &Vec<FunctionArg>, types: &TypeMap) -> (res: Vec<String>)
    requires
        args_form_ok(form, args@, types@),
    ensures
        str_views(res@) == args_in_form(form, args@, types@),
{
    let ghost opts = args@.map_values(|a: FunctionArg| arg_form_text(form, a, types@));
    let mut res: Vec<String> = Vec::new();
    let mut i: usize = 0;
    assert(opts.take(0) =~= Seq::<Option<Seq<char>>>::empty());
    while i < args.len()
        invariant
            i <= args@.len(),
            opts == args@.map_values(|a: FunctionArg| arg_form_text(form, a, types@)),
            args_form_ok(form, args@, types@),
            str_views(res@) == somes(opts.take(i as int)),
        decreases args@.len() - i,
    {
        proof {
            let t = opts.take(i as int + 1);
            assert(t.drop_last() =~= opts.take(i as int));
            assert(t.last() == opts[i as int]);
            assert(arg_form_ok(form, args@[i as int], types@));
        }
        match arg_in_form(&form, &args[i], types) {
            Some(s) => {
                let ghost before = res@;
                res.push(s);
                assert(str_views(res@) =~= str_views(before).push(s@));
            },
            None => {},
        }
        i = i + 1;
    }
    assert(opts.take(opts.len() as int) =~= opts);
    res
}


/// Whether functions are imported by the plugin or exported by it.
pub enum FunctionType {
    Import,
    Export,
}

/// Plugins can always omit exports, while runtimes are always expected to
/// provide all imports.
pub open spec fn optional_marker(ft: FunctionType) -> Seq<char> {
    match ft {
        FunctionType::Import => Seq::empty(),
        FunctionType::Export => "?"@,
    }
}

/// The TypeScript return type of a function.
pub open spec fn ts_return_text(f: Function, types: Seq<(TypeIdent, Type)>) -> Seq<char> {
    match f.return_type {
        Some(t) => ts_ident_text(t, types).unwrap(),
        None => "void"@,
    }
}

/// Whether the TypeScript runtime can write every type in the signature.
pub open spec fn ts_signature_ok(f: Function, types: Seq<(TypeIdent, Type)>) -> bool {
    &&& args_form_ok(ArgForm::Declared, f.args@, types)
    &&& match f.return_type {
        Some(t) => ts_ident_text(t, types) is Some,
        None => true,
    }
}

/// The signature of a function as a TypeScript property.
pub open spec fn ts_declaration(f: Function, types: Seq<(TypeIdent, Type)>, ft: FunctionType) -> Seq<char> {
    let ret = ts_return_text(f, types);
    camel_case_of(f.name@) + optional_marker(ft) + ": ("@ + join(args_in_form(ArgForm::Declared, f.args@, types), ", "@) + ")"@
        + if f.is_async { " => Promise<"@ + ret + ">"@ } else { " => "@ + ret }
}

/// The signature of a function that passes raw MessagePack data.
pub open spec fn ts_raw_declaration(f: Function, ft: FunctionType) -> Seq<char> {
    let ret = match f.return_type {
        Some(t) => ts_raw_type(t),
        None => "void"@,
    };
    camel_case_of(f.name@) + "Raw"@ + optional_marker(ft) + ": ("@
        + join(args_in_form(ArgForm::Raw, f.args@, Seq::empty()), ", "@) + ")"@
        + if f.is_async { " => Promise<"@ + ret + ">"@ } else { " => "@ + ret }
}

fn return_text(f: &Function, types: &TypeMap) -> (res: String)
    requires
        ts_signature_ok(*f, types@),
    ensures
        res@ == ts_return_text(*f, types@),
{
    match &f.return_type {
        Some(t) => format_ident(t, types),
        None => "void".to_owned(),
    }
}

/// The signatures of the functions as TypeScript properties.
pub fn format_function_declarations(functions: &FunctionList, types: &TypeMap, function_type: FunctionType) -> (res: Vec<String>)
    requires
        forall|i: int| 0 <= i < functions@.len() ==> ts_signature_ok(#[trigger] functions@[i], types@),
    ensures
        str_views(res@) == functions@.map_values(|f: Function| ts_declaration(f, types@, function_type)),
        names_ascending(functions@),
{
    let list = functions.iter();
    let mut res: Vec<String> = Vec::new();
    let mut i: usize = 0;
    while i < list.len()
        invariant
            i <= list@.len(),
            list@ == functions@,
            forall|k: int| 0 <= k < functions@.len() ==> ts_signature_ok(#[trigger] functions@[k], types@),
            str_views(res@) == list@.take(i as int).map_values(|f: Function| ts_declaration(f, types@, function_type)),
        decreases list@.len() - i,
    {
        let f = &list[i];
        assert(ts_signature_ok(*f, types@));
        let mut s = crate::casing::to_camel_case(f.name.as_str());
        match function_type {
            FunctionType::Import => {},
            FunctionType::Export => s.append("?"),
        }
        s.append(": (");
        let args = args_in_form_exec(ArgForm::Declared, &f.args, types);
        let joined = join_strings(&args, ", ");
        s.append(joined.as_str());
        s.append(")");
        let ret = return_text(f, types);
        if f.is_async {
            s.append(" => Promise<");
            s.append(ret.as_str());
            s.append(">");
        } else {
            s.append(" => ");
            s.append(ret.as_str());
        }
        assert(s@ == ts_declaration(*f, types@, function_type));
        let ghost before = res@;
        res.push(s);
        assert(str_views(res@) =~= str_views(before).push(s@));
        assert(list@.take(i as int + 1).map_values(|f: Function| ts_declaration(f, types@, function_type))
            =~= list@.take(i as int).map_values(|f: Function| ts_declaration(f, types@, function_type)).push(s@));
        i = i + 1;
    }
    assert(list@.take(list@.len() as int) =~= list@);
    res
}

/// The raw signatures, for the functions that need a wrapper.
pub open spec fn ts_raw_declarations(functions: Seq<Function>, ft: FunctionType) -> Seq<Seq<char>> {
    somes(functions.map_values(|f: Function| if primitive_function(f) { None } else { Some(ts_raw_declaration(f, ft)) }))
}

/// The signatures of the functions that pass raw MessagePack data, for the
/// functions that need a wrapper.
pub fn format_raw_function_declarations(functions: &FunctionList, function_type: FunctionType) -> (res: Vec<String>)
    ensures
        str_views(res@) == ts_raw_declarations(functions@, function_type),
        names_ascending(functions@),
{
    let no_types = TypeMap::new();
    let list = functions.iter();
    let ghost opts = list@.map_values(|f: Function| if primitive_function(f) { None } else { Some(ts_raw_declaration(f, function_type)) });
    let mut res: Vec<String> = Vec::new();
    let mut i: usize = 0;
    assert(opts.take(0) =~= Seq::<Option<Seq<char>>>::empty());
    while i < list.len()
        invariant
            i <= list@.len(),
            list@ == functions@,
            no_types@ == Seq::<(TypeIdent, Type)>::empty(),
            opts == list@.map_values(|f: Function| if primitive_function(f) { None } else { Some(ts_raw_declaration(f, function_type)) }),
            str_views(res@) == somes(opts.take(i as int)),
        decreases list@.len() - i,
    {
        let f = &list[i];
        proof {
            let t = opts.take(i as int + 1);
            assert(t.drop_last() =~= opts.take(i as int));
            assert(t.last() == opts[i as int]);
        }
        if !is_primitive_function(f) {
            let mut s = crate::casing::to_camel_case(f.name.as_str());
            s.append("Raw");
            match function_type {
                FunctionType::Import => {},
                FunctionType::Export => s.append("?"),
            }
            s.append(": (");
            let args = args_in_form_exec(ArgForm::Raw, &f.args, &no_types);
            let joined = join_strings(&args, ", ");
            s.append(joined.as_str());
            s.append(")");
            let ret = match &f.return_type {
                Some(t) => format_raw_type(t),
                None => "void",
            };
            if f.is_async {
                s.append(" => Promise<");
                s.append(ret);
                s.append(">");
            } else {
                s.append(" => ");
                s.append(ret);
            }
            assert(s@ == ts_raw_declaration(*f, function_type));
            let ghost before = res@;
            res.push(s);
            assert(str_views(res@) =~= str_views(before).push(s@));
        }
        i = i + 1;
    }
    assert(opts.take(opts.len() as int) =~= opts);
    res
}

/// The lines of all of `groups`, in order.
pub open spec fn flat_lines(groups: Seq<Seq<Seq<char>>>) -> Seq<Seq<char>>
    decreases groups.len(),
{
    if groups.len() == 0 {
        Seq::empty()
    } else {
        flat_lines(groups.drop_last()) + groups.last()
    }
}

/// The return type of the wrapper of an imported function.
pub open spec fn ts_import_ret(f: Function) -> Seq<char> {
    match f.return_type {
        None => Seq::empty(),
        Some(t) => match primitive_from_name(t.name@) {
            Some(p) => ": "@ + ts_primitive(p),
            None => ": FatPtr"@,
        },
    }
}

/// The wrapper through which the plugin calls an imported function.
pub open spec fn ts_import_wrapper_text(f: Function, types: Seq<(TypeIdent, Type)>) -> Seq<char> {
    let name = f.name@;
    let camel = camel_case_of(name);
    let args = join(args_in_form(ArgForm::Name, f.args@, types), ", "@);
    let head = import_wrapper_head(f, types);
    if f.is_async {
        let async_result = if f.return_type is Some { "serializeObject(result)"@ } else { "0"@ };
        head + "    const _async_result_ptr = createAsyncValue();\n    importFunctions."@ + camel + "("@ + args
            + ")\n        .then((result) => {\n            resolveFuture(_async_result_ptr, "@ + async_result
            + ");\n        })\n        .catch((error) => {\n            console.error(\n                'Unrecoverable exception trying to call async host function \""@
            + name + "\"',\n                error\n            );\n        });\n    return _async_result_ptr;\n},"@
    } else {
        let call = match f.return_type {
            None => "importFunctions."@ + camel + "("@ + args + ");"@,
            Some(t) => if ident_is_primitive(t) {
                "return importFunctions."@ + camel + "("@ + args + ");"@
            } else {
                "return serializeObject(importFunctions."@ + camel + "("@ + args + "));"@
            },
        };
        head + "    "@ + call + "\n},"@
    }
}

/// The lines of the wrappers of the imported functions.
pub open spec fn ts_import_wrappers(functions: Seq<Function>, types: Seq<(TypeIdent, Type)>) -> Seq<Seq<char>> {
    flat_lines(functions.map_values(|f: Function| split_char(ts_import_wrapper_text(f, types), '\n')))
}

/// The text of an import wrapper before its call.
pub open spec fn import_wrapper_head(f: Function, types: Seq<(TypeIdent, Type)>) -> Seq<char> {
    let ptr_args = join(args_in_form(ArgForm::Pointer, f.args@, types), ", "@);
    let import_lines = crate::text::wrap_lines("    "@, args_in_form(ArgForm::Import, f.args@, types), "\n"@);
    "__fp_gen_"@ + f.name@ + ": ("@ + ptr_args + ")"@ + ts_import_ret(f) + " => {\n"@ + import_lines
}

fn import_head(f: &Function, types: &TypeMap) -> (res: String)
    requires
        args_form_ok(ArgForm::Import, f.args@, types@),
    ensures
        res@ == import_wrapper_head(*f, types@),
{
    let ptr = args_in_form_exec(ArgForm::Pointer, &f.args, types);
    let ptr_args = join_strings(&ptr, ", ");
    let imports = args_in_form_exec(ArgForm::Import, &f.args, types);
    let import_lines = crate::text::wrap_each("    ", &imports, "\n");
    let mut s = "__fp_gen_".to_owned();
    s.append(f.name.as_str());
    s.append(": (");
    s.append(ptr_args.as_str());
    s.append(")");
    match &f.return_type {
        None => {},
        Some(t) => match Primitive::from_str(t.name.as_str()) {
            Ok(p) => {
                s.append(": ");
                s.append(format_primitive(p));
            },
            Err(_) => s.append(": FatPtr"),
        },
    }
    s.append(" => {\n");
    s.append(import_lines.as_str());
    s
}

fn import_async_tail(s: &mut String, f: &Function, camel: &String, args: &String)
    ensures
        final(s)@ == old(s)@ + "    const _async_result_ptr = createAsyncValue();\n    importFunctions."@ + camel@ + "("@ + args@
            + ")\n        .then((result) => {\n            resolveFuture(_async_result_ptr, "@
            + (if f.return_type is Some { "serializeObject(result)"@ } else { "0"@ })
            + ");\n        })\n        .catch((error) => {\n            console.error(\n                'Unrecoverable exception trying to call async host function \""@
            + f.name@ + "\"',\n                error\n            );\n        });\n    return _async_result_ptr;\n},"@,
{
    let async_result = if f.return_type.is_some() { "serializeObject(result)" } else { "0" };
    s.append("    const _async_result_ptr = createAsyncValue();\n    importFunctions.");
    s.append(camel.as_str());
    s.append("(");
    s.append(args.as_str());
    s.append(")\n        .then((result) => {\n            resolveFuture(_async_result_ptr, ");
    s.append(async_result);
    s.append(");\n        })\n        .catch((error) => {\n            console.error(\n                'Unrecoverable exception trying to call async host function \"");
    s.append(f.name.as_str());
    s.append("\"',\n                error\n            );\n        });\n    return _async_result_ptr;\n},");
}

fn import_sync_call(f: &Function, camel: &String, args: &String) -> (res: String)
    ensures
        res@ == match f.return_type {
            None => "importFunctions."@ + camel@ + "("@ + args@ + ");"@,
            Some(t) => if ident_is_primitive(t) {
                "return importFunctions."@ + camel@ + "("@ + args@ + ");"@
            } else {
                "return serializeObject(importFunctions."@ + camel@ + "("@ + args@ + "));"@
            },
        },
{
    let mut s: String;
    match &f.return_type {
        None => {
            s = "importFunctions.".to_owned();
            s.append(camel.as_str());
            s.append("(");
            s.append(args.as_str());
            s.append(");");
        },
        Some(t) => if t.is_primitive() {
            s = "return importFunctions.".to_owned();
            s.append(camel.as_str());
            s.append("(");
            s.append(args.as_str());
            s.append(");");
        } else {
            s = "return serializeObject(importFunctions.".to_owned();
            s.append(camel.as_str());
            s.append("(");
            s.append(args.as_str());
            s.append("));");
        },
    }
    s
}

fn import_wrapper(f: &Function, types: &TypeMap) -> (res: String)
    requires
        args_form_ok(ArgForm::Import, f.args@, types@),
    ensures
        res@ == ts_import_wrapper_text(*f, types@),
{
    let camel = crate::casing::to_camel_case(f.name.as_str());
    let names = args_in_form_exec(ArgForm::Name, &f.args, types);
    let args = join_strings(&names, ", ");
    let mut s = import_head(f, types);
    if f.is_async {
        import_async_tail(&mut s, f, &camel, &args);
    } else {
        s.append("    ");
        let call = import_sync_call(f, &camel, &args);
        s.append(call.as_str());
        s.append("\n},");
    }
    s
}

/// The lines of the wrappers through which the plugin calls the imported
/// functions.
pub fn format_import_wrappers(import_functions: &FunctionList, types: &TypeMap) -> (res: Vec<String>)
    requires
        forall|i: int| 0 <= i < import_functions@.len() ==> args_form_ok(ArgForm::Import, (#[trigger] import_functions@[i]).args@, types@),
    ensures
        str_views(res@) == ts_import_wrappers(import_functions@, types@),
        names_ascending(import_functions@),
{
    let list = import_functions.iter();
    let ghost groups = list@.map_values(|f: Function| split_char(ts_import_wrapper_text(f, types@), '\n'));
    let mut res: Vec<String> = Vec::new();
    let mut i: usize = 0;
    assert(groups.take(0) =~= Seq::<Seq<Seq<char>>>::empty());
    while i < list.len()
        invariant
            i <= list@.len(),
            list@ == import_functions@,
            groups == list@.map_values(|f: Function| split_char(ts_import_wrapper_text(f, types@), '\n')),
            forall|k: int| 0 <= k < import_functions@.len() ==> args_form_ok(ArgForm::Import, (#[trigger] import_functions@[k]).args@, types@),
            str_views(res@) == flat_lines(groups.take(i as int)),
        decreases list@.len() - i,
    {
        assert(args_form_ok(ArgForm::Import, list@[i as int].args@, types@));
        let text = import_wrapper(&list[i], types);
        let mut lines = split_string(text.as_str(), '\n');
        let ghost before = res@;
        let ghost added = lines@;
        res.append(&mut lines);
        proof {
            let t = groups.take(i as int + 1);
            assert(t.drop_last() =~= groups.take(i as int));
            assert(t.last() == groups[i as int]);
            assert(str_views(res@) =~= str_views(before) + str_views(added));
        }
        i = i + 1;
    }
    assert(groups.take(groups.len() as int) =~= groups);
    res
}


/// Whether some argument is not a primitive.
pub open spec fn any_complex_arg(f: Function) -> bool {
    exists|i: int| 0 <= i < f.args@.len() && !ident_is_primitive(#[trigger] f.args@[i].ty)
}

/// The call of an exported function inside its wrapper.
pub open spec fn export_call(is_async: bool, any_complex: bool, complex_return: bool, fn_call: Seq<char>, ret: Seq<char>) -> Seq<char> {
    if !is_async && !any_complex && !complex_return {
        "return "@ + fn_call + ";"@
    } else if !is_async && !any_complex && complex_return {
        "return parseObject<"@ + ret + ">("@ + fn_call + ");"@
    } else if is_async && !any_complex {
        "return promiseFromPtr("@ + fn_call + ").then((ptr) => parseObject<"@ + ret + ">(ptr));"@
    } else if is_async {
        "return promiseFromPtr(parseResultObject<FatPtr>("@ + fn_call + ")).then((ptr) => parseObject<"@ + ret + ">(ptr));"@
    } else {
        "return decode<"@ + ret + ">(parseResultObject<ArrayBuffer>("@ + fn_call + "));"@
    }
}

/// The call of an exported function inside its raw wrapper.
pub open spec fn raw_export_call(is_async: bool, any_complex: bool, complex_return: bool, fn_call: Seq<char>) -> Seq<char> {
    if !is_async && !any_complex && !complex_return {
        "return "@ + fn_call + ";"@
    } else if !is_async && !any_complex && complex_return {
        "return importFromMemory("@ + fn_call + ");"@
    } else if is_async && !any_complex {
        "return promiseFromPtr("@ + fn_call + ").then(importFromMemory);"@
    } else if is_async {
        "return promiseFromPtr(parseResultObject<FatPtr>("@ + fn_call + ")).then(importFromMemory);"@
    } else {
        "return parseResultObject<Uint8Array>("@ + fn_call + ");"@
    }
}

/// The function that a wrapper returns.
pub open spec fn wrapper_return_fn(args: Seq<char>, export_args: Seq<Seq<char>>, wrapped: Seq<char>) -> Seq<char> {
    if export_args.len() == 0 {
        "return ("@ + args + ") => "@ + crate::text::replace(wrapped, "return "@, ""@)
    } else {
        "return ("@ + args + ") => {\n"@ + join_lines_text(export_args, "        "@, ""@) + "        "@ + wrapped + "\n    };"@
    }
}

/// The wrapper around an exported function, given the text after its name.
pub open spec fn wrapper_text(head: Seq<char>, name: Seq<char>, return_fn: Seq<char>) -> Seq<char> {
    head + ": (() => {\n    const export_fn = instance.exports.__fp_gen_"@ + name + " as any;\n    if (!export_fn) return;\n\n    "@
        + return_fn + "\n})(),"@
}

/// The lines of the wrapper around an exported function.
pub open spec fn ts_export_wrapper_lines(f: Function, types: Seq<(TypeIdent, Type)>) -> Seq<Seq<char>> {
    let camel = camel_case_of(f.name@);
    if primitive_function(f) {
        seq![camel + ": instance.exports.__fp_gen_"@ + f.name@ + " as any,"@]
    } else {
        let args = join(args_in_form(ArgForm::Declared, f.args@, types), ", "@);
        let export_args = args_in_form(ArgForm::Export, f.args@, types);
        let fn_call = "export_fn("@ + join(args_in_form(ArgForm::Call, f.args@, types), ", "@) + ")"@;
        let wrapped = export_call(f.is_async, any_complex_arg(f), export_args.len() > 0, fn_call, ts_return_text(f, types));
        split_char(wrapper_text(camel, f.name@, wrapper_return_fn(args, export_args, wrapped)), '\n')
    }
}

/// The lines of the raw wrapper around an exported function.
pub open spec fn ts_raw_export_wrapper_lines(f: Function) -> Seq<Seq<char>> {
    let args = join(args_in_form(ArgForm::Raw, f.args@, Seq::empty()), ", "@);
    let export_args = args_in_form(ArgForm::RawExport, f.args@, Seq::empty());
    let fn_call = "export_fn("@ + join(args_in_form(ArgForm::Call, f.args@, Seq::empty()), ", "@) + ")"@;
    let wrapped = raw_export_call(f.is_async, any_complex_arg(f), export_args.len() > 0, fn_call);
    split_char(wrapper_text(camel_case_of(f.name@) + "Raw"@, f.name@, wrapper_return_fn(args, export_args, wrapped)), '\n')
}

/// The lines of the wrappers around the exported functions.
pub open spec fn ts_export_wrappers(functions: Seq<Function>, types: Seq<(TypeIdent, Type)>) -> Seq<Seq<char>> {
    flat_lines(functions.map_values(|f: Function| ts_export_wrapper_lines(f, types)))
}

/// The lines of the raw wrappers, for the functions that need a wrapper.
pub open spec fn ts_raw_export_wrappers(functions: Seq<Function>) -> Seq<Seq<char>> {
    flat_lines(functions.map_values(|f: Function| if primitive_function(f) { Seq::empty() } else { ts_raw_export_wrapper_lines(f) }))
}

fn any_complex_exec(f: &Function) -> (res: bool)
    ensures
        res == any_complex_arg(*f),
{
    let mut i: usize = 0;
    while i < f.args.len()
        invariant
            i <= f.args@.len(),
            forall|j: int| 0 <= j < i ==> ident_is_primitive(#[trigger] f.args@[j].ty),
        decreases f.args@.len() - i,
    {
        if !f.args[i].ty.is_primitive() {
            assert(!ident_is_primitive(f.args@[i as int].ty));
            return true;
        }
        i = i + 1;
    }
    false
}

fn return_fn_exec(args: &String, export_args: &Vec<String>, wrapped: &String) -> (res: String)
    ensures
        res@ == wrapper_return_fn(args@, str_views(export_args@), wrapped@),
{
    let mut s = "return (".to_owned();
    s.append(args.as_str());
    if export_args.len() == 0 {
        s.append(") => ");
        proof {
            reveal_strlit("return ");
        }
        let w = crate::text::chars_of(wrapped.as_str());
        let pat = crate::text::chars_of("return ");
        let rep = crate::text::chars_of("");
        let replaced = crate::text::replace_in(&w, &pat, &rep);
        let r = crate::text::string_of(replaced.as_slice());
        s.append(r.as_str());
    } else {
        s.append(") => {\n");
        let lines = join_lines(export_args, "        ", "");
        s.append(lines.as_str());
        s.append("        ");
        s.append(wrapped.as_str());
        s.append("\n    };");
    }
    s
}

fn wrapper_exec(head: String, name: &String, return_fn: &String) -> (res: String)
    ensures
        res@ == wrapper_text(head@, name@, return_fn@),
{
    let mut s = head;
    s.append(": (() => {\n    const export_fn = instance.exports.__fp_gen_");
    s.append(name.as_str());
    s.append(" as any;\n    if (!export_fn) return;\n\n    ");
    s.append(return_fn.as_str());
    s.append("\n})(),");
    s
}

fn export_wrapper_lines(f: &Function, types: &TypeMap) -> (res: Vec<String>)
    requires
        !primitive_function(*f) ==> ts_signature_ok(*f, types@),
    ensures
        str_views(res@) == ts_export_wrapper_lines(*f, types@),
{
    let camel = crate::casing::to_camel_case(f.name.as_str());
    if is_primitive_function(f) {
        let mut s = camel;
        s.append(": instance.exports.__fp_gen_");
        s.append(f.name.as_str());
        s.append(" as any,");
        let mut res: Vec<String> = Vec::new();
        res.push(s);
        assert(str_views(res@) =~= seq![s@]);
        return res;
    }
    let declared = args_in_form_exec(ArgForm::Declared, &f.args, types);
    let args = join_strings(&declared, ", ");
    let export_args = args_in_form_exec(ArgForm::Export, &f.args, types);
    let calls = args_in_form_exec(ArgForm::Call, &f.args, types);
    let mut fn_call = "export_fn(".to_owned();
    let joined = join_strings(&calls, ", ");
    fn_call.append(joined.as_str());
    fn_call.append(")");
    let ret = return_text(f, types);
    let any_complex = any_complex_exec(f);
    let complex_return = export_args.len() > 0;
    let mut wrapped: String;
    if !f.is_async && !any_complex && !complex_return {
        wrapped = "return ".to_owned();
        wrapped.append(fn_call.as_str());
        wrapped.append(";");
    } else if !f.is_async && !any_complex && complex_return {
        wrapped = "return parseObject<".to_owned();
        wrapped.append(ret.as_str());
        wrapped.append(">(");
        wrapped.append(fn_call.as_str());
        wrapped.append(");");
    } else if f.is_async && !any_complex {
        wrapped = "return promiseFromPtr(".to_owned();
        wrapped.append(fn_call.as_str());
        wrapped.append(").then((ptr) => parseObject<");
        wrapped.append(ret.as_str());
        wrapped.append(">(ptr));");
    } else if f.is_async {
        wrapped = "return promiseFromPtr(parseResultObject<FatPtr>(".to_owned();
        wrapped.append(fn_call.as_str());
        wrapped.append(")).then((ptr) => parseObject<");
        wrapped.append(ret.as_str());
        wrapped.append(">(ptr));");
    } else {
        wrapped = "return decode<".to_owned();
        wrapped.append(ret.as_str());
        wrapped.append(">(parseResultObject<ArrayBuffer>(");
        wrapped.append(fn_call.as_str());
        wrapped.append("));");
    }
    let return_fn = return_fn_exec(&args, &export_args, &wrapped);
    let text = wrapper_exec(camel, &f.name, &return_fn);
    split_string(text.as_str(), '\n')
}

fn raw_export_wrapper_lines(f: &Function) -> (res: Vec<String>)
    ensures
        str_views(res@) == ts_raw_export_wrapper_lines(*f),
{
    let no_types = TypeMap::new();
    let raw = args_in_form_exec(ArgForm::Raw, &f.args, &no_types);
    let args = join_strings(&raw, ", ");
    let export_args = args_in_form_exec(ArgForm::RawExport, &f.args, &no_types);
    let calls = args_in_form_exec(ArgForm::Call, &f.args, &no_types);
    let mut fn_call = "export_fn(".to_owned();
    let joined = join_strings(&calls, ", ");
    fn_call.append(joined.as_str());
    fn_call.append(")");
    let any_complex = any_complex_exec(f);
    let complex_return = export_args.len() > 0;
    let mut wrapped: String;
    if !f.is_async && !any_complex && !complex_return {
        wrapped = "return ".to_owned();
        wrapped.append(fn_call.as_str());
        wrapped.append(";");
    } else if !f.is_async && !any_complex && complex_return {
        wrapped = "return importFromMemory(".to_owned();
        wrapped.append(fn_call.as_str());
        wrapped.append(");");
    } else if f.is_async && !any_complex {
        wrapped = "return promiseFromPtr(".to_owned();
        wrapped.append(fn_call.as_str());
        wrapped.append(").then(importFromMemory);");
    } else if f.is_async {
        wrapped = "return promiseFromPtr(parseResultObject<FatPtr>(".to_owned();
        wrapped.append(fn_call.as_str());
        wrapped.append(")).then(importFromMemory);");
    } else {
        wrapped = "return parseResultObject<Uint8Array>(".to_owned();
        wrapped.append(fn_call.as_str());
        wrapped.append(");");
    }
    let return_fn = return_fn_exec(&args, &export_args, &wrapped);
    let mut head = crate::casing::to_camel_case(f.name.as_str());
    head.append("Raw");
    let text = wrapper_exec(head, &f.name, &return_fn);
    split_string(text.as_str(), '\n')
}

/// The lines of the wrappers around the exported functions.
pub fn format_export_wrappers(export_functions: &FunctionList, types: &TypeMap) -> (res: Vec<String>)
    requires
        forall|i: int| 0 <= i < export_functions@.len() ==>
            (!primitive_function(#[trigger] export_functions@[i]) ==> ts_signature_ok(export_functions@[i], types@)),
    ensures
        str_views(res@) == ts_export_wrappers(export_functions@, types@),
        names_ascending(export_functions@),
{
    let list = export_functions.iter();
    let ghost groups = list@.map_values(|f: Function| ts_export_wrapper_lines(f, types@));
    let mut res: Vec<String> = Vec::new();
    let mut i: usize = 0;
    assert(groups.take(0) =~= Seq::<Seq<Seq<char>>>::empty());
    while i < list.len()
        invariant
            i <= list@.len(),
            list@ == export_functions@,
            groups == list@.map_values(|f: Function| ts_export_wrapper_lines(f, types@)),
            forall|k: int| 0 <= k < export_functions@.len() ==>
                (!primitive_function(#[trigger] export_functions@[k]) ==> ts_signature_ok(export_functions@[k], types@)),
            str_views(res@) == flat_lines(groups.take(i as int)),
        decreases list@.len() - i,
    {
        assert(!primitive_function(list@[i as int]) ==> ts_signature_ok(list@[i as int], types@));
        let mut lines = export_wrapper_lines(&list[i], types);
        let ghost before = res@;
        let ghost added = lines@;
        res.append(&mut lines);
        proof {
            let t = groups.take(i as int + 1);
            assert(t.drop_last() =~= groups.take(i as int));
            assert(t.last() == groups[i as int]);
            assert(str_views(res@) =~= str_views(before) + str_views(added));
        }
        i = i + 1;
    }
    assert(groups.take(groups.len() as int) =~= groups);
    res
}

/// The lines of the raw wrappers around the exported functions that need
/// a wrapper.
pub fn format_raw_export_wrappers(export_functions: &FunctionList) -> (res: Vec<String>)
    ensures
        str_views(res@) == ts_raw_export_wrappers(export_functions@),
        names_ascending(export_functions@),
{
    let list = export_functions.iter();
    let ghost groups = list@.map_values(|f: Function| if primitive_function(f) { Seq::empty() } else { ts_raw_export_wrapper_lines(f) });
    let mut res: Vec<String> = Vec::new();
    let mut i: usize = 0;
    assert(groups.take(0) =~= Seq::<Seq<Seq<char>>>::empty());
    while i < list.len()
        invariant
            i <= list@.len(),
            list@ == export_functions@,
            groups == list@.map_values(|f: Function| if primitive_function(f) { Seq::empty() } else { ts_raw_export_wrapper_lines(f) }),
            str_views(res@) == flat_lines(groups.take(i as int)),
        decreases list@.len() - i,
    {
        let ghost before = res@;
        proof {
            let t = groups.take(i as int + 1);
            assert(t.drop_last() =~= groups.take(i as int));
            assert(t.last() == groups[i as int]);
        }
        if !is_primitive_function(&list[i]) {
            let mut lines = raw_export_wrapper_lines(&list[i]);
            let ghost added = lines@;
            res.append(&mut lines);
            assert(str_views(res@) =~= str_views(before) + str_views(added));
        } else {
            assert(str_views(res@) =~= str_views(before) + Seq::<Seq<char>>::empty());
        }
        i = i + 1;
    }
    assert(groups.take(groups.len() as int) =~= groups);
    res
}


/// A fixed part of the generated `index.ts`, up to the module that the
/// MessagePack functions are imported from.
pub const INDEX_HEAD: &'static str = "// ============================================= //
// WebAssembly runtime for TypeScript            //
//                                               //
// This file is generated. PLEASE DO NOT MODIFY. //
// ============================================= //

import { encode, decode } from \"";

/// A fixed part of the generated `index.ts`, after the MessagePack module.
pub const INDEX_TYPE_IMPORTS: &'static str = "\";

import type {
";

/// A fixed part of the generated `index.ts`.
pub const INDEX_IMPORTS: &'static str = "} from \"./types\";

type FatPtr = bigint;

export type Imports = {
";

/// A fixed part of the generated `index.ts`.
pub const INDEX_EXPORTS: &'static str = "};

export type Exports = {
";

/// A fixed part of the generated `index.ts`.
pub const INDEX_RUNTIME: &'static str = "};

/**
 * Represents an unrecoverable error in the FP runtime.
 *
 * After this, your only recourse is to create a new runtime, probably with a different WASM plugin.
 */
export class FPRuntimeError extends Error {
    constructor(message: string) {
        super(message);
    }

    static fromGuestError(guestError: FPGuestError): FPRuntimeError {
        switch (guestError.type) {
            case 'serde_error':
                return new FPRuntimeError(`Deserialization error in field '${guestError.path}': ${guestError.message}`);
            case 'invalid_fat_ptr':
                return new FPRuntimeError(`FatPtr error`);
        }
    }
}

/**
 * Creates a runtime for executing the given plugin.
 *
 * @param plugin The raw WASM plugin.
 * @param importFunctions The host functions that may be imported by the plugin.
 * @returns The functions that may be exported by the plugin.
 */
export async function createRuntime(
    plugin: ArrayBuffer,
    importFunctions: Imports
): Promise<Exports> {
    const promises = new Map<FatPtr, (result: FatPtr) => void>();

    function createAsyncValue(): FatPtr {
        const len = 12; // std::mem::size_of::<AsyncValue>()
        const fatPtr = malloc(len);
        const [ptr] = fromFatPtr(fatPtr);
        const buffer = new Uint8Array(memory.buffer, ptr, len);
        buffer.fill(0);
        return fatPtr;
    }

    function parseObject<T>(fatPtr: FatPtr): T {
        const [ptr, len] = fromFatPtr(fatPtr);
        const buffer = new Uint8Array(memory.buffer, ptr, len);
        const object = decode<T>(buffer) as T;
        free(fatPtr);
        return object;
    }

    function isErr<T, E>(result: Result<T, E>): result is { Err: E } {
        // @ts-ignore
        return result.Err !== undefined;
    }
  
    function parseResultObject<T>(ptr: FatPtr): T {
        const res = parseObject<Result<T, FPGuestError>>(ptr);
        if (isErr(res)) {
            throw FPRuntimeError.fromGuestError(res.Err)
        }

        return res.Ok
    }

    function promiseFromPtr(ptr: FatPtr): Promise<FatPtr> {
        return new Promise((resolve) => {
            promises.set(ptr, resolve as (result: FatPtr) => void);
        });
    }

    function resolvePromise(asyncValuePtr: FatPtr, resultPtr: FatPtr) {
        const resolve = promises.get(asyncValuePtr);
        if (!resolve) {
            throw new FPRuntimeError(\"Tried to resolve unknown promise\");
        }

        resolve(resultPtr);
    }

    function serializeObject<T>(object: T): FatPtr {
        return exportToMemory(encode(object));
    }

    function exportToMemory(serialized: Uint8Array): FatPtr {
        const fatPtr = malloc(serialized.length);
        const [ptr, len] = fromFatPtr(fatPtr);
        const buffer = new Uint8Array(memory.buffer, ptr, len);
        buffer.set(serialized);
        return fatPtr;
    }

    function importFromMemory(fatPtr: FatPtr): Uint8Array {
        const [ptr, len] = fromFatPtr(fatPtr);
        const buffer = new Uint8Array(memory.buffer, ptr, len);
        const copy = new Uint8Array(len);
        copy.set(buffer);
        free(fatPtr);
        return copy;
    }

    const { instance } = await WebAssembly.instantiate(plugin, {
        fp: {
";

/// A fixed part of the generated `index.ts`.
pub const INDEX_EXPORTS_FROM_INSTANCE: &'static str = "        },
    });

    const getExport = <T>(name: string): T => {
        const exp = instance.exports[name];
        if (!exp) {
            throw new FPRuntimeError(`Plugin did not export expected symbol: \"${name}\"`);
        }
        return exp as unknown as T;
    };

    const memory = getExport<WebAssembly.Memory>(\"memory\");
    const malloc = getExport<(len: number) => FatPtr>(\"__fp_malloc\");
    const free = getExport<(ptr: FatPtr) => void>(\"__fp_free\");
";

/// A fixed part of the generated `index.ts`.
pub const INDEX_RETURN: &'static str = "
    return {
";

/// A fixed part of the generated `index.ts`.
pub const INDEX_TAIL: &'static str = "    };
}

function fromFatPtr(fatPtr: FatPtr): [ptr: number, len: number] {
    return [
        Number.parseInt((fatPtr >> 32n).toString()),
        Number.parseInt((fatPtr & 0xffff_ffffn).toString()),
    ];
}

function toFatPtr(ptr: number, len: number): FatPtr {
    return (BigInt(ptr) << 32n) | BigInt(len);
}
";

/// The name under which the runtime imports a type from `types.ts`.
pub open spec fn ts_type_name(ty: Type) -> Option<Seq<char>> {
    match ty {
        Type::Alias(name, _) => Some(name@),
        Type::Enum(e) => Some(e.ident.name@),
        Type::Struct(s) => Some(s.ident.name@),
        _ => None,
    }
}

/// Whether some function is async.
pub open spec fn any_async(functions: Seq<Function>) -> bool {
    exists|i: int| 0 <= i < functions.len() && (#[trigger] functions[i]).is_async
}

/// Whether the TypeScript runtime can be generated for the functions and
/// types.
pub open spec fn ts_runtime_formattable(import_fns: Seq<Function>, export_fns: Seq<Function>, types: Seq<(TypeIdent, Type)>) -> bool {
    &&& forall|i: int| 0 <= i < import_fns.len() ==> ts_signature_ok(#[trigger] import_fns[i], types)
    &&& forall|i: int| 0 <= i < import_fns.len() ==> args_form_ok(ArgForm::Import, (#[trigger] import_fns[i]).args@, types)
    &&& forall|i: int| 0 <= i < export_fns.len() ==> ts_signature_ok(#[trigger] export_fns[i], types)
}

/// The line that fetches the function through which async imports are
/// resolved, where some import is async.
pub open spec fn resolve_future_line(needed: bool) -> Seq<char> {
    if needed {
        "    const resolveFuture = getExport<(asyncValuePtr: FatPtr, resultPtr: FatPtr) => void>(\"__fp_guest_resolve_async_value\");\n"@
    } else {
        Seq::empty()
    }
}

/// The TypeScript runtime's `index.ts` for the functions and types.
pub open spec fn ts_index_file(
    import_fns: Seq<Function>,
    export_fns: Seq<Function>,
    types: Seq<(TypeIdent, Type)>,
    raw_wrappers: bool,
    msgpack_module: Seq<char>,
) -> Seq<char> {
    let type_names = somes(types.map_values(|e: (TypeIdent, Type)| ts_type_name(e.1)));
    let import_decls = import_fns.map_values(|f: Function| ts_declaration(f, types, FunctionType::Import));
    let export_decls = export_fns.map_values(|f: Function| ts_declaration(f, types, FunctionType::Export));
    let raw_decls = if raw_wrappers { ts_raw_declarations(export_fns, FunctionType::Export) } else { Seq::empty() };
    let import_wrappers = ts_import_wrappers(import_fns, types) + if any_async(export_fns) {
        seq!["__fp_host_resolve_async_value: resolvePromise,"@]
    } else {
        Seq::empty()
    };
    let export_wrappers = ts_export_wrappers(export_fns, types);
    let raw_export_wrappers = if raw_wrappers { ts_raw_export_wrappers(export_fns) } else { Seq::empty() };
    INDEX_HEAD@ + msgpack_module + INDEX_TYPE_IMPORTS@ + join_lines_text(type_names, "    "@, ","@) + INDEX_IMPORTS@ + join_lines_text(import_decls, "    "@, ";"@)
        + INDEX_EXPORTS@ + join_lines_text(export_decls, "    "@, ";"@) + join_lines_text(raw_decls, "    "@, ";"@)
        + INDEX_RUNTIME@ + join_lines_text(import_wrappers, "            "@, ""@) + INDEX_EXPORTS_FROM_INSTANCE@
        + resolve_future_line(any_async(import_fns)) + INDEX_RETURN@ + join_lines_text(export_wrappers, "        "@, ""@)
        + join_lines_text(raw_export_wrappers, "        "@, ""@) + INDEX_TAIL@
}

fn any_async_exec(functions: &FunctionList) -> (res: bool)
    ensures
        res == any_async(functions@),
{
    let list = functions.iter();
    let mut i: usize = 0;
    while i < list.len()
        invariant
            i <= list@.len(),
            list@ == functions@,
            forall|j: int| 0 <= j < i ==> !(#[trigger] list@[j]).is_async,
        decreases list@.len() - i,
    {
        if list[i].is_async {
            assert(list@[i as int].is_async);
            return true;
        }
        i = i + 1;
    }
    false
}

fn type_names(types: &TypeMap) -> (res: Vec<String>)
    ensures
        str_views(res@) == somes(types@.map_values(|e: (TypeIdent, Type)| ts_type_name(e.1))),
{
    let ghost opts = types@.map_values(|e: (TypeIdent, Type)| ts_type_name(e.1));
    let mut res: Vec<String> = Vec::new();
    let mut i: usize = 0;
    assert(opts.take(0) =~= Seq::<Option<Seq<char>>>::empty());
    while i < types.len()
        invariant
            i <= types@.len(),
            opts == types@.map_values(|e: (TypeIdent, Type)| ts_type_name(e.1)),
            str_views(res@) == somes(opts.take(i as int)),
        decreases types@.len() - i,
    {
        let (_, ty) = types.entry_at(i);
        proof {
            let t = opts.take(i as int + 1);
            assert(t.drop_last() =~= opts.take(i as int));
            assert(t.last() == opts[i as int]);
        }
        let name = match ty {
            Type::Alias(name, _) => Some(name.clone()),
            Type::Enum(e) => Some(e.ident.name.clone()),
            Type::Struct(s) => Some(s.ident.name.clone()),
            _ => None,
        };
        match name {
            Some(n) => {
                let ghost before = res@;
                res.push(n);
                assert(str_views(res@) =~= str_views(before).push(n@));
            },
            None => {},
        }
        i = i + 1;
    }
    assert(opts.take(opts.len() as int) =~= opts);
    res
}

/// The contents of the TypeScript runtime's `index.ts`.
pub fn generate_index_file(
    import_functions: &FunctionList,
    export_functions: &FunctionList,
    types: &TypeMap,
    config: &super::TsExtendedRuntimeConfig,
) -> (res: String)
    requires
        ts_runtime_formattable(import_functions@, export_functions@, types@),
    ensures
        res@ == ts_index_file(import_functions@, export_functions@, types@, config.generate_raw_export_wrappers, config.msgpack_module@),
{
    let names = type_names(types);
    let import_decls = format_function_declarations(import_functions, types, FunctionType::Import);
    let export_decls = format_function_declarations(export_functions, types, FunctionType::Export);
    let raw_export_decls = if config.generate_raw_export_wrappers {
        format_raw_function_declarations(export_functions, FunctionType::Export)
    } else {
        Vec::new()
    };
    let has_async_imports = any_async_exec(import_functions);
    let has_async_exports = any_async_exec(export_functions);
    let mut import_wrappers = format_import_wrappers(import_functions, types);
    if has_async_exports {
        let ghost before = import_wrappers@;
        import_wrappers.push("__fp_host_resolve_async_value: resolvePromise,".to_owned());
        assert(str_views(import_wrappers@) =~= str_views(before) + seq!["__fp_host_resolve_async_value: resolvePromise,"@]);
    } else {
        assert(str_views(import_wrappers@) =~= str_views(import_wrappers@) + Seq::<Seq<char>>::empty());
    }
    let export_wrappers = format_export_wrappers(export_functions, types);
    let raw_export_wrappers = if config.generate_raw_export_wrappers {
        format_raw_export_wrappers(export_functions)
    } else {
        Vec::new()
    };
    let mut s = INDEX_HEAD.to_owned();
    s.append(config.msgpack_module.as_str());
    s.append(INDEX_TYPE_IMPORTS);
    let part = join_lines(&names, "    ", ",");
    s.append(part.as_str());
    s.append(INDEX_IMPORTS);
    let part = join_lines(&import_decls, "    ", ";");
    s.append(part.as_str());
    s.append(INDEX_EXPORTS);
    let part = join_lines(&export_decls, "    ", ";");
    s.append(part.as_str());
    let part = join_lines(&raw_export_decls, "    ", ";");
    s.append(part.as_str());
    s.append(INDEX_RUNTIME);
    let part = join_lines(&import_wrappers, "            ", "");
    s.append(part.as_str());
    s.append(INDEX_EXPORTS_FROM_INSTANCE);
    if has_async_imports {
        s.append("    const resolveFuture = getExport<(asyncValuePtr: FatPtr, resultPtr: FatPtr) => void>(\"__fp_guest_resolve_async_value\");\n");
    }
    s.append(INDEX_RETURN);
    let part = join_lines(&export_wrappers, "        ", "");
    s.append(part.as_str());
    let part = join_lines(&raw_export_wrappers, "        ", "");
    s.append(part.as_str());
    s.append(INDEX_TAIL);
    s
}


/// The files of the TypeScript runtime, as pairs of a file name and the
/// file's contents: `types.ts`, then `index.ts`.
pub fn generate_bindings(
    import_functions: &FunctionList,
    export_functions: &FunctionList,
    types: &TypeMap,
    config: &super::TsExtendedRuntimeConfig,
) -> (res: Vec<(String, String)>)
    requires
        ts_types_formattable(types@),
        ts_runtime_formattable(import_functions@, export_functions@, types@),
    ensures
        res@.len() == 2,
        res@[0].0@ == "types.ts"@,
        res@[0].1@ == ts_types_file(types@),
        res@[1].0@ == "index.ts"@,
        res@[1].1@ == ts_index_file(import_functions@, export_functions@, types@, config.generate_raw_export_wrappers, config.msgpack_module@),
{
    let mut files: Vec<(String, String)> = Vec::new();
    files.push(("types.ts".to_owned(), generate_type_bindings(types)));
    files.push(("index.ts".to_owned(), generate_index_file(import_functions, export_functions, types, config)));
    files
}


proof fn lemma_ts_idents_stuck(items: Seq<TypeIdent>, types: Seq<(TypeIdent, Type)>, fuel: nat, k: int, n: int)
    requires
        0 <= k <= n <= items.len(),
        ts_idents(items.take(k), types, fuel) is None,
    ensures
        ts_idents(items.take(n), types, fuel) is None,
    decreases n - k,
{
    if n > k {
        lemma_ts_idents_stuck(items, types, fuel, k, n - 1);
        assert(items.take(n).drop_last() =~= items.take(n - 1));
    }
}

/// Whether the TypeScript runtime writes `ident` within `fuel` unfoldings
/// of the map.
fn ident_fits(ident: &TypeIdent, types: &TypeMap, fuel: u64) -> (res: bool)
    ensures
        res == (ts_ident(*ident, types@, fuel as nat) is Some),
    decreases fuel, 0nat, 0nat,
{
    if fuel == 0 {
        return false;
    }
    match types.get(ident) {
        Some(ty) => type_fits(ty, ident, types, fuel - 1),
        None => true,
    }
}

/// Whether the TypeScript runtime writes the first `n` generic arguments
/// of `ident` within `fuel` unfoldings of the map.
fn arg_prefix_fits(ident: &TypeIdent, n: usize, types: &TypeMap, fuel: u64) -> (res: bool)
    requires
        n <= ident.generic_args@.len(),
    ensures
        res == (ts_idents(arg_idents(ident.generic_args@).take(n as int), types@, fuel as nat) is Some),
    decreases fuel, 1nat, n,
{
    let ghost items = arg_idents(ident.generic_args@).take(n as int);
    let mut i: usize = 0;
    assert(items.take(0) =~= Seq::<TypeIdent>::empty());
    while i < n
        invariant
            i <= n <= ident.generic_args@.len(),
            items == arg_idents(ident.generic_args@).take(n as int),
            ts_idents(items.take(i as int), types@, fuel as nat) is Some,
        decreases n - i,
    {
        let ghost t = items.take(i as int + 1);
        assert(t.drop_last() =~= items.take(i as int));
        assert(t.last() == ident.generic_args@[i as int].0);
        if !ident_fits(&ident.generic_args[i].0, types, fuel) {
            proof {
                lemma_ts_idents_stuck(items, types@, fuel as nat, i as int + 1, n as int);
                assert(items.take(n as int) =~= items);
            }
            return false;
        }
        i = i + 1;
    }
    assert(items.take(n as int) =~= items);
    true
}

/// Whether the TypeScript runtime writes `ident`, which the map holds as
/// `ty`, within `fuel` unfoldings of the map.
fn type_fits(ty: &Type, ident: &TypeIdent, types: &TypeMap, fuel: u64) -> (res: bool)
    ensures
        res == (ts_type_with_ident(*ty, *ident, types@, fuel as nat) is Some),
    decreases fuel, 2nat, 0nat,
{
    let ghost args = arg_idents(ident.generic_args@);
    assert(args.len() == ident.generic_args@.len());
    match ty {
        Type::Container(_, _) | Type::List(_, _) => ident.generic_args.len() > 0 && arg_prefix_fits(ident, 1, types, fuel),
        Type::Enum(_) | Type::Struct(_) => {
            assert(args.take(args.len() as int) =~= args);
            arg_prefix_fits(ident, ident.generic_args.len(), types, fuel)
        },
        Type::Mapping(_, _, _) => ident.generic_args.len() >= 2 && arg_prefix_fits(ident, 2, types, fuel),
        Type::Tuple(items) => {
            let mut i: usize = 0;
            assert(items@.take(0) =~= Seq::<TypeIdent>::empty());
            while i < items.len()
                invariant
                    i <= items@.len(),
                    *ty == Type::Tuple(*items),
                    ts_idents(items@.take(i as int), types@, fuel as nat) is Some,
                decreases items@.len() - i,
            {
                let ghost t = items@.take(i as int + 1);
                assert(t.drop_last() =~= items@.take(i as int));
                assert(t.last() == items@[i as int]);
                if !ident_fits(&items[i], types, fuel) {
                    proof {
                        lemma_ts_idents_stuck(items@, types@, fuel as nat, i as int + 1, items@.len() as int);
                        assert(items@.take(items@.len() as int) =~= items@);
                    }
                    return false;
                }
                i = i + 1;
            }
            assert(items@.take(items@.len() as int) =~= items@);
            true
        },
        _ => true,
    }
}

/// Whether the TypeScript runtime writes `ident` within `fuel` unfoldings
/// of the map.
pub open spec fn ident_within(ident: TypeIdent, types: Seq<(TypeIdent, Type)>, fuel: nat) -> bool {
    ts_ident(ident, types, fuel) is Some
}

/// Whether the TypeScript runtime writes the fields `fields`, writing their
/// identifiers within `fuel` unfoldings of the map.
pub open spec fn ts_fields_within(fields: Seq<Field>, types: Seq<(TypeIdent, Type)>, fuel: nat) -> bool {
    forall|i: int| 0 <= i < fields.len() ==> {
        &&& field_named(#[trigger] fields[i])
        &&& match lookup(types, fields[i].ty) {
            Some(Type::Container(_, _)) => fields[i].ty.generic_args@.len() > 0
                && ident_within(fields[i].ty.generic_args@[0].0, types, fuel),
            _ => ident_within(fields[i].ty, types, fuel),
        }
    }
}

/// Whether the TypeScript runtime defines `ty`, writing its identifiers
/// within `fuel` unfoldings of the map.
pub open spec fn ts_type_def_within(ty: Type, types: Seq<(TypeIdent, Type)>, fuel: nat) -> bool {
    match ty {
        Type::Alias(_, t) => ident_within(t, types, fuel),
        Type::Enum(e) => forall|i: int| 0 <= i < e.variants@.len() ==> match (#[trigger] e.variants@[i]).ty {
            Type::Unit => true,
            Type::Struct(s) => ts_fields_within(s.fields@, types, fuel),
            Type::Tuple(items) => items@.len() == 1 && ident_within(items@[0], types, fuel),
            _ => false,
        },
        Type::Struct(s) => ts_fields_within(s.fields@, types, fuel),
        _ => true,
    }
}

/// Whether the TypeScript runtime writes the signature of `f` within `fuel`
/// unfoldings of the map.
pub open spec fn ts_signature_within(f: Function, types: Seq<(TypeIdent, Type)>, fuel: nat) -> bool {
    &&& forall|i: int| 0 <= i < f.args@.len() ==> ident_within(#[trigger] f.args@[i].ty, types, fuel)
    &&& match f.return_type {
        Some(t) => ident_within(t, types, fuel),
        None => true,
    }
}

/// Whether the TypeScript runtime writes its files for the functions and
/// types, with every identifier written within `fuel` unfoldings of the
/// map.
pub open spec fn ts_runtime_within(
    imports: Seq<Function>,
    exports: Seq<Function>,
    types: Seq<(TypeIdent, Type)>,
    fuel: nat,
) -> bool {
    &&& forall|i: int| 0 <= i < types.len() ==> ts_type_def_within(#[trigger] types[i].1, types, fuel)
    &&& forall|i: int| 0 <= i < imports.len() ==> ts_signature_within(#[trigger] imports[i], types, fuel)
    &&& forall|i: int| 0 <= i < exports.len() ==> ts_signature_within(#[trigger] exports[i], types, fuel)
}

proof fn lemma_fits_text(ident: TypeIdent, types: Seq<(TypeIdent, Type)>, fuel: nat)
    requires
        ts_ident(ident, types, fuel) is Some,
    ensures
        ts_ident_text(ident, types) is Some,
{
}

proof fn lemma_fields_within(fields: Seq<Field>, types: Seq<(TypeIdent, Type)>, fuel: nat)
    requires
        ts_fields_within(fields, types, fuel),
    ensures
        ts_fields_formattable(fields, types),
{
    assert forall|i: int| 0 <= i < fields.len() implies {
        &&& field_named(#[trigger] fields[i])
        &&& match lookup(types, fields[i].ty) {
            Some(Type::Container(_, _)) => fields[i].ty.generic_args@.len() > 0
                && ts_ident_text(fields[i].ty.generic_args@[0].0, types) is Some,
            _ => ts_ident_text(fields[i].ty, types) is Some,
        }
    } by {
        assert(field_named(fields[i]));
        match lookup(types, fields[i].ty) {
            Some(Type::Container(_, _)) => {
                lemma_fits_text(fields[i].ty.generic_args@[0].0, types, fuel);
            },
            _ => {
                lemma_fits_text(fields[i].ty, types, fuel);
            },
        }
    }
}

proof fn lemma_signature_within(f: Function, types: Seq<(TypeIdent, Type)>, fuel: nat)
    requires
        ts_signature_within(f, types, fuel),
    ensures
        ts_signature_ok(f, types),
        args_form_ok(ArgForm::Import, f.args@, types),
{
    assert forall|k: int| 0 <= k < f.args@.len() implies arg_form_ok(ArgForm::Declared, #[trigger] f.args@[k], types) by {
        lemma_fits_text(f.args@[k].ty, types, fuel);
    }
    assert forall|k: int| 0 <= k < f.args@.len() implies arg_form_ok(ArgForm::Import, #[trigger] f.args@[k], types) by {
        lemma_fits_text(f.args@[k].ty, types, fuel);
    }
    if let Some(t) = f.return_type {
        lemma_fits_text(t, types, fuel);
    }
}

/// What is written within some number of unfoldings of the map can be
/// written: files that the TypeScript runtime writes within `fuel`
/// unfoldings are files it can write.
pub proof fn lemma_ts_runtime_within(
    imports: Seq<Function>,
    exports: Seq<Function>,
    types: Seq<(TypeIdent, Type)>,
    fuel: nat,
)
    requires
        ts_runtime_within(imports, exports, types, fuel),
    ensures
        ts_types_formattable(types),
        ts_runtime_formattable(imports, exports, types),
{
    assert forall|i: int| 0 <= i < types.len() implies ts_type_def_formattable(#[trigger] types[i].1, types) by {
        assert(ts_type_def_within(types[i].1, types, fuel));
        match types[i].1 {
            Type::Alias(_, t) => {
                lemma_fits_text(t, types, fuel);
            },
            Type::Enum(e) => {
                assert forall|j: int| 0 <= j < e.variants@.len() implies match (#[trigger] e.variants@[j]).ty {
                    Type::Unit => true,
                    Type::Struct(s) => ts_fields_formattable(s.fields@, types),
                    Type::Tuple(items) => items@.len() == 1 && ts_ident_text(items@[0], types) is Some,
                    _ => false,
                } by {
                    match e.variants@[j].ty {
                        Type::Struct(s) => {
                            lemma_fields_within(s.fields@, types, fuel);
                        },
                        Type::Tuple(items) => {
                            lemma_fits_text(items@[0], types, fuel);
                        },
                        _ => {},
                    }
                }
            },
            Type::Struct(s) => {
                lemma_fields_within(s.fields@, types, fuel);
            },
            _ => {},
        }
    }
    assert forall|i: int| 0 <= i < imports.len() implies ts_signature_ok(#[trigger] imports[i], types) by {
        lemma_signature_within(imports[i], types, fuel);
    }
    assert forall|i: int| 0 <= i < imports.len() implies args_form_ok(ArgForm::Import, (#[trigger] imports[i]).args@, types) by {
        lemma_signature_within(imports[i], types, fuel);
    }
    assert forall|i: int| 0 <= i < exports.len() implies ts_signature_ok(#[trigger] exports[i], types) by {
        lemma_signature_within(exports[i], types, fuel);
    }
}

fn fields_fit(fields: &Vec<Field>, types: &TypeMap, fuel: u64) -> (res: bool)
    ensures
        res == ts_fields_within(fields@, types@, fuel as nat),
{
    let mut i: usize = 0;
    while i < fields.len()
        invariant
            i <= fields@.len(),
            forall|k: int| 0 <= k < i ==> {
                &&& field_named(#[trigger] fields@[k])
                &&& match lookup(types@, fields@[k].ty) {
                    Some(Type::Container(_, _)) => fields@[k].ty.generic_args@.len() > 0
                        && ident_within(fields@[k].ty.generic_args@[0].0, types@, fuel as nat),
                    _ => ident_within(fields@[k].ty, types@, fuel as nat),
                }
            },
        decreases fields@.len() - i,
    {
        let f = &fields[i];
        if !(f.attrs.rename.is_some() || f.name.is_some()) {
            return false;
        }
        let ok = match types.get(&f.ty) {
            Some(Type::Container(_, _)) => f.ty.generic_args.len() > 0 && ident_fits(&f.ty.generic_args[0].0, types, fuel),
            _ => ident_fits(&f.ty, types, fuel),
        };
        if !ok {
            return false;
        }
        i = i + 1;
    }
    true
}

fn type_def_fits(ty: &Type, types: &TypeMap, fuel: u64) -> (res: bool)
    ensures
        res == ts_type_def_within(*ty, types@, fuel as nat),
{
    match ty {
        Type::Alias(_, t) => ident_fits(t, types, fuel),
        Type::Struct(s) => fields_fit(&s.fields, types, fuel),
        Type::Enum(e) => {
            let variants = &e.variants;
            let mut i: usize = 0;
            while i < variants.len()
                invariant
                    i <= variants@.len(),
                    *ty == Type::Enum(*e),
                    *variants == e.variants,
                    forall|k: int| 0 <= k < i ==> match (#[trigger] variants@[k]).ty {
                        Type::Unit => true,
                        Type::Struct(s) => ts_fields_within(s.fields@, types@, fuel as nat),
                        Type::Tuple(items) => items@.len() == 1 && ident_within(items@[0], types@, fuel as nat),
                        _ => false,
                    },
                decreases variants@.len() - i,
            {
                let ok = match &variants[i].ty {
                    Type::Unit => true,
                    Type::Struct(s) => fields_fit(&s.fields, types, fuel),
                    Type::Tuple(items) => items.len() == 1 && ident_fits(&items[0], types, fuel),
                    _ => false,
                };
                if !ok {
                    return false;
                }
                i = i + 1;
            }
            true
        },
        _ => true,
    }
}

fn signatures_fit(functions: &FunctionList, types: &TypeMap, fuel: u64) -> (res: bool)
    ensures
        res == forall|i: int| 0 <= i < functions@.len() ==> ts_signature_within(#[trigger] functions@[i], types@, fuel as nat),
{
    let fs = functions.iter();
    let mut i: usize = 0;
    while i < fs.len()
        invariant
            i <= fs@.len(),
            fs@ == functions@,
            forall|k: int| 0 <= k < i ==> ts_signature_within(#[trigger] fs@[k], types@, fuel as nat),
        decreases fs@.len() - i,
    {
        let f = &fs[i];
        let mut j: usize = 0;
        while j < f.args.len()
            invariant
                j <= f.args@.len(),
                i < fs@.len(),
                fs@ == functions@,
                *f == fs@[i as int],
                forall|k: int| 0 <= k < j ==> ident_within((#[trigger] f.args@[k]).ty, types@, fuel as nat),
            decreases f.args@.len() - j,
        {
            if !ident_fits(&f.args[j].ty, types, fuel) {
                assert(!ts_signature_within(functions@[i as int], types@, fuel as nat));
                return false;
            }
            j = j + 1;
        }
        let ret_ok = match &f.return_type {
            Some(t) => ident_fits(t, types, fuel),
            None => true,
        };
        if !ret_ok {
            assert(!ts_signature_within(functions@[i as int], types@, fuel as nat));
            return false;
        }
        i = i + 1;
    }
    true
}

/// Whether the TypeScript runtime can write the types of `types` and the
/// functions of both lists, with every identifier written within `fuel`
/// unfoldings of the map of types.
pub fn runtime_writable(import_functions: &FunctionList, export_functions: &FunctionList, types: &TypeMap, fuel: u64) -> (res: bool)
    ensures
        res == ts_runtime_within(import_functions@, export_functions@, types@, fuel as nat),
        res ==> ts_types_formattable(types@) && ts_runtime_formattable(import_functions@, export_functions@, types@),
{
    let mut i: usize = 0;
    while i < types.len()
        invariant
            i <= types@.len(),
            forall|k: int| 0 <= k < i ==> ts_type_def_within(#[trigger] types@[k].1, types@, fuel as nat),
        decreases types@.len() - i,
    {
        let (_, ty) = types.entry_at(i);
        if !type_def_fits(ty, types, fuel) {
            return false;
        }
        i = i + 1;
    }
    let res = signatures_fit(import_functions, types, fuel) && signatures_fit(export_functions, types, fuel);
    proof {
        if res {
            lemma_ts_runtime_within(import_functions@, export_functions@, types@, fuel as nat);
        }
    }
    res
}


proof fn lemma_somes_all(s: Seq<Option<Seq<char>>>)
    requires
        forall|i: int| 0 <= i < s.len() ==> (#[trigger] s[i]) is Some,
    ensures
        somes(s).len() == s.len(),
        forall|i: int| 0 <= i < s.len() ==> #[trigger] somes(s)[i] == s[i].unwrap(),
    decreases s.len(),
{
    if s.len() > 0 {
        let d = s.drop_last();
        assert forall|i: int| 0 <= i < d.len() implies (#[trigger] d[i]) is Some by {
            assert(d[i] == s[i]);
        }
        lemma_somes_all(d);
        assert(s.last() is Some);
        assert forall|i: int| 0 <= i < s.len() implies #[trigger] somes(s)[i] == s[i].unwrap() by {
            if i < s.len() - 1 {
                assert(d[i] == s[i]);
            }
        }
    }
}

proof fn lemma_somes_contains(s: Seq<Option<Seq<char>>>, i: int)
    requires
        0 <= i < s.len(),
        s[i] is Some,
    ensures
        somes(s).contains(s[i].unwrap()),
    decreases s.len(),
{
    let d = s.drop_last();
    if i < s.len() - 1 {
        assert(d[i] == s[i]);
        lemma_somes_contains(d, i);
        let k = choose|k: int| 0 <= k < somes(d).len() && somes(d)[k] == s[i].unwrap();
        match s.last() {
            Some(t) => {
                assert(somes(s) == somes(d).push(t));
                assert(somes(s)[k] == somes(d)[k]);
            },
            None => {},
        }
    } else {
        assert(somes(s) == somes(d).push(s[i].unwrap()));
        assert(somes(s)[somes(d).len() as int] == s[i].unwrap());
    }
}

/// What a wrapper passes to the exported function for one argument: the
/// argument itself (by its camel-cased name) where it is a primitive, which
/// is then neither serialized nor copied; otherwise exactly the pointer
/// variable `<name>_ptr` that the wrapper's serialization of the argument
/// declares, with `serializeObject` in a wrapper and `exportToMemory` in a
/// raw wrapper.
pub proof fn lemma_call_passes_serialized_pointer(a: FunctionArg, types: Seq<(TypeIdent, Type)>)
    ensures
        arg_form_text(ArgForm::Call, a, types) is Some,
        ident_is_primitive(a.ty) ==> {
            &&& arg_form_text(ArgForm::Call, a, types) == Some(camel_case_of(a.name@))
            &&& arg_form_text(ArgForm::Export, a, types) is None
            &&& arg_form_text(ArgForm::RawExport, a, types) is None
        },
        !ident_is_primitive(a.ty) ==> {
            &&& arg_form_text(ArgForm::Call, a, types) == Some(a.name@ + "_ptr"@)
            &&& arg_form_text(ArgForm::Export, a, types) == Some("const "@
                + arg_form_text(ArgForm::Call, a, types).unwrap() + " = serializeObject("@ + camel_case_of(a.name@) + ");"@)
            &&& arg_form_text(ArgForm::RawExport, a, types) == Some("const "@
                + arg_form_text(ArgForm::Call, a, types).unwrap() + " = exportToMemory("@ + camel_case_of(a.name@) + ");"@)
        },
{
    reveal_strlit("const ");
    reveal_strlit(" = serializeObject(");
    reveal_strlit("_ptr = serializeObject(");
    reveal_strlit(" = exportToMemory(");
    reveal_strlit("_ptr = exportToMemory(");
    reveal_strlit("_ptr");
    let camel = camel_case_of(a.name@);
    if !ident_is_primitive(a.ty) {
        assert("const "@ + a.name@ + "_ptr = serializeObject("@ + camel + ");"@
            =~= "const "@ + (a.name@ + "_ptr"@) + " = serializeObject("@ + camel + ");"@);
        assert("const "@ + a.name@ + "_ptr = exportToMemory("@ + camel + ");"@
            =~= "const "@ + (a.name@ + "_ptr"@) + " = exportToMemory("@ + camel + ");"@);
    }
}

/// In a wrapper, the arguments of the call of the exported function stand
/// one for one for the function's arguments, in order; each one that is no
/// primitive is the pointer variable declared by one of the wrapper's
/// serialization statements (`serializeObject` in a wrapper,
/// `exportToMemory` in a raw wrapper), and each primitive one is passed as
/// itself.
pub proof fn lemma_wrapper_call_args(args: Seq<FunctionArg>, types: Seq<(TypeIdent, Type)>)
    ensures
        args_in_form(ArgForm::Call, args, types).len() == args.len(),
        forall|i: int| 0 <= i < args.len() && ident_is_primitive(args[i].ty)
            ==> #[trigger] args_in_form(ArgForm::Call, args, types)[i] == camel_case_of(args[i].name@),
        forall|i: int| 0 <= i < args.len() && !ident_is_primitive(args[i].ty) ==> {
            &&& args_in_form(ArgForm::Export, args, types).contains("const "@
                + #[trigger] args_in_form(ArgForm::Call, args, types)[i] + " = serializeObject("@ + camel_case_of(args[i].name@) + ");"@)
            &&& args_in_form(ArgForm::RawExport, args, types).contains("const "@
                + args_in_form(ArgForm::Call, args, types)[i] + " = exportToMemory("@ + camel_case_of(args[i].name@) + ");"@)
        },
{
    let calls = args.map_values(|a: FunctionArg| arg_form_text(ArgForm::Call, a, types));
    let exports = args.map_values(|a: FunctionArg| arg_form_text(ArgForm::Export, a, types));
    let raws = args.map_values(|a: FunctionArg| arg_form_text(ArgForm::RawExport, a, types));
    assert forall|i: int| 0 <= i < calls.len() implies (#[trigger] calls[i]) is Some by {
        lemma_call_passes_serialized_pointer(args[i], types);
    }
    lemma_somes_all(calls);
    assert forall|i: int| 0 <= i < args.len() && ident_is_primitive(args[i].ty)
        implies #[trigger] args_in_form(ArgForm::Call, args, types)[i] == camel_case_of(args[i].name@) by {
        lemma_call_passes_serialized_pointer(args[i], types);
        assert(calls[i] == arg_form_text(ArgForm::Call, args[i], types));
    }
    assert forall|i: int| 0 <= i < args.len() && !ident_is_primitive(args[i].ty) implies {
        &&& args_in_form(ArgForm::Export, args, types).contains("const "@
            + #[trigger] args_in_form(ArgForm::Call, args, types)[i] + " = serializeObject("@ + camel_case_of(args[i].name@) + ");"@)
        &&& args_in_form(ArgForm::RawExport, args, types).contains("const "@
            + args_in_form(ArgForm::Call, args, types)[i] + " = exportToMemory("@ + camel_case_of(args[i].name@) + ");"@)
    } by {
        lemma_call_passes_serialized_pointer(args[i], types);
        assert(calls[i] == arg_form_text(ArgForm::Call, args[i], types));
        assert(exports[i] == arg_form_text(ArgForm::Export, args[i], types));
        assert(raws[i] == arg_form_text(ArgForm::RawExport, args[i], types));
        lemma_somes_contains(exports, i);
        lemma_somes_contains(raws, i);
    }
}


proof fn lemma_ts_ident_step(ident: TypeIdent, types: Seq<(TypeIdent, Type)>, fuel: nat)
    requires
        ts_ident(ident, types, fuel) is Some,
    ensures
        ts_ident(ident, types, fuel + 1) == ts_ident(ident, types, fuel),
    decreases fuel, 0nat, 0nat,
{
    if fuel > 0 {
        match lookup(types, ident) {
            Some(ty) => lemma_ts_type_step(ty, ident, types, (fuel - 1) as nat),
            None => {},
        }
    }
}

proof fn lemma_ts_idents_step(items: Seq<TypeIdent>, types: Seq<(TypeIdent, Type)>, fuel: nat)
    requires
        ts_idents(items, types, fuel) is Some,
    ensures
        ts_idents(items, types, fuel + 1) == ts_idents(items, types, fuel),
    decreases fuel, 1nat, items.len(),
{
    if items.len() > 0 {
        lemma_ts_idents_step(items.drop_last(), types, fuel);
        lemma_ts_ident_step(items.last(), types, fuel);
    }
}

proof fn lemma_ts_type_step(ty: Type, ident: TypeIdent, types: Seq<(TypeIdent, Type)>, fuel: nat)
    requires
        ts_type_with_ident(ty, ident, types, fuel) is Some,
    ensures
        ts_type_with_ident(ty, ident, types, fuel + 1) == ts_type_with_ident(ty, ident, types, fuel),
    decreases fuel, 2nat, 0nat,
{
    let args = arg_idents(ident.generic_args@);
    match ty {
        Type::Container(_, _) => if args.len() > 0 { lemma_ts_idents_step(args.take(1), types, fuel); },
        Type::Enum(_) | Type::Struct(_) => lemma_ts_idents_step(args, types, fuel),
        Type::List(_, _) => if args.len() > 0 { lemma_ts_idents_step(args.take(1), types, fuel); },
        Type::Mapping(_, _, _) => if args.len() >= 2 { lemma_ts_idents_step(args.take(2), types, fuel); },
        Type::Tuple(items) => lemma_ts_idents_step(items@, types, fuel),
        _ => {},
    }
}

/// More unfoldings of the map never change an identifier's text once it is
/// written.
proof fn lemma_ts_ident_more_fuel(ident: TypeIdent, types: Seq<(TypeIdent, Type)>, f: nat, g: nat)
    requires
        ts_ident(ident, types, f) is Some,
        f <= g,
    ensures
        ts_ident(ident, types, g) == ts_ident(ident, types, f),
    decreases g - f,
{
    if f < g {
        lemma_ts_ident_more_fuel(ident, types, f, (g - 1) as nat);
        lemma_ts_ident_step(ident, types, (g - 1) as nat);
    }
}

/// The text of an identifier is the one any sufficient number of
/// unfoldings gives.
proof fn lemma_ts_ident_text_at(ident: TypeIdent, types: Seq<(TypeIdent, Type)>, f: nat)
    requires
        ts_ident(ident, types, f) is Some,
    ensures
        ts_ident_text(ident, types) == ts_ident(ident, types, f),
{
    let g = choose|g: nat| #[trigger] ts_ident(ident, types, g) is Some;
    assert(ts_ident(ident, types, g) is Some);
    if f <= g {
        lemma_ts_ident_more_fuel(ident, types, f, g);
    } else {
        lemma_ts_ident_more_fuel(ident, types, g, f);
    }
}

/// A map type in the TypeScript runtime: an identifier that the map of types
/// holds as a mapping is written `Record<K, V>`, with the text of its first
/// generic argument (the key) as `K` and that of its second (the value) as
/// `V`; so `HashMap<String, u32>` is written `Record<string, number>`.
pub proof fn lemma_mapping_is_record_of_key_and_value(ident: TypeIdent, types: Seq<(TypeIdent, Type)>)
    requires
        lookup(types, ident) matches Some(Type::Mapping(_, _, _)),
        ident.generic_args@.len() >= 2,
        ts_ident_text(ident.generic_args@[0].0, types) is Some,
        ts_ident_text(ident.generic_args@[1].0, types) is Some,
    ensures
        ts_ident_text(ident, types) == Some("Record<"@ + ts_ident_text(ident.generic_args@[0].0, types).unwrap()
            + ", "@ + ts_ident_text(ident.generic_args@[1].0, types).unwrap() + ">"@),
{
    let key = ident.generic_args@[0].0;
    let value = ident.generic_args@[1].0;
    let fk = choose|f: nat| #[trigger] ts_ident(key, types, f) is Some;
    let fv = choose|f: nat| #[trigger] ts_ident(value, types, f) is Some;
    assert(ts_ident(key, types, fk) is Some);
    assert(ts_ident(value, types, fv) is Some);
    let f: nat = if fk <= fv { fv } else { fk };
    lemma_ts_ident_more_fuel(key, types, fk, f);
    lemma_ts_ident_more_fuel(value, types, fv, f);
    lemma_ts_ident_text_at(key, types, f);
    lemma_ts_ident_text_at(value, types, f);
    let args = arg_idents(ident.generic_args@);
    let two = args.take(2);
    assert(two[0] == key && two[1] == value);
    assert(two.drop_last().drop_last() =~= Seq::<TypeIdent>::empty());
    assert(two.drop_last().last() == key);
    let one = two.drop_last();
    assert(one.len() == 1);
    assert(ts_idents(one.drop_last(), types, f) == Some(Seq::<Seq<char>>::empty()));
    assert(ts_idents(one, types, f) == Some(Seq::<Seq<char>>::empty().push(ts_ident(key, types, f).unwrap())));
    assert(Seq::<Seq<char>>::empty().push(ts_ident(key, types, f).unwrap()) =~= seq![ts_ident(key, types, f).unwrap()]);
    assert(ts_idents(two.drop_last(), types, f) == Some(seq![ts_ident(key, types, f).unwrap()]));
    assert(ts_idents(two, types, f) == Some(seq![ts_ident(key, types, f).unwrap(), ts_ident(value, types, f).unwrap()]));
    let ty = lookup(types, ident).unwrap();
    assert(ts_ident(ident, types, f + 1) == ts_type_with_ident(ty, ident, types, f));
    lemma_ts_ident_text_at(ident, types, f + 1);
}


proof fn lemma_ts_idents_more_fuel(items: Seq<TypeIdent>, types: Seq<(TypeIdent, Type)>, f: nat, g: nat)
    requires
        ts_idents(items, types, f) is Some,
        f <= g,
    ensures
        ts_idents(items, types, g) == ts_idents(items, types, f),
    decreases g - f,
{
    if f < g {
        lemma_ts_idents_more_fuel(items, types, f, (g - 1) as nat);
        lemma_ts_idents_step(items, types, (g - 1) as nat);
    }
}

/// The texts of identifiers, each written in its own right.
pub open spec fn ts_texts(items: Seq<TypeIdent>, types: Seq<(TypeIdent, Type)>) -> Seq<Seq<char>> {
    items.map_values(|x: TypeIdent| ts_ident_text(x, types).unwrap())
}

/// Identifiers that can each be written are written together, within
/// enough unfoldings of the map, as each is on its own.
proof fn lemma_ts_idents_fuel(items: Seq<TypeIdent>, types: Seq<(TypeIdent, Type)>) -> (f: nat)
    requires
        forall|i: int| 0 <= i < items.len() ==> (#[trigger] ts_ident_text(items[i], types)) is Some,
    ensures
        ts_idents(items, types, f) == Some(ts_texts(items, types)),
    decreases items.len(),
{
    if items.len() == 0 {
        assert(ts_texts(items, types) =~= Seq::<Seq<char>>::empty());
        0
    } else {
        let d = items.drop_last();
        assert forall|i: int| 0 <= i < d.len() implies (#[trigger] ts_ident_text(d[i], types)) is Some by {
            assert(d[i] == items[i]);
        }
        let fd = lemma_ts_idents_fuel(d, types);
        let last = items.last();
        assert(ts_ident_text(items[items.len() - 1], types) is Some);
        let fl = choose|f: nat| #[trigger] ts_ident(last, types, f) is Some;
        assert(ts_ident(last, types, fl) is Some);
        let f: nat = if fd <= fl { fl } else { fd };
        lemma_ts_idents_more_fuel(d, types, fd, f);
        lemma_ts_ident_more_fuel(last, types, fl, f);
        lemma_ts_ident_text_at(last, types, f);
        assert(ts_texts(items, types) =~= ts_texts(d, types).push(ts_ident_text(last, types).unwrap()));
        f
    }
}

/// How the TypeScript runtime writes an identifier, by the kind of type the
/// map holds for it, from the texts of its generic arguments (or of a
/// tuple's items): a primitive as `boolean`, `bigint` (for 64-bit integers)
/// or `number`; a string as `string`; the unit type as `void`; a list as
/// `Array<T>`; an `Option` as `T | null` and any other container as `T`; a
/// struct or enum by its name with its arguments in angle brackets; a tuple
/// as `[A, B, ...]`; an alias by its name and a custom type by its
/// TypeScript type. An identifier the map does not hold is written as it is.
pub proof fn lemma_ts_text_by_kind(ident: TypeIdent, types: Seq<(TypeIdent, Type)>)
    requires
        forall|i: int| 0 <= i < ident.generic_args@.len() ==> (#[trigger] ts_ident_text(ident.generic_args@[i].0, types)) is Some,
        lookup(types, ident) matches Some(Type::Tuple(items)) ==>
            forall|i: int| 0 <= i < items@.len() ==> (#[trigger] ts_ident_text(items@[i], types)) is Some,
    ensures
        ({
            let args = ts_texts(arg_idents(ident.generic_args@), types);
            match lookup(types, ident) {
                None => ts_ident_text(ident, types) == Some(format_view(ident@, true)),
                Some(Type::Primitive(p)) => ts_ident_text(ident, types) == Some(
                    if p == Primitive::Bool { "boolean"@ }
                    else if p == Primitive::I64 || p == Primitive::U64 { "bigint"@ }
                    else { "number"@ }),
                Some(Type::String) => ts_ident_text(ident, types) == Some("string"@),
                Some(Type::Unit) => ts_ident_text(ident, types) == Some("void"@),
                Some(Type::Alias(name, _)) => ts_ident_text(ident, types) == Some(name@),
                Some(Type::Custom(c)) => ts_ident_text(ident, types) == Some(c.ts_ty@),
                Some(Type::List(_, _)) => args.len() > 0 ==> ts_ident_text(ident, types) == Some("Array<"@ + args[0] + ">"@),
                Some(Type::Container(name, _)) => args.len() > 0 ==> ts_ident_text(ident, types) == Some(
                    if name@ == "Option"@ { args[0] + " | null"@ } else { args[0] }),
                Some(Type::Mapping(_, _, _)) => args.len() > 1 ==> ts_ident_text(ident, types) == Some(
                    "Record<"@ + args[0] + ", "@ + args[1] + ">"@),
                Some(Type::Struct(_)) => ts_ident_text(ident, types) == Some(
                    if args.len() == 0 { ident.name@ } else { ident.name@ + "<"@ + join(args, ", "@) + ">"@ }),
                Some(Type::Enum(_)) => ts_ident_text(ident, types) == Some(
                    if args.len() == 0 { ident.name@ } else { ident.name@ + "<"@ + join(args, ", "@) + ">"@ }),
                Some(Type::Tuple(items)) => ts_ident_text(ident, types) == Some(
                    "["@ + join(ts_texts(items@, types), ", "@) + "]"@),
            }
        }),
{
    let all = arg_idents(ident.generic_args@);
    assert forall|i: int| 0 <= i < all.len() implies (#[trigger] ts_ident_text(all[i], types)) is Some by {
        assert(all[i] == ident.generic_args@[i].0);
    }
    let fa = lemma_ts_idents_fuel(all, types);
    match lookup(types, ident) {
        None => {
            lemma_ts_ident_text_at(ident, types, 1);
        },
        Some(ty) => {
            let mut f = fa;
            match ty {
                Type::Tuple(items) => {
                    let fi = lemma_ts_idents_fuel(items@, types);
                    if fa < fi {
                        lemma_ts_idents_more_fuel(all, types, fa, fi);
                        f = fi;
                    } else {
                        lemma_ts_idents_more_fuel(items@, types, fi, fa);
                    }
                },
                _ => {},
            }
            assert(ts_idents(all, types, f) == Some(ts_texts(all, types)));
            let args = ts_texts(all, types);
            if all.len() > 0 {
                lemma_ts_idents_prefix(all, types, f, 0);
                assert(all.take(0) =~= Seq::<TypeIdent>::empty());
                lemma_ts_ident_text_at(all[0], types, f);
                assert(args[0] == ts_ident_text(all[0], types).unwrap());
                assert(Seq::<Seq<char>>::empty().push(args[0]) =~= seq![args[0]]);
                assert(ts_idents(all.take(1), types, f) == Some(seq![args[0]]));
            }
            if all.len() > 1 {
                lemma_ts_idents_prefix(all, types, f, 1);
                lemma_ts_ident_text_at(all[1], types, f);
                assert(args[1] == ts_ident_text(all[1], types).unwrap());
                assert(seq![args[0]].push(args[1]) =~= seq![args[0], args[1]]);
                assert(ts_idents(all.take(2), types, f) == Some(seq![args[0], args[1]]));
            }
            match ty {
                Type::Primitive(p) => {
                    reveal_strlit("boolean");
                    reveal_strlit("bigint");
                    reveal_strlit("number");
                },
                _ => {},
            }
            if ts_type_with_ident(ty, ident, types, f) is Some {
                lemma_ts_ident_text_at(ident, types, f + 1);
            }
        },
    }
}


/// In an import wrapper, an argument that is no primitive arrives as the
/// fat-pointer parameter `<name>_ptr`, and the wrapper parses exactly that
/// parameter into a constant named like the argument, of the argument's
/// TypeScript type; a primitive argument arrives as itself, typed by its
/// TypeScript primitive, and is not parsed. A declared argument is its
/// camel-cased name with its TypeScript type.
pub proof fn lemma_import_parses_pointer_param(a: FunctionArg, types: Seq<(TypeIdent, Type)>)
    ensures
        primitive_from_name(a.ty.name@) is None ==> {
            &&& arg_form_text(ArgForm::Pointer, a, types) == Some(a.name@ + "_ptr"@ + ": FatPtr"@)
            &&& arg_form_text(ArgForm::Import, a, types) == Some("const "@ + camel_case_of(a.name@)
                + " = parseObject<"@ + ts_ident_text(a.ty, types).unwrap() + ">("@ + (a.name@ + "_ptr"@) + ");"@)
        },
        ident_is_primitive(a.ty) ==> {
            &&& arg_form_text(ArgForm::Pointer, a, types) == Some(camel_case_of(a.name@) + ": "@
                + ts_primitive(primitive_from_name(a.ty.name@).unwrap()))
            &&& arg_form_text(ArgForm::Import, a, types) is None
        },
        arg_form_text(ArgForm::Declared, a, types) == Some(camel_case_of(a.name@) + ": "@ + ts_ident_text(a.ty, types).unwrap()),
{
    reveal_strlit("_ptr: FatPtr");
    reveal_strlit("_ptr");
    reveal_strlit(": FatPtr");
    reveal_strlit(">(");
    reveal_strlit("_ptr);");
    reveal_strlit(");");
    let camel = camel_case_of(a.name@);
    assert(a.name@ + "_ptr: FatPtr"@ =~= a.name@ + "_ptr"@ + ": FatPtr"@);
    if primitive_from_name(a.ty.name@) is None {
        let t = ts_ident_text(a.ty, types).unwrap();
        assert("const "@ + camel + " = parseObject<"@ + t + ">("@ + a.name@ + "_ptr);"@
            =~= "const "@ + camel + " = parseObject<"@ + t + ">("@ + (a.name@ + "_ptr"@) + ");"@);
    }
}

} // verus!
