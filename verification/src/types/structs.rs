use vstd::prelude::*;
use crate::casing::{casing_from_name, casing_name, Casing};
use crate::text::{chars_eq, chars_of, str_eq, str_views};
use super::TypeIdent;
use super::attrs::{
    clone_opt, entries_view, entry_view, is_options_attr, literal_value, opt_view, options_attr,
    push_str_to, serde_pair, serde_pair_string, trim_quotes, AttrEntry, Attribute,
};

verus! {

/// Options of a struct, read from its `#[fp(...)]` and `#[serde(...)]`
/// attributes.
#[derive(Debug, PartialEq, Eq, Hash)]
pub struct StructOptions {
    pub field_casing: Casing,
    /// Rust module path where the type can be found for the given generator.
    /// If present, the generator can use this type instead of generating it.
    pub rust_module: Option<String>,
}

/// The options of a struct, as plain values.
pub struct StructOptionsView {
    pub field_casing: Casing,
    pub rust_module: Option<Seq<char>>,
}

impl View for StructOptions {
    type V = StructOptionsView;

    open spec fn view(&self) -> StructOptionsView {
        StructOptionsView { field_casing: self.field_casing, rust_module: opt_view(self.rust_module) }
    }
}

pub open spec fn default_struct_options() -> StructOptionsView {
    StructOptionsView { field_casing: Casing::Original, rust_module: None }
}

pub open spec fn apply_struct_entry(o: StructOptionsView, e: (Seq<char>, Option<Seq<char>>)) -> Option<StructOptionsView> {
    let (key, value) = e;
    if key == "rename_all"@ {
        match value {
            Some(v) => match casing_from_name(trim_quotes(v)) {
                Some(c) => Some(StructOptionsView { field_casing: c, ..o }),
                None => None,
            },
            None => None,
        }
    } else if key == "rust_module"@ {
        match value {
            Some(v) => Some(StructOptionsView { rust_module: Some(trim_quotes(v)), ..o }),
            None => None,
        }
    } else {
        None
    }
}

pub open spec fn parse_struct_entries(es: Seq<(Seq<char>, Option<Seq<char>>)>) -> Option<StructOptionsView>
    decreases es.len(),
{
    if es.len() == 0 {
        Some(default_struct_options())
    } else {
        match parse_struct_entries(es.drop_last()) {
            Some(o) => apply_struct_entry(o, es.last()),
            None => None,
        }
    }
}

pub open spec fn merge_struct_options(a: StructOptionsView, b: StructOptionsView) -> StructOptionsView {
    StructOptionsView {
        field_casing: if b.field_casing != Casing::Original { b.field_casing } else { a.field_casing },
        rust_module: if b.rust_module is Some { b.rust_module } else { a.rust_module },
    }
}

pub open spec fn struct_attrs_readable(attrs: Seq<Attribute>) -> bool {
    forall|i: int| 0 <= i < attrs.len() && is_options_attr(#[trigger] attrs[i]) ==> {
        &&& attrs[i].entries is Some
        &&& parse_struct_entries(entries_view(attrs[i].entries.unwrap()@)) is Some
    }
}

pub open spec fn struct_options_of(attrs: Seq<Attribute>) -> StructOptionsView
    decreases attrs.len(),
{
    if attrs.len() == 0 {
        default_struct_options()
    } else if is_options_attr(attrs.last()) {
        merge_struct_options(
            struct_options_of(attrs.drop_last()),
            parse_struct_entries(entries_view(attrs.last().entries.unwrap()@)).unwrap(),
        )
    } else {
        struct_options_of(attrs.drop_last())
    }
}

pub open spec fn struct_serde_attrs(o: StructOptionsView) -> Seq<Seq<char>> {
    match casing_name(o.field_casing) {
        Some(n) => seq![serde_pair("rename_all"@, n)],
        None => Seq::empty(),
    }
}

proof fn lemma_struct_entries_none(es: Seq<(Seq<char>, Option<Seq<char>>)>, k: int)
    requires
        0 <= k <= es.len(),
        parse_struct_entries(es.take(k)) is None,
    ensures
        parse_struct_entries(es) is None,
    decreases es.len() - k,
{
    if k < es.len() {
        assert(es.take(k + 1).drop_last() =~= es.take(k));
        lemma_struct_entries_none(es, k + 1);
    } else {
        assert(es.take(k) =~= es);
    }
}

impl StructOptions {
    pub fn default() -> (res: Self)
        ensures
            res@ == default_struct_options(),
    {
        StructOptions { field_casing: Casing::Original, rust_module: None }
    }

    fn apply_entry(&mut self, e: &AttrEntry) -> (ok: bool)
        ensures
            match apply_struct_entry(old(self)@, entry_view(*e)) {
                Some(o) => ok && final(self)@ == o,
                None => !ok,
            },
    {
        let key = chars_of(e.key.as_str());
        if chars_eq(&key, "rename_all") {
            match &e.value {
                Some(v) => {
                    let name = literal_value(v);
                    match Casing::try_from(name.as_str()) {
                        Ok(c) => {
                            self.field_casing = c;
                            true
                        },
                        Err(_) => false,
                    }
                },
                None => false,
            }
        } else if chars_eq(&key, "rust_module") {
            match &e.value {
                Some(v) => {
                    self.rust_module = Some(literal_value(v));
                    true
                },
                None => false,
            }
        } else {
            false
        }
    }

    /// Reads struct options from the entries of one attribute; `None` where
    /// an entry is refused.
    pub fn parse(entries: &Vec<AttrEntry>) -> (res: Option<Self>)
        ensures
            match parse_struct_entries(entries_view(entries@)) {
                Some(o) => res matches Some(r) && r@ == o,
                None => res is None,
            },
    {
        let mut result = Self::default();
        let mut i: usize = 0;
        assert(entries_view(entries@).take(0) =~= Seq::<(Seq<char>, Option<Seq<char>>)>::empty());
        while i < entries.len()
            invariant
                i <= entries@.len(),
                parse_struct_entries(entries_view(entries@).take(i as int)) == Some(result@),
            decreases entries@.len() - i,
        {
            proof {
                let t = entries_view(entries@).take(i + 1);
                assert(t.drop_last() =~= entries_view(entries@).take(i as int));
                assert(t.last() == entry_view(entries@[i as int]));
            }
            if !result.apply_entry(&entries[i]) {
                proof {
                    lemma_struct_entries_none(entries_view(entries@), i as int + 1);
                }
                return None;
            }
            i = i + 1;
        }
        assert(entries_view(entries@).take(entries@.len() as int) =~= entries_view(entries@));
        Some(result)
    }

    fn merge_with(&mut self, other: &Self)
        ensures
            final(self)@ == merge_struct_options(old(self)@, other@),
    {
        if other.field_casing != Casing::Original {
            self.field_casing = other.field_casing;
        }
        if let Some(other_rust_module) = &other.rust_module {
            self.rust_module = Some(other_rust_module.clone());
        }
    }

    /// The struct options that `attrs` set.
    pub fn from_attrs(attrs: &[Attribute]) -> (res: Self)
        requires
            struct_attrs_readable(attrs@),
        ensures
            res@ == struct_options_of(attrs@),
    {
        let mut opts = Self::default();
        let mut i: usize = 0;
        while i < attrs.len()
            invariant
                i <= attrs@.len(),
                struct_attrs_readable(attrs@),
                opts@ == struct_options_of(attrs@.take(i as int)),
            decreases attrs@.len() - i,
        {
            proof {
                assert(attrs@.take(i + 1).drop_last() =~= attrs@.take(i as int));
                assert(attrs@.take(i + 1).last() == attrs@[i as int]);
            }
            let attr = &attrs[i];
            if options_attr(attr) {
                assert(is_options_attr(attrs@[i as int]));
                match &attr.entries {
                    Some(entries) => {
                        match Self::parse(entries) {
                            Some(parsed) => opts.merge_with(&parsed),
                            None => {},
                        }
                    },
                    None => {},
                }
            }
            i = i + 1;
        }
        assert(attrs@.take(attrs@.len() as int) =~= attrs@);
        opts
    }

    pub fn to_serde_attrs(&self) -> (res: Vec<String>)
        ensures
            str_views(res@) == struct_serde_attrs(self@),
    {
        let mut serde_attrs: Vec<String> = Vec::new();
        assert(str_views(serde_attrs@) =~= Seq::<Seq<char>>::empty());
        if let Some(casing) = self.field_casing.as_maybe_str() {
            push_str_to(&mut serde_attrs, serde_pair_string("rename_all", casing));
        }
        assert(str_views(serde_attrs@) =~= struct_serde_attrs(self@));
        serde_attrs
    }
}

/// Serde attributes of a struct field.
#[derive(Debug, PartialEq, Eq, Hash)]
pub struct FieldAttrs {
    /// Optional path to a function that will produce the default value in case
    /// the field is omitted from the serialized representation. An empty
    /// string stands for `Default::default`.
    pub default: Option<String>,
    /// Optional Serde dependency used for deserialization.
    pub deserialize_with: Option<String>,
    /// Determines whether the field should be flattened into the parent struct.
    pub flatten: bool,
    /// Optional name to use in the serialized format
    /// (only used if different than the field name itself).
    pub rename: Option<String>,
    /// Optional Serde dependency used for serialization.
    pub serialize_with: Option<String>,
    /// Optional path to a function to determine whether serialized should be
    /// skipped for a particular value.
    pub skip_serializing_if: Option<String>,
}

/// The attributes of a field, as plain values.
pub struct FieldAttrsView {
    pub default: Option<Seq<char>>,
    pub deserialize_with: Option<Seq<char>>,
    pub flatten: bool,
    pub rename: Option<Seq<char>>,
    pub serialize_with: Option<Seq<char>>,
    pub skip_serializing_if: Option<Seq<char>>,
}

impl View for FieldAttrs {
    type V = FieldAttrsView;

    open spec fn view(&self) -> FieldAttrsView {
        FieldAttrsView {
            default: opt_view(self.default),
            deserialize_with: opt_view(self.deserialize_with),
            flatten: self.flatten,
            rename: opt_view(self.rename),
            serialize_with: opt_view(self.serialize_with),
            skip_serializing_if: opt_view(self.skip_serializing_if),
        }
    }
}

pub open spec fn default_field_attrs() -> FieldAttrsView {
    FieldAttrsView {
        default: None,
        deserialize_with: None,
        flatten: false,
        rename: None,
        serialize_with: None,
        skip_serializing_if: None,
    }
}

pub open spec fn apply_field_entry(o: FieldAttrsView, e: (Seq<char>, Option<Seq<char>>)) -> Option<FieldAttrsView> {
    let (key, value) = e;
    if key == "default"@ {
        Some(FieldAttrsView {
            default: Some(match value {
                Some(v) => trim_quotes(v),
                None => Seq::empty(),
            }),
            ..o
        })
    } else if key == "flatten"@ {
        match value {
            Some(_) => None,
            None => Some(FieldAttrsView { flatten: true, ..o }),
        }
    } else {
        match value {
            None => None,
            Some(v) => {
                let t = trim_quotes(v);
                if key == "deserialize_with"@ {
                    Some(FieldAttrsView { deserialize_with: Some(t), ..o })
                } else if key == "rename"@ {
                    Some(FieldAttrsView { rename: Some(t), ..o })
                } else if key == "serialize_with"@ {
                    Some(FieldAttrsView { serialize_with: Some(t), ..o })
                } else if key == "skip_serializing_if"@ {
                    Some(FieldAttrsView { skip_serializing_if: Some(t), ..o })
                } else if key == "with"@ {
                    Some(FieldAttrsView { deserialize_with: Some(t), serialize_with: Some(t), ..o })
                } else {
                    None
                }
            },
        }
    }
}

pub open spec fn parse_field_entries(es: Seq<(Seq<char>, Option<Seq<char>>)>) -> Option<FieldAttrsView>
    decreases es.len(),
{
    if es.len() == 0 {
        Some(default_field_attrs())
    } else {
        match parse_field_entries(es.drop_last()) {
            Some(o) => apply_field_entry(o, es.last()),
            None => None,
        }
    }
}

pub open spec fn merge_field_attrs(a: FieldAttrsView, b: FieldAttrsView) -> FieldAttrsView {
    FieldAttrsView {
        default: if b.default is Some { b.default } else { a.default },
        deserialize_with: if b.deserialize_with is Some { b.deserialize_with } else { a.deserialize_with },
        flatten: if b.flatten { b.flatten } else { a.flatten },
        rename: if b.rename is Some { b.rename } else { a.rename },
        serialize_with: if b.serialize_with is Some { b.serialize_with } else { a.serialize_with },
        skip_serializing_if: if b.skip_serializing_if is Some { b.skip_serializing_if } else { a.skip_serializing_if },
    }
}

pub open spec fn field_attrs_readable(attrs: Seq<Attribute>) -> bool {
    forall|i: int| 0 <= i < attrs.len() && is_options_attr(#[trigger] attrs[i]) ==> {
        &&& attrs[i].entries is Some
        &&& parse_field_entries(entries_view(attrs[i].entries.unwrap()@)) is Some
    }
}

pub open spec fn field_attrs_of(attrs: Seq<Attribute>) -> FieldAttrsView
    decreases attrs.len(),
{
    if attrs.len() == 0 {
        default_field_attrs()
    } else if is_options_attr(attrs.last()) {
        merge_field_attrs(
            field_attrs_of(attrs.drop_last()),
            parse_field_entries(entries_view(attrs.last().entries.unwrap()@)).unwrap(),
        )
    } else {
        field_attrs_of(attrs.drop_last())
    }
}

/// The Serde attributes that express field attributes.
pub open spec fn field_serde_attrs(o: FieldAttrsView) -> Seq<Seq<char>> {
    let default = match o.default {
        Some(d) => if d.len() == 0 { seq!["default"@] } else { seq![serde_pair("default"@, d)] },
        None => Seq::empty(),
    };
    let with = match (o.deserialize_with, o.serialize_with) {
        (Some(d), Some(s)) => if d == s {
            seq![serde_pair("with"@, d)]
        } else {
            seq![serde_pair("deserialize_with"@, d), serde_pair("serialize_with"@, s)]
        },
        (Some(d), None) => seq![serde_pair("deserialize_with"@, d)],
        (None, Some(s)) => seq![serde_pair("serialize_with"@, s)],
        (None, None) => Seq::empty(),
    };
    let flatten = if o.flatten { seq!["flatten"@] } else { Seq::empty() };
    let rename = match o.rename {
        Some(r) => seq![serde_pair("rename"@, r)],
        None => Seq::empty(),
    };
    let skip = match o.skip_serializing_if {
        Some(s) => seq![serde_pair("skip_serializing_if"@, s)],
        None => Seq::empty(),
    };
    default + with + flatten + rename + skip
}

proof fn lemma_field_entries_none(es: Seq<(Seq<char>, Option<Seq<char>>)>, k: int)
    requires
        0 <= k <= es.len(),
        parse_field_entries(es.take(k)) is None,
    ensures
        parse_field_entries(es) is None,
    decreases es.len() - k,
{
    if k < es.len() {
        assert(es.take(k + 1).drop_last() =~= es.take(k));
        lemma_field_entries_none(es, k + 1);
    } else {
        assert(es.take(k) =~= es);
    }
}

impl FieldAttrs {
    pub fn default() -> (res: Self)
        ensures
            res@ == default_field_attrs(),
    {
        FieldAttrs {
            default: None,
            deserialize_with: None,
            flatten: false,
            rename: None,
            serialize_with: None,
            skip_serializing_if: None,
        }
    }

    fn apply_entry(&mut self, e: &AttrEntry) -> (ok: bool)
        ensures
            match apply_field_entry(old(self)@, entry_view(*e)) {
                Some(o) => ok && final(self)@ == o,
                None => !ok,
            },
    {
        let key = chars_of(e.key.as_str());
        if chars_eq(&key, "default") {
            self.default = Some(match &e.value {
                Some(v) => literal_value(v),
                None => String::new(),
            });
            true
        } else if chars_eq(&key, "flatten") {
            match &e.value {
                Some(_) => false,
                None => {
                    self.flatten = true;
                    true
                },
            }
        } else {
            match &e.value {
                None => false,
                Some(v) => {
                    if chars_eq(&key, "deserialize_with") {
                        self.deserialize_with = Some(literal_value(v));
                        true
                    } else if chars_eq(&key, "rename") {
                        self.rename = Some(literal_value(v));
                        true
                    } else if chars_eq(&key, "serialize_with") {
                        self.serialize_with = Some(literal_value(v));
                        true
                    } else if chars_eq(&key, "skip_serializing_if") {
                        self.skip_serializing_if = Some(literal_value(v));
                        true
                    } else if chars_eq(&key, "with") {
                        let value = literal_value(v);
                        self.deserialize_with = Some(value.clone());
                        self.serialize_with = Some(value);
                        true
                    } else {
                        false
                    }
                },
            }
        }
    }

    /// Reads field attributes from the entries of one attribute; `None`
    /// where an entry is refused.
    pub fn parse(entries: &Vec<AttrEntry>) -> (res: Option<Self>)
        ensures
            match parse_field_entries(entries_view(entries@)) {
                Some(o) => res matches Some(r) && r@ == o,
                None => res is None,
            },
    {
        let mut result = Self::default();
        let mut i: usize = 0;
        assert(entries_view(entries@).take(0) =~= Seq::<(Seq<char>, Option<Seq<char>>)>::empty());
        while i < entries.len()
            invariant
                i <= entries@.len(),
                parse_field_entries(entries_view(entries@).take(i as int)) == Some(result@),
            decreases entries@.len() - i,
        {
            proof {
                let t = entries_view(entries@).take(i + 1);
                assert(t.drop_last() =~= entries_view(entries@).take(i as int));
                assert(t.last() == entry_view(entries@[i as int]));
            }
            if !result.apply_entry(&entries[i]) {
                proof {
                    lemma_field_entries_none(entries_view(entries@), i as int + 1);
                }
                return None;
            }
            i = i + 1;
        }
        assert(entries_view(entries@).take(entries@.len() as int) =~= entries_view(entries@));
        Some(result)
    }

    fn merge_with(&mut self, other: &Self)
        ensures
            final(self)@ == merge_field_attrs(old(self)@, other@),
    {
        if other.default.is_some() {
            self.default = clone_opt(&other.default);
        }
        if other.deserialize_with.is_some() {
            self.deserialize_with = clone_opt(&other.deserialize_with);
        }
        if other.flatten {
            self.flatten = other.flatten;
        }
        if other.rename.is_some() {
            self.rename = clone_opt(&other.rename);
        }
        if other.serialize_with.is_some() {
            self.serialize_with = clone_opt(&other.serialize_with);
        }
        if other.skip_serializing_if.is_some() {
            self.skip_serializing_if = clone_opt(&other.skip_serializing_if);
        }
    }

    /// The field attributes that `attrs` set.
    pub fn from_attrs(attrs: &[Attribute]) -> (res: Self)
        requires
            field_attrs_readable(attrs@),
        ensures
            res@ == field_attrs_of(attrs@),
    {
        let mut opts = Self::default();
        let mut i: usize = 0;
        while i < attrs.len()
            invariant
                i <= attrs@.len(),
                field_attrs_readable(attrs@),
                opts@ == field_attrs_of(attrs@.take(i as int)),
            decreases attrs@.len() - i,
        {
            proof {
                assert(attrs@.take(i + 1).drop_last() =~= attrs@.take(i as int));
                assert(attrs@.take(i + 1).last() == attrs@[i as int]);
            }
            let attr = &attrs[i];
            if options_attr(attr) {
                assert(is_options_attr(attrs@[i as int]));
                match &attr.entries {
                    Some(entries) => {
                        match Self::parse(entries) {
                            Some(parsed) => opts.merge_with(&parsed),
                            None => {},
                        }
                    },
                    None => {},
                }
            }
            i = i + 1;
        }
        assert(attrs@.take(attrs@.len() as int) =~= attrs@);
        opts
    }

    pub fn to_serde_attrs(&self) -> (res: Vec<String>)
        ensures
            str_views(res@) == field_serde_attrs(self@),
    {
        let mut serde_attrs: Vec<String> = Vec::new();
        assert(str_views(serde_attrs@) =~= Seq::<Seq<char>>::empty());
        if let Some(default) = &self.default {
            if default.as_str().unicode_len() == 0 {
                push_str_to(&mut serde_attrs, "default".to_owned());
            } else {
                push_str_to(&mut serde_attrs, serde_pair_string("default", default.as_str()));
            }
        }
        let ghost a1 = str_views(serde_attrs@);
        match (&self.deserialize_with, &self.serialize_with) {
            (Some(deserialize_with), Some(serialize_with)) => {
                if str_eq(deserialize_with.as_str(), serialize_with.as_str()) {
                    push_str_to(&mut serde_attrs, serde_pair_string("with", deserialize_with.as_str()));
                } else {
                    push_str_to(&mut serde_attrs, serde_pair_string("deserialize_with", deserialize_with.as_str()));
                    push_str_to(&mut serde_attrs, serde_pair_string("serialize_with", serialize_with.as_str()));
                }
            },
            (Some(deserialize_with), None) => {
                push_str_to(&mut serde_attrs, serde_pair_string("deserialize_with", deserialize_with.as_str()));
            },
            (None, Some(serialize_with)) => {
                push_str_to(&mut serde_attrs, serde_pair_string("serialize_with", serialize_with.as_str()));
            },
            (None, None) => {},
        }
        if self.flatten {
            push_str_to(&mut serde_attrs, "flatten".to_owned());
        }
        if let Some(rename) = &self.rename {
            push_str_to(&mut serde_attrs, serde_pair_string("rename", rename.as_str()));
        }
        if let Some(skip_serializing_if) = &self.skip_serializing_if {
            push_str_to(&mut serde_attrs, serde_pair_string("skip_serializing_if", skip_serializing_if.as_str()));
        }
        assert(str_views(serde_attrs@) =~= field_serde_attrs(self@));
        serde_attrs
    }
}


/// A struct, as the generators see it.
#[derive(Debug, PartialEq, Eq, Hash)]
pub struct Struct {
    pub ident: TypeIdent,
    pub fields: Vec<Field>,
    pub doc_lines: Vec<String>,
    pub options: StructOptions,
}

/// One field of a struct; the fields of a tuple struct have no name.
#[derive(Debug, PartialEq, Eq, Hash)]
pub struct Field {
    pub name: Option<String>,
    pub ty: TypeIdent,
    pub doc_lines: Vec<String>,
    pub attrs: FieldAttrs,
}


/// Each option that a field's attributes set yields its own Serde
/// attribute: a rename `r` gives `rename = "r"`, a flattened field
/// `flatten`, a skip condition `s` gives `skip_serializing_if = "s"`, a
/// default gives `default` (or `default = "d"` for a function `d`), and a
/// custom (de)serializer gives `with = "w"` where both directions use the
/// same one, and its own attribute for each direction otherwise.
pub proof fn lemma_field_serde_attrs_hold_options(o: FieldAttrsView)
    ensures
        o.rename matches Some(r) ==> field_serde_attrs(o).contains("rename = \""@ + r + "\""@),
        o.flatten ==> field_serde_attrs(o).contains("flatten"@),
        o.skip_serializing_if matches Some(s) ==> field_serde_attrs(o).contains("skip_serializing_if = \""@ + s + "\""@),
        o.default matches Some(d) ==> field_serde_attrs(o).contains(
            if d.len() == 0 { "default"@ } else { "default = \""@ + d + "\""@ }),
        o.deserialize_with is Some && o.serialize_with == o.deserialize_with
            ==> field_serde_attrs(o).contains("with = \""@ + o.deserialize_with.unwrap() + "\""@),
        o.deserialize_with is Some && o.serialize_with != o.deserialize_with
            ==> field_serde_attrs(o).contains("deserialize_with = \""@ + o.deserialize_with.unwrap() + "\""@),
        o.serialize_with is Some && o.deserialize_with != o.serialize_with
            ==> field_serde_attrs(o).contains("serialize_with = \""@ + o.serialize_with.unwrap() + "\""@),
        o.rename is None && !o.flatten && o.skip_serializing_if is None && o.default is None
            && o.deserialize_with is None && o.serialize_with is None ==> field_serde_attrs(o).len() == 0,
{
    reveal_strlit("rename");
    reveal_strlit("rename = \"");
    reveal_strlit(" = \"");
    reveal_strlit("skip_serializing_if");
    reveal_strlit("skip_serializing_if = \"");
    reveal_strlit("default");
    reveal_strlit("default = \"");
    reveal_strlit("with");
    reveal_strlit("with = \"");
    reveal_strlit("deserialize_with");
    reveal_strlit("deserialize_with = \"");
    reveal_strlit("serialize_with");
    reveal_strlit("serialize_with = \"");
    let default = match o.default {
        Some(d) => if d.len() == 0 { seq!["default"@] } else { seq![serde_pair("default"@, d)] },
        None => Seq::<Seq<char>>::empty(),
    };
    let with = match (o.deserialize_with, o.serialize_with) {
        (Some(d), Some(s)) => if d == s {
            seq![serde_pair("with"@, d)]
        } else {
            seq![serde_pair("deserialize_with"@, d), serde_pair("serialize_with"@, s)]
        },
        (Some(d), None) => seq![serde_pair("deserialize_with"@, d)],
        (None, Some(s)) => seq![serde_pair("serialize_with"@, s)],
        (None, None) => Seq::<Seq<char>>::empty(),
    };
    let flatten = if o.flatten { seq!["flatten"@] } else { Seq::<Seq<char>>::empty() };
    let rename = match o.rename {
        Some(r) => seq![serde_pair("rename"@, r)],
        None => Seq::<Seq<char>>::empty(),
    };
    let skip = match o.skip_serializing_if {
        Some(s) => seq![serde_pair("skip_serializing_if"@, s)],
        None => Seq::<Seq<char>>::empty(),
    };
    let all = field_serde_attrs(o);
    assert(all == default + with + flatten + rename + skip);
    let a = default.len() as int;
    let b = a + with.len();
    let c = b + flatten.len();
    let d = c + rename.len();
    if let Some(r) = o.rename {
        assert(serde_pair("rename"@, r) =~= "rename = \""@ + r + "\""@);
        assert(all[c] == serde_pair("rename"@, r));
    }
    if o.flatten {
        assert(all[b] == "flatten"@);
    }
    if let Some(s) = o.skip_serializing_if {
        assert(serde_pair("skip_serializing_if"@, s) =~= "skip_serializing_if = \""@ + s + "\""@);
        assert(all[d] == serde_pair("skip_serializing_if"@, s));
    }
    if let Some(dv) = o.default {
        assert(serde_pair("default"@, dv) =~= "default = \""@ + dv + "\""@);
        assert(all[0] == default[0]);
    }
    match (o.deserialize_with, o.serialize_with) {
        (Some(dw), Some(sw)) => {
            if dw == sw {
                assert(serde_pair("with"@, dw) =~= "with = \""@ + dw + "\""@);
                assert(all[a] == with[0]);
            } else {
                assert(serde_pair("deserialize_with"@, dw) =~= "deserialize_with = \""@ + dw + "\""@);
                assert(serde_pair("serialize_with"@, sw) =~= "serialize_with = \""@ + sw + "\""@);
                assert(all[a] == with[0]);
                assert(all[a + 1] == with[1]);
            }
        },
        (Some(dw), None) => {
            assert(serde_pair("deserialize_with"@, dw) =~= "deserialize_with = \""@ + dw + "\""@);
            assert(all[a] == with[0]);
        },
        (None, Some(sw)) => {
            assert(serde_pair("serialize_with"@, sw) =~= "serialize_with = \""@ + sw + "\""@);
            assert(all[a] == with[0]);
        },
        (None, None) => {},
    }
}


/// The Serde name of each casing, and its `rename_all` attribute.
pub proof fn lemma_rename_all_pair(c: Casing)
    ensures
        c == Casing::CamelCase ==> casing_name(c) == Some("camelCase"@)
            && serde_pair("rename_all"@, "camelCase"@) =~= "rename_all = \"camelCase\""@,
        c == Casing::PascalCase ==> casing_name(c) == Some("PascalCase"@)
            && serde_pair("rename_all"@, "PascalCase"@) =~= "rename_all = \"PascalCase\""@,
        c == Casing::SnakeCase ==> casing_name(c) == Some("snake_case"@)
            && serde_pair("rename_all"@, "snake_case"@) =~= "rename_all = \"snake_case\""@,
        c == Casing::ScreamingSnakeCase ==> casing_name(c) == Some("SCREAMING_SNAKE_CASE"@)
            && serde_pair("rename_all"@, "SCREAMING_SNAKE_CASE"@) =~= "rename_all = \"SCREAMING_SNAKE_CASE\""@,
        c == Casing::Original <==> casing_name(c) is None,
{
    reveal_strlit("rename_all");
    reveal_strlit(" = \"");
    reveal_strlit("\"");
    reveal_strlit("camelCase");
    reveal_strlit("PascalCase");
    reveal_strlit("snake_case");
    reveal_strlit("SCREAMING_SNAKE_CASE");
    reveal_strlit("rename_all = \"camelCase\"");
    reveal_strlit("rename_all = \"PascalCase\"");
    reveal_strlit("rename_all = \"snake_case\"");
    reveal_strlit("rename_all = \"SCREAMING_SNAKE_CASE\"");
}

/// A struct's field casing is its only Serde attribute: `rename_all` with the
/// casing's Serde name (`camelCase`, `PascalCase`, `snake_case` or
/// `SCREAMING_SNAKE_CASE`), and none for the original casing.
pub proof fn lemma_struct_serde_attrs_hold_casing(o: StructOptionsView)
    ensures
        o.field_casing == Casing::CamelCase ==> struct_serde_attrs(o) == seq!["rename_all = \"camelCase\""@],
        o.field_casing == Casing::PascalCase ==> struct_serde_attrs(o) == seq!["rename_all = \"PascalCase\""@],
        o.field_casing == Casing::SnakeCase ==> struct_serde_attrs(o) == seq!["rename_all = \"snake_case\""@],
        o.field_casing == Casing::ScreamingSnakeCase
            ==> struct_serde_attrs(o) == seq!["rename_all = \"SCREAMING_SNAKE_CASE\""@],
        o.field_casing == Casing::Original ==> struct_serde_attrs(o).len() == 0,
{
    lemma_rename_all_pair(o.field_casing);
}

} // verus!
