use vstd::prelude::*;
use crate::casing::{casing_from_name, casing_name, Casing};
use crate::text::{chars_eq, chars_of, str_views};
use super::{Type, TypeIdent};
use super::attrs::{
    clone_opt, entries_view, entry_view, is_options_attr, literal_value, opt_view, options_attr,
    push_str_to, serde_pair, serde_pair_string, trim_quotes, AttrEntry, Attribute,
};

verus! {

/// Options of an enum, read from its `#[fp(...)]` and `#[serde(...)]`
/// attributes.
#[derive(Debug, PartialEq, Eq, Hash)]
pub struct EnumOptions {
    pub variant_casing: Casing,
    pub content_prop_name: Option<String>,
    pub tag_prop_name: Option<String>,
    /// If `true`, serialized variants are not tagged, and a match is found
    /// by attempting to deserialize variants in order, where the first one to
    /// successfully deserialize is used as the result.
    pub untagged: bool,
    /// Rust module path where the type can be found for the given generator.
    /// If present, the generator can use this type instead of generating it.
    pub rust_module: Option<String>,
}

/// The options of an enum, as plain values.
pub struct EnumOptionsView {
    pub variant_casing: Casing,
    pub content_prop_name: Option<Seq<char>>,
    pub tag_prop_name: Option<Seq<char>>,
    pub untagged: bool,
    pub rust_module: Option<Seq<char>>,
}

impl View for EnumOptions {
    type V = EnumOptionsView;

    open spec fn view(&self) -> EnumOptionsView {
        EnumOptionsView {
            variant_casing: self.variant_casing,
            content_prop_name: opt_view(self.content_prop_name),
            tag_prop_name: opt_view(self.tag_prop_name),
            untagged: self.untagged,
            rust_module: opt_view(self.rust_module),
        }
    }
}

pub open spec fn default_enum_options() -> EnumOptionsView {
    EnumOptionsView {
        variant_casing: Casing::Original,
        content_prop_name: None,
        tag_prop_name: None,
        untagged: false,
        rust_module: None,
    }
}

/// The options after one entry is read, or `None` where the entry is refused.
pub open spec fn apply_enum_entry(o: EnumOptionsView, e: (Seq<char>, Option<Seq<char>>)) -> Option<EnumOptionsView> {
    let (key, value) = e;
    if key == "content"@ {
        match value {
            Some(v) => Some(EnumOptionsView { content_prop_name: Some(trim_quotes(v)), ..o }),
            None => None,
        }
    } else if key == "tag"@ {
        match value {
            Some(v) => Some(EnumOptionsView { tag_prop_name: Some(trim_quotes(v)), ..o }),
            None => None,
        }
    } else if key == "rename_all"@ {
        match value {
            Some(v) => match casing_from_name(trim_quotes(v)) {
                Some(c) => Some(EnumOptionsView { variant_casing: c, ..o }),
                None => None,
            },
            None => None,
        }
    } else if key == "rust_module"@ {
        match value {
            Some(v) => Some(EnumOptionsView { rust_module: Some(trim_quotes(v)), ..o }),
            None => None,
        }
    } else if key == "untagged"@ {
        match value {
            Some(_) => None,
            None => Some(EnumOptionsView { untagged: true, ..o }),
        }
    } else {
        None
    }
}

/// The options written by a list of entries, read from the first to the
/// last, or `None` where an entry is refused.
pub open spec fn parse_enum_entries(es: Seq<(Seq<char>, Option<Seq<char>>)>) -> Option<EnumOptionsView>
    decreases es.len(),
{
    if es.len() == 0 {
        Some(default_enum_options())
    } else {
        match parse_enum_entries(es.drop_last()) {
            Some(o) => apply_enum_entry(o, es.last()),
            None => None,
        }
    }
}

/// `a` with the options that `b` sets taken over.
pub open spec fn merge_enum_options(a: EnumOptionsView, b: EnumOptionsView) -> EnumOptionsView {
    EnumOptionsView {
        variant_casing: if b.variant_casing != Casing::Original { b.variant_casing } else { a.variant_casing },
        content_prop_name: if b.content_prop_name is Some { b.content_prop_name } else { a.content_prop_name },
        tag_prop_name: if b.tag_prop_name is Some { b.tag_prop_name } else { a.tag_prop_name },
        untagged: if b.untagged { true } else { a.untagged },
        rust_module: if b.rust_module is Some { b.rust_module } else { a.rust_module },
    }
}

/// Whether every options attribute among `attrs` reads as enum options.
pub open spec fn enum_attrs_readable(attrs: Seq<Attribute>) -> bool {
    forall|i: int| 0 <= i < attrs.len() && is_options_attr(#[trigger] attrs[i]) ==> {
        &&& attrs[i].entries is Some
        &&& parse_enum_entries(entries_view(attrs[i].entries.unwrap()@)) is Some
    }
}

/// The enum options that `attrs` set, later attributes overriding earlier ones.
pub open spec fn enum_options_of(attrs: Seq<Attribute>) -> EnumOptionsView
    decreases attrs.len(),
{
    if attrs.len() == 0 {
        default_enum_options()
    } else if is_options_attr(attrs.last()) {
        merge_enum_options(
            enum_options_of(attrs.drop_last()),
            parse_enum_entries(entries_view(attrs.last().entries.unwrap()@)).unwrap(),
        )
    } else {
        enum_options_of(attrs.drop_last())
    }
}

/// The Serde attributes that express enum options.
pub open spec fn enum_serde_attrs(o: EnumOptionsView) -> Seq<Seq<char>> {
    let tagging = if o.untagged {
        seq!["untagged"@]
    } else if o.tag_prop_name is Some {
        seq![serde_pair("tag"@, o.tag_prop_name.unwrap())] + if o.content_prop_name is Some {
            seq![serde_pair("content"@, o.content_prop_name.unwrap())]
        } else {
            Seq::empty()
        }
    } else {
        Seq::empty()
    };
    tagging + match casing_name(o.variant_casing) {
        Some(n) => seq![serde_pair("rename_all"@, n)],
        None => Seq::empty(),
    }
}

impl EnumOptions {
    pub fn default() -> (res: Self)
        ensures
            res@ == default_enum_options(),
    {
        EnumOptions {
            variant_casing: Casing::Original,
            content_prop_name: None,
            tag_prop_name: None,
            untagged: false,
            rust_module: None,
        }
    }

    /// Reads the entry `e` into these options; `false` where the entry is
    /// refused.
    fn apply_entry(&mut self, e: &AttrEntry) -> (ok: bool)
        ensures
            match apply_enum_entry(old(self)@, entry_view(*e)) {
                Some(o) => ok && final(self)@ == o,
                None => !ok,
            },
    {
        let key = chars_of(e.key.as_str());
        if chars_eq(&key, "content") {
            match &e.value {
                Some(v) => {
                    self.content_prop_name = Some(literal_value(v));
                    true
                },
                None => false,
            }
        } else if chars_eq(&key, "tag") {
            match &e.value {
                Some(v) => {
                    self.tag_prop_name = Some(literal_value(v));
                    true
                },
                None => false,
            }
        } else if chars_eq(&key, "rename_all") {
            match &e.value {
                Some(v) => {
                    let name = literal_value(v);
                    match Casing::try_from(name.as_str()) {
                        Ok(c) => {
                            self.variant_casing = c;
                            true
                        },
                        Err(_) => false,
                    }
                },
                None => false,
            }
        } else if chars_eq(&key, "rust_module") {
            match &e.value {
                Some(v) => {
                    self.rust_module = Some(literal_value(v));
                    true
                },
                None => false,
            }
        } else if chars_eq(&key, "untagged") {
            match &e.value {
                Some(_) => false,
                None => {
                    self.untagged = true;
                    true
                },
            }
        } else {
            false
        }
    }

    /// Reads enum options from the entries of one attribute; `None` where an
    /// entry is refused.
    pub fn parse(entries: &Vec<AttrEntry>) -> (res: Option<Self>)
        ensures
            match parse_enum_entries(entries_view(entries@)) {
                Some(o) => res matches Some(r) && r@ == o,
                None => res is None,
            },
    {
        let mut result = Self::default();
        let mut i: usize = 0;
        assert(entries_view(entries@).take(0) =~= Seq::<(Seq<char>, Option<Seq<char>>)>::empty());
        while i < entries.len()
            invariant
                i <= entries@.len(),
                parse_enum_entries(entries_view(entries@).take(i as int)) == Some(result@),
            decreases entries@.len() - i,
        {
            proof {
                let t = entries_view(entries@).take(i + 1);
                assert(t.drop_last() =~= entries_view(entries@).take(i as int));
                assert(t.last() == entry_view(entries@[i as int]));
            }
            if !result.apply_entry(&entries[i]) {
                proof {
                    lemma_enum_entries_none(entries_view(entries@), i as int + 1);
                }
                return None;
            }
            i = i + 1;
        }
        assert(entries_view(entries@).take(entries@.len() as int) =~= entries_view(entries@));
        Some(result)
    }

    fn merge_with(&mut self, other: &EnumOptions)
        ensures
            final(self)@ == merge_enum_options(old(self)@, other@),
    {
        if other.variant_casing != Casing::Original {
            self.variant_casing = other.variant_casing;
        }
        if other.content_prop_name.is_some() {
            self.content_prop_name = clone_opt(&other.content_prop_name);
        }
        if other.tag_prop_name.is_some() {
            self.tag_prop_name = clone_opt(&other.tag_prop_name);
        }
        if other.untagged {
            self.untagged = true;
        }
        if let Some(other_rust_module) = &other.rust_module {
            self.rust_module = Some(other_rust_module.clone());
        }
    }

    /// The enum options that `attrs` set.
    pub fn from_attrs(attrs: &[Attribute]) -> (res: Self)
        requires
            enum_attrs_readable(attrs@),
        ensures
            res@ == enum_options_of(attrs@),
    {
        let mut opts = Self::default();
        let mut i: usize = 0;
        while i < attrs.len()
            invariant
                i <= attrs@.len(),
                enum_attrs_readable(attrs@),
                opts@ == enum_options_of(attrs@.take(i as int)),
            decreases attrs@.len() - i,
        {
            proof {
                assert(attrs@.take(i + 1).drop_last() =~= attrs@.take(i as int));
                assert(attrs@.take(i + 1).last() == attrs@[i as int]);
            }
            let attr = &attrs[i];
            if options_attr(attr) {
                assert(is_options_attr(attrs@[i as int]));
                match &attr.entries {
                    Some(entries) => {
                        match Self::parse(entries) {
                            Some(parsed) => opts.merge_with(&parsed),
                            None => {},
                        }
                    },
                    None => {},
                }
            }
            i = i + 1;
        }
        assert(attrs@.take(attrs@.len() as int) =~= attrs@);
        opts
    }

    pub fn to_serde_attrs(&self) -> (res: Vec<String>)
        ensures
            str_views(res@) == enum_serde_attrs(self@),
    {
        let mut serde_attrs: Vec<String> = Vec::new();
        assert(str_views(serde_attrs@) =~= Seq::<Seq<char>>::empty());
        if self.untagged {
            push_str_to(&mut serde_attrs, "untagged".to_owned());
        } else if let Some(prop_name) = &self.tag_prop_name {
            push_str_to(&mut serde_attrs, serde_pair_string("tag", prop_name.as_str()));
            if let Some(prop_name) = &self.content_prop_name {
                push_str_to(&mut serde_attrs, serde_pair_string("content", prop_name.as_str()));
            }
        }
        if let Some(casing) = self.variant_casing.as_maybe_str() {
            push_str_to(&mut serde_attrs, serde_pair_string("rename_all", casing));
        }
        assert(str_views(serde_attrs@) =~= enum_serde_attrs(self@));
        serde_attrs
    }
}

proof fn lemma_enum_entries_none(es: Seq<(Seq<char>, Option<Seq<char>>)>, k: int)
    requires
        0 <= k <= es.len(),
        parse_enum_entries(es.take(k)) is None,
    ensures
        parse_enum_entries(es) is None,
    decreases es.len() - k,
{
    if k < es.len() {
        assert(es.take(k + 1).drop_last() =~= es.take(k));
        lemma_enum_entries_none(es, k + 1);
    } else {
        assert(es.take(k) =~= es);
    }
}


/// Attributes of an enum variant.
#[derive(Debug, PartialEq, Eq, Hash)]
pub struct VariantAttrs {
    pub field_casing: Casing,
    /// Optional name to use in the serialized format
    /// (only used if different than the variant name itself).
    pub rename: Option<String>,
}

/// The attributes of a variant, as plain values.
pub struct VariantAttrsView {
    pub field_casing: Casing,
    pub rename: Option<Seq<char>>,
}

impl View for VariantAttrs {
    type V = VariantAttrsView;

    open spec fn view(&self) -> VariantAttrsView {
        VariantAttrsView { field_casing: self.field_casing, rename: opt_view(self.rename) }
    }
}

pub open spec fn default_variant_attrs() -> VariantAttrsView {
    VariantAttrsView { field_casing: Casing::Original, rename: None }
}

pub open spec fn apply_variant_entry(o: VariantAttrsView, e: (Seq<char>, Option<Seq<char>>)) -> Option<VariantAttrsView> {
    let (key, value) = e;
    if key == "rename"@ {
        match value {
            Some(v) => Some(VariantAttrsView { rename: Some(trim_quotes(v)), ..o }),
            None => None,
        }
    } else if key == "rename_all"@ {
        match value {
            Some(v) => match casing_from_name(trim_quotes(v)) {
                Some(c) => Some(VariantAttrsView { field_casing: c, ..o }),
                None => None,
            },
            None => None,
        }
    } else {
        None
    }
}

pub open spec fn parse_variant_entries(es: Seq<(Seq<char>, Option<Seq<char>>)>) -> Option<VariantAttrsView>
    decreases es.len(),
{
    if es.len() == 0 {
        Some(default_variant_attrs())
    } else {
        match parse_variant_entries(es.drop_last()) {
            Some(o) => apply_variant_entry(o, es.last()),
            None => None,
        }
    }
}

pub open spec fn merge_variant_attrs(a: VariantAttrsView, b: VariantAttrsView) -> VariantAttrsView {
    VariantAttrsView {
        field_casing: if b.field_casing != Casing::Original { b.field_casing } else { a.field_casing },
        rename: if b.rename is Some { b.rename } else { a.rename },
    }
}

pub open spec fn variant_attrs_readable(attrs: Seq<Attribute>) -> bool {
    forall|i: int| 0 <= i < attrs.len() && is_options_attr(#[trigger] attrs[i]) ==> {
        &&& attrs[i].entries is Some
        &&& parse_variant_entries(entries_view(attrs[i].entries.unwrap()@)) is Some
    }
}

pub open spec fn variant_attrs_of(attrs: Seq<Attribute>) -> VariantAttrsView
    decreases attrs.len(),
{
    if attrs.len() == 0 {
        default_variant_attrs()
    } else if is_options_attr(attrs.last()) {
        merge_variant_attrs(
            variant_attrs_of(attrs.drop_last()),
            parse_variant_entries(entries_view(attrs.last().entries.unwrap()@)).unwrap(),
        )
    } else {
        variant_attrs_of(attrs.drop_last())
    }
}

pub open spec fn variant_serde_attrs(o: VariantAttrsView) -> Seq<Seq<char>> {
    (if o.rename is Some {
        seq![serde_pair("rename"@, o.rename.unwrap())]
    } else {
        Seq::empty()
    }) + match casing_name(o.field_casing) {
        Some(n) => seq![serde_pair("rename_all"@, n)],
        None => Seq::empty(),
    }
}

proof fn lemma_variant_entries_none(es: Seq<(Seq<char>, Option<Seq<char>>)>, k: int)
    requires
        0 <= k <= es.len(),
        parse_variant_entries(es.take(k)) is None,
    ensures
        parse_variant_entries(es) is None,
    decreases es.len() - k,
{
    if k < es.len() {
        assert(es.take(k + 1).drop_last() =~= es.take(k));
        lemma_variant_entries_none(es, k + 1);
    } else {
        assert(es.take(k) =~= es);
    }
}

impl VariantAttrs {
    pub fn default() -> (res: Self)
        ensures
            res@ == default_variant_attrs(),
    {
        VariantAttrs { field_casing: Casing::Original, rename: None }
    }

    fn apply_entry(&mut self, e: &AttrEntry) -> (ok: bool)
        ensures
            match apply_variant_entry(old(self)@, entry_view(*e)) {
                Some(o) => ok && final(self)@ == o,
                None => !ok,
            },
    {
        let key = chars_of(e.key.as_str());
        if chars_eq(&key, "rename") {
            match &e.value {
                Some(v) => {
                    self.rename = Some(literal_value(v));
                    true
                },
                None => false,
            }
        } else if chars_eq(&key, "rename_all") {
            match &e.value {
                Some(v) => {
                    let name = literal_value(v);
                    match Casing::try_from(name.as_str()) {
                        Ok(c) => {
                            self.field_casing = c;
                            true
                        },
                        Err(_) => false,
                    }
                },
                None => false,
            }
        } else {
            false
        }
    }

    /// Reads variant attributes from the entries of one attribute; `None`
    /// where an entry is refused.
    pub fn parse(entries: &Vec<AttrEntry>) -> (res: Option<Self>)
        ensures
            match parse_variant_entries(entries_view(entries@)) {
                Some(o) => res matches Some(r) && r@ == o,
                None => res is None,
            },
    {
        let mut result = Self::default();
        let mut i: usize = 0;
        assert(entries_view(entries@).take(0) =~= Seq::<(Seq<char>, Option<Seq<char>>)>::empty());
        while i < entries.len()
            invariant
                i <= entries@.len(),
                parse_variant_entries(entries_view(entries@).take(i as int)) == Some(result@),
            decreases entries@.len() - i,
        {
            proof {
                let t = entries_view(entries@).take(i + 1);
                assert(t.drop_last() =~= entries_view(entries@).take(i as int));
                assert(t.last() == entry_view(entries@[i as int]));
            }
            if !result.apply_entry(&entries[i]) {
                proof {
                    lemma_variant_entries_none(entries_view(entries@), i as int + 1);
                }
                return None;
            }
            i = i + 1;
        }
        assert(entries_view(entries@).take(entries@.len() as int) =~= entries_view(entries@));
        Some(result)
    }

    fn merge_with(&mut self, other: &Self)
        ensures
            final(self)@ == merge_variant_attrs(old(self)@, other@),
    {
        if other.field_casing != Casing::Original {
            self.field_casing = other.field_casing;
        }
        if other.rename.is_some() {
            self.rename = clone_opt(&other.rename);
        }
    }

    /// The variant attributes that `attrs` set.
    pub fn from_attrs(attrs: &[Attribute]) -> (res: Self)
        requires
            variant_attrs_readable(attrs@),
        ensures
            res@ == variant_attrs_of(attrs@),
    {
        let mut opts = Self::default();
        let mut i: usize = 0;
        while i < attrs.len()
            invariant
                i <= attrs@.len(),
                variant_attrs_readable(attrs@),
                opts@ == variant_attrs_of(attrs@.take(i as int)),
            decreases attrs@.len() - i,
        {
            proof {
                assert(attrs@.take(i + 1).drop_last() =~= attrs@.take(i as int));
                assert(attrs@.take(i + 1).last() == attrs@[i as int]);
            }
            let attr = &attrs[i];
            if options_attr(attr) {
                assert(is_options_attr(attrs@[i as int]));
                match &attr.entries {
                    Some(entries) => {
                        match Self::parse(entries) {
                            Some(parsed) => opts.merge_with(&parsed),
                            None => {},
                        }
                    },
                    None => {},
                }
            }
            i = i + 1;
        }
        assert(attrs@.take(attrs@.len() as int) =~= attrs@);
        opts
    }

    pub fn to_serde_attrs(&self) -> (res: Vec<String>)
        ensures
            str_views(res@) == variant_serde_attrs(self@),
    {
        let mut serde_attrs: Vec<String> = Vec::new();
        assert(str_views(serde_attrs@) =~= Seq::<Seq<char>>::empty());
        if let Some(rename) = &self.rename {
            push_str_to(&mut serde_attrs, serde_pair_string("rename", rename.as_str()));
        }
        if let Some(casing) = self.field_casing.as_maybe_str() {
            push_str_to(&mut serde_attrs, serde_pair_string("rename_all", casing));
        }
        assert(str_views(serde_attrs@) =~= variant_serde_attrs(self@));
        serde_attrs
    }
}


/// An enum, as the generators see it.
#[derive(Debug, PartialEq, Eq, Hash)]
pub struct Enum {
    pub ident: TypeIdent,
    pub variants: Vec<Variant>,
    pub doc_lines: Vec<String>,
    pub options: EnumOptions,
}

/// One variant of an enum. A unit variant has the type `Type::Unit`, a
/// variant with named fields a `Type::Struct` and one with unnamed fields a
/// `Type::Tuple`.
#[derive(Debug, PartialEq, Eq, Hash)]
pub struct Variant {
    pub name: String,
    pub ty: Type,
    pub doc_lines: Vec<String>,
    pub attrs: VariantAttrs,
}


/// An enum's options each yield their Serde attribute: `untagged`, or else
/// `tag = "t"` for a tag `t` and then `content = "c"` for a content `c`
/// (a content without a tag yields nothing); and its variant casing a
/// `rename_all` attribute with the casing's Serde name.
pub proof fn lemma_enum_serde_attrs_hold_options(o: EnumOptionsView)
    ensures
        o.untagged ==> enum_serde_attrs(o).contains("untagged"@),
        !o.untagged && o.tag_prop_name is Some
            ==> enum_serde_attrs(o).contains("tag = \""@ + o.tag_prop_name.unwrap() + "\""@),
        !o.untagged && o.tag_prop_name is Some && o.content_prop_name is Some
            ==> enum_serde_attrs(o).contains("content = \""@ + o.content_prop_name.unwrap() + "\""@),
        o.variant_casing == Casing::CamelCase ==> enum_serde_attrs(o).contains("rename_all = \"camelCase\""@),
        o.variant_casing == Casing::PascalCase ==> enum_serde_attrs(o).contains("rename_all = \"PascalCase\""@),
        o.variant_casing == Casing::SnakeCase ==> enum_serde_attrs(o).contains("rename_all = \"snake_case\""@),
        o.variant_casing == Casing::ScreamingSnakeCase
            ==> enum_serde_attrs(o).contains("rename_all = \"SCREAMING_SNAKE_CASE\""@),
        !o.untagged && o.tag_prop_name is None && o.variant_casing == Casing::Original
            ==> enum_serde_attrs(o).len() == 0,
{
    reveal_strlit("tag");
    reveal_strlit("content");
    reveal_strlit(" = \"");
    reveal_strlit("tag = \"");
    reveal_strlit("content = \"");
    crate::types::structs::lemma_rename_all_pair(o.variant_casing);
    let tagging = if o.untagged {
        seq!["untagged"@]
    } else if o.tag_prop_name is Some {
        seq![serde_pair("tag"@, o.tag_prop_name.unwrap())] + if o.content_prop_name is Some {
            seq![serde_pair("content"@, o.content_prop_name.unwrap())]
        } else {
            Seq::<Seq<char>>::empty()
        }
    } else {
        Seq::<Seq<char>>::empty()
    };
    let casing = match casing_name(o.variant_casing) {
        Some(n) => seq![serde_pair("rename_all"@, n)],
        None => Seq::<Seq<char>>::empty(),
    };
    let all = enum_serde_attrs(o);
    assert(all == tagging + casing);
    if o.untagged {
        assert(all[0] == "untagged"@);
    } else if o.tag_prop_name is Some {
        assert(serde_pair("tag"@, o.tag_prop_name.unwrap()) =~= "tag = \""@ + o.tag_prop_name.unwrap() + "\""@);
        assert(all[0] == tagging[0]);
        if o.content_prop_name is Some {
            assert(serde_pair("content"@, o.content_prop_name.unwrap()) =~= "content = \""@ + o.content_prop_name.unwrap() + "\""@);
            assert(all[1] == tagging[1]);
        }
    }
    if casing.len() > 0 {
        assert(all[tagging.len() as int] == casing[0]);
    }
}

/// A variant's attributes each yield their Serde attribute: a rename `r`
/// gives `rename = "r"`, and a field casing a `rename_all` attribute with
/// the casing's Serde name.
pub proof fn lemma_variant_serde_attrs_hold_options(o: VariantAttrsView)
    ensures
        o.rename is Some ==> variant_serde_attrs(o).contains("rename = \""@ + o.rename.unwrap() + "\""@),
        o.field_casing == Casing::CamelCase ==> variant_serde_attrs(o).contains("rename_all = \"camelCase\""@),
        o.field_casing == Casing::PascalCase ==> variant_serde_attrs(o).contains("rename_all = \"PascalCase\""@),
        o.field_casing == Casing::SnakeCase ==> variant_serde_attrs(o).contains("rename_all = \"snake_case\""@),
        o.field_casing == Casing::ScreamingSnakeCase
            ==> variant_serde_attrs(o).contains("rename_all = \"SCREAMING_SNAKE_CASE\""@),
        o.rename is None && o.field_casing == Casing::Original ==> variant_serde_attrs(o).len() == 0,
{
    reveal_strlit("rename");
    reveal_strlit(" = \"");
    reveal_strlit("rename = \"");
    crate::types::structs::lemma_rename_all_pair(o.field_casing);
    let first = if o.rename is Some {
        seq![serde_pair("rename"@, o.rename.unwrap())]
    } else {
        Seq::<Seq<char>>::empty()
    };
    let casing = match casing_name(o.field_casing) {
        Some(n) => seq![serde_pair("rename_all"@, n)],
        None => Seq::<Seq<char>>::empty(),
    };
    let all = variant_serde_attrs(o);
    assert(all == first + casing);
    if o.rename is Some {
        assert(serde_pair("rename"@, o.rename.unwrap()) =~= "rename = \""@ + o.rename.unwrap() + "\""@);
        assert(all[0] == first[0]);
    }
    if casing.len() > 0 {
        assert(all[first.len() as int] == casing[0]);
    }
}

} // verus!
