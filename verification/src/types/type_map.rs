use vstd::prelude::*;
use crate::text::{seq_lt, str_eq, str_lt};
use crate::text::{lemma_seq_lt_asymmetric, lemma_seq_lt_irreflexive, lemma_seq_lt_total, lemma_seq_lt_transitive};
use super::type_ident::TypeIdent;
use super::Type;

verus! {

/// Whether two identifiers stand for the same entry of a type map: only the
/// name and the array length count, so that a type is held once however
/// many generic instances of it are used.
pub open spec fn same_key(a: TypeIdent, b: TypeIdent) -> bool {
    a.name@ == b.name@ && a.array == b.array
}

/// The order of `Option<usize>`: `None` first.
pub open spec fn array_lt(a: Option<usize>, b: Option<usize>) -> bool {
    match (a, b) {
        (None, Some(_)) => true,
        (Some(x), Some(y)) => x < y,
        _ => false,
    }
}

/// The order of the entries of a type map: by name, then by array length.
pub open spec fn key_lt(a: TypeIdent, b: TypeIdent) -> bool {
    seq_lt(a.name@, b.name@) || (a.name@ == b.name@ && array_lt(a.array, b.array))
}

/// The type that `entries` holds for `ident`: that of its first entry with
/// the same key.
pub open spec fn lookup(entries: Seq<(TypeIdent, Type)>, ident: TypeIdent) -> Option<Type>
    decreases entries.len(),
{
    if entries.len() == 0 {
        None
    } else if same_key(entries[0].0, ident) {
        Some(entries[0].1)
    } else {
        lookup(entries.skip(1), ident)
    }
}

/// The entries after `ident` is put in with `ty`: an entry with the same
/// key keeps its identifier and gets the new type; otherwise a new entry
/// goes before the first one with a greater key.
pub open spec fn insert_entry(entries: Seq<(TypeIdent, Type)>, ident: TypeIdent, ty: Type) -> Seq<(TypeIdent, Type)>
    decreases entries.len(),
{
    if entries.len() == 0 {
        seq![(ident, ty)]
    } else if same_key(entries[0].0, ident) {
        seq![(entries[0].0, ty)] + entries.skip(1)
    } else if key_lt(ident, entries[0].0) {
        seq![(ident, ty)] + entries
    } else {
        seq![entries[0]] + insert_entry(entries.skip(1), ident, ty)
    }
}

/// Whether the keys of `entries` strictly ascend.
pub open spec fn keys_ascending(entries: Seq<(TypeIdent, Type)>) -> bool {
    forall|i: int, j: int| 0 <= i < j < entries.len() ==> key_lt(#[trigger] entries[i].0, #[trigger] entries[j].0)
}

/// The types that the generators know of, by identifier, in ascending order
/// of their keys.
#[derive(Debug)]
pub struct TypeMap {
    entries: Vec<(TypeIdent, Type)>,
}

impl View for TypeMap {
    type V = Seq<(TypeIdent, Type)>;

    closed spec fn view(&self) -> Seq<(TypeIdent, Type)> {
        self.entries@
    }
}

proof fn lemma_key_lt_transitive(a: TypeIdent, b: TypeIdent, c: TypeIdent)
    requires
        key_lt(a, b),
        key_lt(b, c),
    ensures
        key_lt(a, c),
{
    if seq_lt(a.name@, b.name@) && seq_lt(b.name@, c.name@) {
        lemma_seq_lt_transitive(a.name@, b.name@, c.name@);
    }
}

/// Two keys are the same, or one comes before the other.
proof fn lemma_key_cases(a: TypeIdent, b: TypeIdent)
    ensures
        same_key(a, b) || key_lt(a, b) || key_lt(b, a),
        !(key_lt(a, b) && key_lt(b, a)),
        same_key(a, b) ==> !key_lt(a, b),
{
    lemma_seq_lt_total(a.name@, b.name@);
    if seq_lt(a.name@, b.name@) {
        lemma_seq_lt_asymmetric(a.name@, b.name@);
    }
    if seq_lt(b.name@, a.name@) {
        lemma_seq_lt_asymmetric(b.name@, a.name@);
    }
    lemma_seq_lt_irreflexive(a.name@);
}

/// `insert_entry` over a prefix whose keys all come before the new one.
proof fn lemma_insert_after_prefix(entries: Seq<(TypeIdent, Type)>, i: int, ident: TypeIdent, ty: Type)
    requires
        0 <= i <= entries.len(),
        forall|k: int| 0 <= k < i ==> key_lt(#[trigger] entries[k].0, ident),
    ensures
        insert_entry(entries, ident, ty) == entries.take(i) + insert_entry(entries.skip(i), ident, ty),
    decreases i,
{
    if i > 0 {
        lemma_key_cases(entries[0].0, ident);
        let rest = entries.skip(1);
        assert forall|k: int| 0 <= k < i - 1 implies key_lt(#[trigger] rest[k].0, ident) by {
            assert(rest[k] == entries[k + 1]);
        }
        lemma_insert_after_prefix(rest, i - 1, ident, ty);
        assert(rest.skip(i - 1) =~= entries.skip(i));
        assert(entries.take(i) =~= seq![entries[0]] + rest.take(i - 1));
    } else {
        assert(entries.skip(0) =~= entries);
    }
}

/// `lookup` over a prefix with no entry of the key.
proof fn lemma_lookup_after_prefix(entries: Seq<(TypeIdent, Type)>, i: int, ident: TypeIdent)
    requires
        0 <= i <= entries.len(),
        forall|k: int| 0 <= k < i ==> !same_key(#[trigger] entries[k].0, ident),
    ensures
        lookup(entries, ident) == lookup(entries.skip(i), ident),
    decreases i,
{
    if i > 0 {
        let rest = entries.skip(1);
        assert forall|k: int| 0 <= k < i - 1 implies !same_key(#[trigger] rest[k].0, ident) by {
            assert(rest[k] == entries[k + 1]);
        }
        lemma_lookup_after_prefix(rest, i - 1, ident);
        assert(rest.skip(i - 1) =~= entries.skip(i));
    } else {
        assert(entries.skip(0) =~= entries);
    }
}

/// Whether two identifiers are the same key of the map.
pub fn same_key_exec(a: &TypeIdent, b: &TypeIdent) -> (res: bool)
    ensures
        res == same_key(*a, *b),
{
    str_eq(a.name.as_str(), b.name.as_str()) && a.array == b.array
}

/// Whether one key of the map comes before another.
pub fn key_lt_exec(a: &TypeIdent, b: &TypeIdent) -> (res: bool)
    ensures
        res == key_lt(*a, *b),
{
    if str_lt(a.name.as_str(), b.name.as_str()) {
        true
    } else if str_eq(a.name.as_str(), b.name.as_str()) {
        match (a.array, b.array) {
            (None, Some(_)) => true,
            (Some(x), Some(y)) => x < y,
            _ => false,
        }
    } else {
        false
    }
}

impl TypeMap {
    /// Whether the keys of the map strictly ascend, as they do in every map
    /// built by `new` and `insert`.
    pub closed spec fn wf(&self) -> bool {
        keys_ascending(self.entries@)
    }

    /// An empty map.
    pub fn new() -> (res: Self)
        ensures
            res@ == Seq::<(TypeIdent, Type)>::empty(),
            res.wf(),
    {
        TypeMap { entries: Vec::new() }
    }

    /// The number of entries.
    pub fn len(&self) -> (res: usize)
        ensures
            res == self@.len(),
    {
        self.entries.len()
    }

    /// The identifier and the type of the entry at `index`, in ascending
    /// order of keys.
    pub fn entry_at(&self, index: usize) -> (res: (&TypeIdent, &Type))
        requires
            index < self@.len(),
        ensures
            *res.0 == self@[index as int].0,
            *res.1 == self@[index as int].1,
    {
        let e = &self.entries[index];
        (&e.0, &e.1)
    }

    /// The type held for `ident`.
    pub fn get(&self, ident: &TypeIdent) -> (res: Option<&Type>)
        ensures
            match res {
                Some(t) => lookup(self@, *ident) == Some(*t),
                None => lookup(self@, *ident) is None,
            },
    {
        let mut i: usize = 0;
        while i < self.entries.len()
            invariant
                i <= self.entries@.len(),
                forall|k: int| 0 <= k < i ==> !same_key(#[trigger] self.entries@[k].0, *ident),
            decreases self.entries@.len() - i,
        {
            if same_key_exec(&self.entries[i].0, ident) {
                proof {
                    lemma_lookup_after_prefix(self.entries@, i as int, *ident);
                    assert(self.entries@.skip(i as int)[0] == self.entries@[i as int]);
                }
                return Some(&self.entries[i].1);
            }
            i = i + 1;
        }
        proof {
            lemma_lookup_after_prefix(self.entries@, i as int, *ident);
            assert(self.entries@.skip(i as int).len() == 0);
        }
        None
    }

    /// Whether the map holds a type for `ident`.
    pub fn contains_key(&self, ident: &TypeIdent) -> (res: bool)
        ensures
            res == lookup(self@, *ident) is Some,
    {
        self.get(ident).is_some()
    }

    /// Puts `ty` in for `ident`, and gives back the type that was held for
    /// it before.
    pub fn insert(&mut self, ident: TypeIdent, ty: Type) -> (res: Option<Type>)
        ensures
            final(self)@ == insert_entry(old(self)@, ident, ty),
            old(self).wf() ==> res == lookup(old(self)@, ident),
            old(self).wf() ==> final(self).wf(),
    {
        let ghost old_entries = self.entries@;
        let mut i: usize = 0;
        while i < self.entries.len() && key_lt_exec(&self.entries[i].0, &ident)
            invariant
                i <= self.entries@.len(),
                self.entries@ == old_entries,
                forall|k: int| 0 <= k < i ==> key_lt(#[trigger] self.entries@[k].0, ident),
            decreases self.entries@.len() - i,
        {
            i = i + 1;
        }
        proof {
            lemma_insert_after_prefix(old_entries, i as int, ident, ty);
            assert forall|k: int| 0 <= k < i implies !same_key(#[trigger] old_entries[k].0, ident) by {
                lemma_key_cases(old_entries[k].0, ident);
            }
            lemma_lookup_after_prefix(old_entries, i as int, ident);
        }
        if i < self.entries.len() && same_key_exec(&self.entries[i].0, &ident) {
            let ghost rest = old_entries.skip(i as int);
            assert(rest[0] == old_entries[i as int]);
            assert(rest.skip(1) =~= old_entries.skip(i as int + 1));
            let (k, old_ty) = self.entries.remove(i);
            self.entries.insert(i, (k, ty));
            assert(self.entries@ =~= old_entries.take(i as int) + (seq![(k, ty)] + old_entries.skip(i as int + 1)));
            proof {
                if keys_ascending(old_entries) {
                    assert forall|p: int, q: int| 0 <= p < q < self.entries@.len() implies
                        key_lt(#[trigger] self.entries@[p].0, #[trigger] self.entries@[q].0) by {
                        assert(self.entries@[p].0 == old_entries[p].0);
                        assert(self.entries@[q].0 == old_entries[q].0);
                    }
                }
            }
            Some(old_ty)
        } else {
            proof {
                if i < old_entries.len() {
                    lemma_key_cases(old_entries[i as int].0, ident);
                    assert(old_entries.skip(i as int)[0] == old_entries[i as int]);
                }
            }
            self.entries.insert(i, (ident, ty));
            assert(self.entries@ =~= old_entries.take(i as int) + (seq![(ident, ty)] + old_entries.skip(i as int)));
            proof {
                if keys_ascending(old_entries) {
                    assert forall|k: int| 0 <= k < old_entries.len() implies !same_key(#[trigger] old_entries[k].0, ident) by {
                        if k >= i {
                            if k > i {
                                lemma_key_lt_transitive(ident, old_entries[i as int].0, old_entries[k].0);
                            }
                            lemma_key_cases(old_entries[k].0, ident);
                        }
                    }
                    lemma_lookup_after_prefix(old_entries, old_entries.len() as int, ident);
                    assert(old_entries.skip(old_entries.len() as int).len() == 0);
                    assert forall|p: int, q: int| 0 <= p < q < self.entries@.len() implies
                        key_lt(#[trigger] self.entries@[p].0, #[trigger] self.entries@[q].0) by {
                        if q < i {
                            assert(self.entries@[p] == old_entries[p]);
                            assert(self.entries@[q] == old_entries[q]);
                        } else if q == i {
                            assert(self.entries@[p] == old_entries[p]);
                        } else if p > i {
                            assert(self.entries@[p] == old_entries[p - 1]);
                            assert(self.entries@[q] == old_entries[q - 1]);
                        } else if p == i {
                            assert(self.entries@[q] == old_entries[q - 1]);
                            if q - 1 > i {
                                assert(key_lt(old_entries[i as int].0, old_entries[q - 1].0));
                                lemma_key_lt_transitive(ident, old_entries[i as int].0, old_entries[q - 1].0);
                            }
                        } else {
                            assert(self.entries@[p] == old_entries[p]);
                            assert(self.entries@[q] == old_entries[q - 1]);
                        }
                    }
                }
            }
            None
        }
    }
}


/// The type that `entries` holds under the key of `name` and `array`.
pub open spec fn lookup_key(entries: Seq<(TypeIdent, Type)>, name: Seq<char>, array: Option<usize>) -> Option<Type>
    decreases entries.len(),
{
    if entries.len() == 0 {
        None
    } else if entries[0].0.name@ == name && entries[0].0.array == array {
        Some(entries[0].1)
    } else {
        lookup_key(entries.skip(1), name, array)
    }
}

/// Looking an identifier up goes by its key alone.
pub proof fn lemma_lookup_key(entries: Seq<(TypeIdent, Type)>, ident: TypeIdent)
    ensures
        lookup(entries, ident) == lookup_key(entries, ident.name@, ident.array),
    decreases entries.len(),
{
    if entries.len() > 0 {
        lemma_lookup_key(entries.skip(1), ident);
    }
}


/// A read gives back what a write wrote: after `ty` is put in for
/// `ident`, looking up an identifier of the same key finds `ty`, and
/// looking up any other key finds what was there before.
pub proof fn lemma_insert_then_lookup(entries: Seq<(TypeIdent, Type)>, ident: TypeIdent, ty: Type, other: TypeIdent)
    requires
        keys_ascending(entries),
    ensures
        lookup(insert_entry(entries, ident, ty), other) == if same_key(other, ident) {
            Some(ty)
        } else {
            lookup(entries, other)
        },
    decreases entries.len(),
{
    let expected = if same_key(other, ident) { Some(ty) } else { lookup(entries, other) };
    if entries.len() == 0 {
        let r = seq![(ident, ty)];
        assert(insert_entry(entries, ident, ty) == r);
        assert(r.skip(1) =~= Seq::<(TypeIdent, Type)>::empty());
        assert(r[0] == (ident, ty));
        assert(lookup(r.skip(1), other) is None);
        assert(lookup(entries, other) is None);
        assert(lookup(r, other) == expected);
    } else {
        let rest = entries.skip(1);
        if same_key(entries[0].0, ident) {
            let r = seq![(entries[0].0, ty)] + rest;
            assert(insert_entry(entries, ident, ty) == r);
            assert(r[0] == (entries[0].0, ty));
            assert(r.skip(1) =~= rest);
            assert(lookup(r, other) == expected);
        } else if key_lt(ident, entries[0].0) {
            let r = seq![(ident, ty)] + entries;
            assert(insert_entry(entries, ident, ty) == r);
            assert(r[0] == (ident, ty));
            assert(r.skip(1) =~= entries);
            assert(lookup(r, other) == expected);
        } else {
            assert forall|i: int, j: int| 0 <= i < j < rest.len() implies key_lt(#[trigger] rest[i].0, #[trigger] rest[j].0) by {
                assert(rest[i] == entries[i + 1] && rest[j] == entries[j + 1]);
            }
            lemma_insert_then_lookup(rest, ident, ty, other);
            let r = seq![entries[0]] + insert_entry(rest, ident, ty);
            assert(insert_entry(entries, ident, ty) == r);
            assert(r[0] == entries[0]);
            assert(r.skip(1) =~= insert_entry(rest, ident, ty));
            if same_key(other, ident) {
                lemma_key_cases(entries[0].0, ident);
                assert(!same_key(entries[0].0, other));
            }
            assert(lookup(r, other) == expected);
        }
    }
}


/// Whether every type held for a key before is still held for it, unchanged.
pub open spec fn keeps_entries(before: Seq<(TypeIdent, Type)>, after: Seq<(TypeIdent, Type)>) -> bool {
    forall|name: Seq<char>, array: Option<usize>| (#[trigger] lookup_key(before, name, array)) is Some
        ==> lookup_key(after, name, array) == lookup_key(before, name, array)
}

/// Keeping every entry carries over from one change to the next.
pub proof fn lemma_keeps_entries_trans(
    a: Seq<(TypeIdent, Type)>,
    b: Seq<(TypeIdent, Type)>,
    c: Seq<(TypeIdent, Type)>,
)
    requires
        keeps_entries(a, b),
        keeps_entries(b, c),
    ensures
        keeps_entries(a, c),
{
    assert forall|name: Seq<char>, array: Option<usize>| (#[trigger] lookup_key(a, name, array)) is Some
        implies lookup_key(c, name, array) == lookup_key(a, name, array) by {
        assert(lookup_key(b, name, array) == lookup_key(a, name, array));
    }
}

/// After `ty` is put in for `ident`, the key of `ident` holds `ty`, and
/// every other key holds what it held before.
proof fn lemma_insert_then_lookup_key(
    entries: Seq<(TypeIdent, Type)>,
    ident: TypeIdent,
    ty: Type,
    name: Seq<char>,
    array: Option<usize>,
)
    requires
        keys_ascending(entries),
    ensures
        lookup_key(insert_entry(entries, ident, ty), name, array) == if name == ident.name@ && array == ident.array {
            Some(ty)
        } else {
            lookup_key(entries, name, array)
        },
    decreases entries.len(),
{
    let expected = if name == ident.name@ && array == ident.array { Some(ty) } else { lookup_key(entries, name, array) };
    if entries.len() == 0 {
        let r = seq![(ident, ty)];
        assert(insert_entry(entries, ident, ty) == r);
        assert(r.skip(1) =~= Seq::<(TypeIdent, Type)>::empty());
        assert(r[0] == (ident, ty));
        assert(lookup_key(r.skip(1), name, array) is None);
        assert(lookup_key(entries, name, array) is None);
        assert(lookup_key(r, name, array) == expected);
    } else {
        let rest = entries.skip(1);
        if same_key(entries[0].0, ident) {
            let r = seq![(entries[0].0, ty)] + rest;
            assert(insert_entry(entries, ident, ty) == r);
            assert(r[0] == (entries[0].0, ty));
            assert(r.skip(1) =~= rest);
            assert(lookup_key(r, name, array) == expected);
        } else if key_lt(ident, entries[0].0) {
            let r = seq![(ident, ty)] + entries;
            assert(insert_entry(entries, ident, ty) == r);
            assert(r[0] == (ident, ty));
            assert(r.skip(1) =~= entries);
            assert(lookup_key(r, name, array) == expected);
        } else {
            assert forall|i: int, j: int| 0 <= i < j < rest.len() implies key_lt(#[trigger] rest[i].0, #[trigger] rest[j].0) by {
                assert(rest[i] == entries[i + 1] && rest[j] == entries[j + 1]);
            }
            lemma_insert_then_lookup_key(rest, ident, ty, name, array);
            let r = seq![entries[0]] + insert_entry(rest, ident, ty);
            assert(insert_entry(entries, ident, ty) == r);
            assert(r[0] == entries[0]);
            assert(r.skip(1) =~= insert_entry(rest, ident, ty));
            if name == ident.name@ && array == ident.array {
                lemma_key_cases(entries[0].0, ident);
            }
            assert(lookup_key(r, name, array) == expected);
        }
    }
}

impl TypeMap {
    /// Puts `ty` in for `ident` unless the map holds a type for its key
    /// already (what `entry(ident).or_insert(ty)` does).
    pub fn insert_if_absent(&mut self, ident: TypeIdent, ty: Type)
        requires
            old(self).wf(),
        ensures
            final(self).wf(),
            lookup(old(self)@, ident) is Some ==> final(self)@ == old(self)@,
            lookup(old(self)@, ident) is None ==> final(self)@ == insert_entry(old(self)@, ident, ty),
            keeps_entries(old(self)@, final(self)@),
            lookup(final(self)@, ident) is Some,
            lookup(old(self)@, ident) is None ==> lookup(final(self)@, ident) == Some(ty),
    {
        if !self.contains_key(&ident) {
            let ghost before = self@;
            let ghost id = ident;
            let ghost t = ty;
            self.insert(ident, ty);
            proof {
                assert forall|name: Seq<char>, array: Option<usize>| (#[trigger] lookup_key(before, name, array)) is Some
                    implies lookup_key(self@, name, array) == lookup_key(before, name, array) by {
                    lemma_insert_then_lookup_key(before, id, t, name, array);
                    if name == id.name@ && array == id.array {
                        lemma_lookup_key(before, id);
                    }
                }
                lemma_insert_then_lookup(before, id, t, id);
            }
        }
    }
}

} // verus!
