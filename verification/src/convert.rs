//! Conversion between maps and structs whose fields are stored in them.
//!
//! Each field of such a struct is stored under a key, as a value of a given type. Reading a
//! struct out of a map removes the keys of its fields; a value of the wrong type counts as
//! missing, and a missing required field makes reading fail. Writing a struct into a map
//! inserts the fields that are present.
use vstd::prelude::*;

use crate::codec::type_code;
use crate::message::ParameterMap;
use crate::ordered_map::{
    index_of, insert_entry, keys_unique, lemma_index_of_unique, lemma_insert_keeps_unique, lemma_lookup_first, lemma_lookup_push,
    lookup, remove_entry, OrderedMap,
};
use crate::value::{CustomData, PhotonDataType, PhotonHashmap, PhotonValue};

verus! {

/// An error that can occur when a struct is read out of a map.
#[derive(Debug, Clone, Copy, PartialEq, Eq)]
pub enum FromMapError {
    /// A required field was absent, or held a value of another type. It carries the field's key.
    MissingField(u8),
}

/// The value, if it has the type code `kind`; any value when `kind` is `None`.
pub open spec fn of_kind(o: Option<PhotonDataType>, kind: Option<u8>) -> Option<PhotonDataType> {
    match o {
        Some(v) => match kind {
            Some(c) => if type_code(v@) == c { o } else { None },
            None => o,
        },
        None => None,
    }
}

/// The values of the fields, each kept only if it has the field's type.
pub open spec fn kinded(found: Seq<Option<PhotonDataType>>, kinds: Seq<Option<u8>>) -> Seq<Option<PhotonDataType>> {
    Seq::new(found.len(), |i: int| of_kind(found[i], kinds[i]))
}

/// The first required field, from position `i` on, that has no value.
pub open spec fn missing_from(vals: Seq<Option<PhotonDataType>>, required: Seq<bool>, i: int) -> Option<int>
    decreases vals.len() - i,
{
    if i < 0 || i >= vals.len() {
        None
    } else if required[i] && vals[i] is None {
        Some(i)
    } else {
        missing_from(vals, required, i + 1)
    }
}

/// The field values, or the error for the first required field without one.
pub open spec fn checked(vals: Seq<Option<PhotonDataType>>, keys: Seq<u8>, required: Seq<bool>) -> Result<Seq<Option<PhotonDataType>>, FromMapError> {
    match missing_from(vals, required, 0) {
        Some(i) => Err(FromMapError::MissingField(keys[i])),
        None => Ok(vals),
    }
}

/// The values stored under `keys`.
pub open spec fn found<K: View, V>(es: Seq<(K, V)>, keys: Seq<K::V>) -> Seq<Option<V>> {
    Seq::new(keys.len(), |i: int| lookup(es, keys[i]))
}

/// The entries without those stored under `keys`.
pub open spec fn remove_keys<K: View, V>(es: Seq<(K, V)>, keys: Seq<K::V>) -> Seq<(K, V)>
    decreases keys.len(),
{
    if keys.len() == 0 {
        es
    } else {
        remove_keys(remove_entry(es, keys[0]), keys.drop_first())
    }
}

/// The entries after storing `o` under `k`, if it is present.
pub open spec fn put<K: View, V>(es: Seq<(K, V)>, k: K, o: Option<V>) -> Seq<(K, V)> {
    match o {
        Some(v) => insert_entry(es, k, v),
        None => es,
    }
}

/// The entries after storing each present value under its key, in order.
pub open spec fn put_all<K: View, V>(es: Seq<(K, V)>, keys: Seq<K>, vals: Seq<Option<V>>) -> Seq<(K, V)>
    decreases keys.len(),
{
    if keys.len() == 0 {
        es
    } else {
        put_all(put(es, keys[0], vals[0]), keys.drop_first(), vals.drop_first())
    }
}

/// Keys of a hashtable that are bytes.
pub open spec fn byte_keys(keys: Seq<u8>) -> Seq<PhotonDataType> {
    keys.map_values(|k: u8| PhotonDataType::Byte(k))
}

/// The models of byte keys of a hashtable.
pub open spec fn byte_key_views(keys: Seq<u8>) -> Seq<PhotonValue> {
    keys.map_values(|k: u8| PhotonValue::Byte(k))
}

/// The entries whose keys are strings, with the strings as keys.
pub open spec fn custom_entries(es: Seq<(PhotonDataType, PhotonDataType)>) -> Seq<(String, PhotonDataType)>
    decreases es.len(),
{
    if es.len() == 0 {
        Seq::empty()
    } else {
        let init = custom_entries(es.drop_last());
        match es.last().0 {
            PhotonDataType::String(s) => init.push((s, es.last().1)),
            _ => init,
        }
    }
}

/// The entries after storing each custom entry under its string key, in order.
pub open spec fn put_custom(es: Seq<(PhotonDataType, PhotonDataType)>, custom: Seq<(String, PhotonDataType)>) -> Seq<(PhotonDataType, PhotonDataType)>
    decreases custom.len(),
{
    if custom.len() == 0 {
        es
    } else {
        put_custom(insert_entry(es, PhotonDataType::String(custom[0].0), custom[0].1), custom.drop_first())
    }
}

/* Lemmas on lookups */

/// Storing under one key leaves the others as they were.
pub proof fn lemma_put_other<K: View, V>(es: Seq<(K, V)>, k: K, o: Option<V>, other: K::V)
    requires
        keys_unique(es),
        k@ != other,
    ensures
        lookup(put(es, k, o), other) == lookup(es, other),
        keys_unique(put(es, k, o)),
{
    if let Some(v) = o {
        crate::ordered_map::lemma_insert_keeps_unique(es, k, v);
        let p = insert_entry(es, k, v);
        match index_of(es, k@) {
            Some(i) => {
                match index_of(es, other) {
                    Some(j) => {
                        lemma_index_of_unique(es, j);
                        assert(p[j] == (es[j].0, es[j].1));
                        lemma_index_of_unique(p, j);
                    },
                    None => {
                        if exists|j: int| 0 <= j < p.len() && #[trigger] p[j].0@ == other {
                            let j = choose|j: int| 0 <= j < p.len() && #[trigger] p[j].0@ == other;
                            assert(p[j].0 == es[j].0);
                        }
                    },
                }
            },
            None => {
                match index_of(es, other) {
                    Some(j) => {
                        lemma_index_of_unique(es, j);
                        assert(p[j] == es[j]);
                        lemma_index_of_unique(p, j);
                    },
                    None => {
                        if exists|j: int| 0 <= j < p.len() && #[trigger] p[j].0@ == other {
                            let j = choose|j: int| 0 <= j < p.len() && #[trigger] p[j].0@ == other;
                            if j < es.len() {
                                assert(p[j] == es[j]);
                            }
                        }
                    },
                }
            },
        }
    }
}

/// Removing keys leaves the values under the other keys as they were.
pub proof fn lemma_lookup_after_removes<K: View, V>(es: Seq<(K, V)>, keys: Seq<K::V>, other: K::V)
    requires
        keys_unique(es),
        !keys.contains(other),
    ensures
        lookup(remove_keys(es, keys), other) == lookup(es, other),
        keys_unique(remove_keys(es, keys)),
    decreases keys.len(),
{
    if keys.len() > 0 {
        assert(keys[0] != other);
        assert(keys.drop_first().contains(other) ==> keys.contains(other)) by {
            if keys.drop_first().contains(other) {
                let j = choose|j: int| 0 <= j < keys.drop_first().len() && keys.drop_first()[j] == other;
                assert(keys[j + 1] == other);
            }
        }
        lemma_remove_other(es, keys[0], other);
        lemma_lookup_after_removes(remove_entry(es, keys[0]), keys.drop_first(), other);
    }
}

/// Removing one key leaves the others as they were.
pub proof fn lemma_remove_other<K: View, V>(es: Seq<(K, V)>, k: K::V, other: K::V)
    requires
        keys_unique(es),
        k != other,
    ensures
        lookup(remove_entry(es, k), other) == lookup(es, other),
        keys_unique(remove_entry(es, k)),
{
    let r = remove_entry(es, k);
    match index_of(es, k) {
        Some(i) => {
            assert forall|a: int, b: int| 0 <= a < r.len() && 0 <= b < r.len() && a != b implies #[trigger] r[a].0@ != #[trigger] r[b].0@ by {
                let a2 = if a < i { a } else { a + 1 };
                let b2 = if b < i { b } else { b + 1 };
                assert(r[a] == es[a2] && r[b] == es[b2]);
            }
            match index_of(es, other) {
                Some(j) => {
                    lemma_index_of_unique(es, j);
                    lemma_index_of_unique(es, i);
                    let j2 = if j < i { j } else { j - 1 };
                    assert(r[j2] == es[j]);
                    lemma_index_of_unique(r, j2);
                },
                None => {
                    if exists|j: int| 0 <= j < r.len() && #[trigger] r[j].0@ == other {
                        let j = choose|j: int| 0 <= j < r.len() && #[trigger] r[j].0@ == other;
                        let j2 = if j < i { j } else { j + 1 };
                        assert(r[j] == es[j2]);
                    }
                },
            }
        },
        None => {},
    }
}

/* Reading fields out of maps, and writing them in */

/// Takes the values stored under `keys` out of a parameter map.
pub fn take_params(map: &mut ParameterMap, keys: &Vec<u8>) -> (r: Vec<Option<PhotonDataType>>)
    requires
        keys@.no_duplicates(),
    ensures
        r@ == found(old(map).entries(), keys@),
        final(map).entries() == remove_keys(old(map).entries(), keys@),
{
    proof {
        use_type_invariant(&*map);
    }
    let ghost orig = map.entries();
    let mut r: Vec<Option<PhotonDataType>> = Vec::new();
    let mut i: usize = 0;
    assert(keys@.subrange(0, keys@.len() as int) =~= keys@);
    while i < keys.len()
        invariant
            i <= keys@.len(),
            keys@.no_duplicates(),
            keys_unique(map.entries()),
            r@ == found(orig, keys@.subrange(0, i as int)),
            remove_keys(orig, keys@) == remove_keys(map.entries(), keys@.subrange(i as int, keys@.len() as int)),
            forall|j: int| i <= j < keys@.len() ==> lookup(map.entries(), #[trigger] keys@[j]) == lookup(orig, keys@[j]),
        decreases keys@.len() - i,
    {
        let ghost cur = map.entries();
        let k = keys[i];
        proof {
            assert forall|j: int| i < j < keys@.len() implies lookup(remove_entry(cur, k), #[trigger] keys@[j]) == lookup(cur, keys@[j]) by {
                lemma_remove_other(cur, k, keys@[j]);
            }
            lemma_remove_other(cur, k, if k == 0 { 1u8 } else { 0u8 });
            assert(keys@.subrange(i as int, keys@.len() as int).drop_first() =~= keys@.subrange(i + 1, keys@.len() as int));
        }
        let v = map.shift_remove(&k);
        r.push(v);
        assert(r@ =~= found(orig, keys@.subrange(0, i + 1)));
        i = i + 1;
    }
    assert(keys@.subrange(0, i as int) =~= keys@);
    r
}

/// Takes the values stored under the byte keys `keys` out of a hashtable.
pub fn take_table_fields(map: &mut PhotonHashmap, keys: &Vec<u8>) -> (r: Vec<Option<PhotonDataType>>)
    requires
        keys@.no_duplicates(),
    ensures
        r@ == found(old(map).entries(), byte_key_views(keys@)),
        final(map).entries() == remove_keys(old(map).entries(), byte_key_views(keys@)),
{
    proof {
        use_type_invariant(&*map);
    }
    let ghost orig = map.entries();
    let ghost ks = byte_key_views(keys@);
    assert(ks.no_duplicates()) by {
        assert forall|a: int, b: int| 0 <= a < ks.len() && 0 <= b < ks.len() && a != b implies ks[a] != ks[b] by {
            assert(keys@[a] != keys@[b]);
        }
    }
    let mut r: Vec<Option<PhotonDataType>> = Vec::new();
    let mut i: usize = 0;
    assert(ks.subrange(0, ks.len() as int) =~= ks);
    while i < keys.len()
        invariant
            i <= keys@.len(),
            ks == byte_key_views(keys@),
            ks.no_duplicates(),
            keys_unique(map.entries()),
            r@ == found(orig, ks.subrange(0, i as int)),
            remove_keys(orig, ks) == remove_keys(map.entries(), ks.subrange(i as int, ks.len() as int)),
            forall|j: int| i <= j < ks.len() ==> lookup(map.entries(), #[trigger] ks[j]) == lookup(orig, ks[j]),
        decreases keys@.len() - i,
    {
        let ghost cur = map.entries();
        let k = PhotonDataType::Byte(keys[i]);
        proof {
            assert(k@ == ks[i as int]);
            assert forall|j: int| i < j < ks.len() implies lookup(remove_entry(cur, k@), #[trigger] ks[j]) == lookup(cur, ks[j]) by {
                lemma_remove_other(cur, k@, ks[j]);
            }
            lemma_remove_other(cur, k@, PhotonValue::Null);
            assert(ks.subrange(i as int, ks.len() as int).drop_first() =~= ks.subrange(i + 1, ks.len() as int));
        }
        let v = map.shift_remove(&k);
        r.push(v);
        assert(r@ =~= found(orig, ks.subrange(0, i + 1)));
        i = i + 1;
    }
    assert(ks.subrange(0, i as int) =~= ks);
    r
}

/// Every entry of `custom_entries(es)` comes from an entry of `es` with a string key.
pub proof fn lemma_custom_entries_from(es: Seq<(PhotonDataType, PhotonDataType)>)
    ensures
        forall|j: int| 0 <= j < custom_entries(es).len() ==> exists|m: int| 0 <= m < es.len() && #[trigger] es[m].0 == PhotonDataType::String(#[trigger] custom_entries(es)[j].0),
    decreases es.len(),
{
    if es.len() > 0 {
        let init = es.drop_last();
        lemma_custom_entries_from(init);
        let c = custom_entries(es);
        assert forall|j: int| 0 <= j < c.len() implies exists|m: int| 0 <= m < es.len() && #[trigger] es[m].0 == PhotonDataType::String(#[trigger] c[j].0) by {
            if j < custom_entries(init).len() {
                let m = choose|m: int| 0 <= m < init.len() && #[trigger] init[m].0 == PhotonDataType::String(custom_entries(init)[j].0);
                assert(es[m] == init[m]);
            } else {
                assert(es[es.len() - 1].0 == PhotonDataType::String(c[j].0));
            }
        }
    }
}

/// Takes the entries with string keys out of a hashtable, emptying it.
pub fn drain_custom(map: &mut PhotonHashmap) -> (r: OrderedMap<String, PhotonDataType>)
    ensures
        r.entries() == custom_entries(old(map).entries()),
        final(map).entries() == Seq::<(PhotonDataType, PhotonDataType)>::empty(),
{
    proof {
        use_type_invariant(&*map);
    }
    let mut es = map.drain_all();
    let ghost orig = es@;
    assert(orig.len() == es.len());
    let mut custom: OrderedMap<String, PhotonDataType> = OrderedMap::new();
    let mut i: usize = 0;
    assert(orig.subrange(0, 0) =~= Seq::<(PhotonDataType, PhotonDataType)>::empty());
    while es.len() > 0
        invariant
            i <= orig.len(),
            orig.len() <= usize::MAX,
            keys_unique(orig),
            es@ == orig.subrange(i as int, orig.len() as int),
            custom.entries() == custom_entries(orig.subrange(0, i as int)),
        decreases es@.len(),
    {
        let (k, v) = es.remove(0);
        let ghost pre = orig.subrange(0, i as int);
        assert(orig.subrange(0, i + 1).drop_last() =~= pre);
        assert(orig[i as int] == (k, v));
        match k {
            PhotonDataType::String(s) => {
                proof {
                    lemma_custom_entries_from(pre);
                    let c = custom.entries();
                    if exists|j: int| 0 <= j < c.len() && #[trigger] c[j].0@ == s@ {
                        let j = choose|j: int| 0 <= j < c.len() && #[trigger] c[j].0@ == s@;
                        let m = choose|m: int| 0 <= m < pre.len() && #[trigger] pre[m].0 == PhotonDataType::String(#[trigger] custom_entries(pre)[j].0);
                        assert(orig[m] == pre[m]);
                        assert(orig[m].0@ == orig[i as int].0@);
                    }
                }
                custom.insert(s, v);
            },
            _ => {},
        }
        i = i + 1;
    }
    assert(orig.subrange(0, i as int) =~= orig);
    custom
}

/// Stores each present value under its key in a parameter map, in order.
pub fn put_params(map: &mut ParameterMap, keys: &Vec<u8>, vals: Vec<Option<PhotonDataType>>)
    requires
        keys@.len() == vals@.len(),
    ensures
        final(map).entries() == put_all(old(map).entries(), keys@, vals@),
{
    let ghost orig_vals = vals@;
    let mut vals = vals;
    let mut i: usize = 0;
    assert(keys@.subrange(0, keys@.len() as int) =~= keys@);
    assert(orig_vals.subrange(0, orig_vals.len() as int) =~= orig_vals);
    while vals.len() > 0
        invariant
            i <= keys@.len(),
            keys@.len() == orig_vals.len(),
            vals@.len() == keys@.len() - i,
            vals@ == orig_vals.subrange(i as int, orig_vals.len() as int),
            put_all(old(map).entries(), keys@, orig_vals) == put_all(map.entries(), keys@.subrange(i as int, keys@.len() as int), vals@),
        decreases vals@.len(),
    {
        let v = vals.remove(0);
        assert(i < keys.len());
        let k = keys[i];
        proof {
            assert(keys@.subrange(i as int, keys@.len() as int).drop_first() =~= keys@.subrange(i + 1, keys@.len() as int));
        }
        match v {
            Some(x) => map.insert(k, x),
            None => {},
        }
        i = i + 1;
    }
}

/// Stores each present value under its byte key in a hashtable, in order.
pub fn put_table_fields(map: &mut PhotonHashmap, keys: &Vec<u8>, vals: Vec<Option<PhotonDataType>>)
    requires
        keys@.len() == vals@.len(),
    ensures
        final(map).entries() == put_all(old(map).entries(), byte_keys(keys@), vals@),
{
    let ghost orig_vals = vals@;
    let ghost ks = byte_keys(keys@);
    let mut vals = vals;
    let mut i: usize = 0;
    assert(ks.subrange(0, ks.len() as int) =~= ks);
    assert(orig_vals.subrange(0, orig_vals.len() as int) =~= orig_vals);
    while vals.len() > 0
        invariant
            i <= keys@.len(),
            keys@.len() == orig_vals.len(),
            vals@.len() == keys@.len() - i,
            ks == byte_keys(keys@),
            vals@ == orig_vals.subrange(i as int, orig_vals.len() as int),
            put_all(old(map).entries(), ks, orig_vals) == put_all(map.entries(), ks.subrange(i as int, ks.len() as int), vals@),
        decreases vals@.len(),
    {
        let v = vals.remove(0);
        assert(i < keys.len());
        let k = PhotonDataType::Byte(keys[i]);
        proof {
            assert(ks.subrange(i as int, ks.len() as int).drop_first() =~= ks.subrange(i + 1, ks.len() as int));
            assert(ks[i as int] == k);
        }
        match v {
            Some(x) => map.insert(k, x),
            None => {},
        }
        i = i + 1;
    }
}

/// Stores each custom entry under its string key in a hashtable, in order.
pub fn put_custom_entries(map: &mut PhotonHashmap, custom: OrderedMap<String, PhotonDataType>)
    ensures
        final(map).entries() == put_custom(old(map).entries(), custom.entries()),
{
    let mut custom = custom;
    let mut es = custom.drain_all();
    let ghost orig = es@;
    while es.len() > 0
        invariant
            put_custom(old(map).entries(), orig) == put_custom(map.entries(), es@),
        decreases es@.len(),
    {
        let (k, v) = es.remove(0);
        map.insert(PhotonDataType::String(k), v);
    }
}

/// Removes the last value of a list of field values.
pub fn pop_field(vals: &mut Vec<Option<PhotonDataType>>) -> (r: Option<PhotonDataType>)
    requires
        old(vals)@.len() > 0,
    ensures
        r == old(vals)@.last(),
        final(vals)@ == old(vals)@.drop_last(),
{
    match vals.pop() {
        Some(x) => x,
        None => None,
    }
}


/* Typed field values */

/// The value of an optional field of type `bool`.
pub open spec fn bool_value(o: Option<bool>) -> Option<PhotonDataType> {
    match o {
        Some(x) => Some(PhotonDataType::Boolean(x)),
        None => None,
    }
}

/// The field of type `bool` held by a value, if it has that type.
pub fn bool_field(o: Option<PhotonDataType>) -> (r: Option<bool>)
    ensures
        bool_value(r) == of_kind(o, Some(crate::codec::BOOLEAN)),
{
    match o {
        Some(PhotonDataType::Boolean(x)) => Some(x),
        _ => None,
    }
}

/// The value of an optional field of type `u8`.
pub open spec fn byte_value(o: Option<u8>) -> Option<PhotonDataType> {
    match o {
        Some(x) => Some(PhotonDataType::Byte(x)),
        None => None,
    }
}

/// The field of type `u8` held by a value, if it has that type.
pub fn byte_field(o: Option<PhotonDataType>) -> (r: Option<u8>)
    ensures
        byte_value(r) == of_kind(o, Some(crate::codec::BYTE)),
{
    match o {
        Some(PhotonDataType::Byte(x)) => Some(x),
        _ => None,
    }
}

/// The value of an optional field of type `i16`.
pub open spec fn short_value(o: Option<i16>) -> Option<PhotonDataType> {
    match o {
        Some(x) => Some(PhotonDataType::Short(x)),
        None => None,
    }
}

/// The field of type `i16` held by a value, if it has that type.
pub fn short_field(o: Option<PhotonDataType>) -> (r: Option<i16>)
    ensures
        short_value(r) == of_kind(o, Some(crate::codec::SHORT)),
{
    match o {
        Some(PhotonDataType::Short(x)) => Some(x),
        _ => None,
    }
}

/// The value of an optional field of type `i32`.
pub open spec fn int_value(o: Option<i32>) -> Option<PhotonDataType> {
    match o {
        Some(x) => Some(PhotonDataType::Integer(x)),
        None => None,
    }
}

/// The field of type `i32` held by a value, if it has that type.
pub fn int_field(o: Option<PhotonDataType>) -> (r: Option<i32>)
    ensures
        int_value(r) == of_kind(o, Some(crate::codec::INTEGER)),
{
    match o {
        Some(PhotonDataType::Integer(x)) => Some(x),
        _ => None,
    }
}

/// The value of an optional field of type `String`.
pub open spec fn string_value(o: Option<String>) -> Option<PhotonDataType> {
    match o {
        Some(x) => Some(PhotonDataType::String(x)),
        None => None,
    }
}

/// The field of type `String` held by a value, if it has that type.
pub fn string_field(o: Option<PhotonDataType>) -> (r: Option<String>)
    ensures
        string_value(r) == of_kind(o, Some(crate::codec::STRING)),
{
    match o {
        Some(PhotonDataType::String(x)) => Some(x),
        _ => None,
    }
}

/// The value of an optional field of type `Vec<String>`.
pub open spec fn string_array_value(o: Option<Vec<String>>) -> Option<PhotonDataType> {
    match o {
        Some(x) => Some(PhotonDataType::StringArray(x)),
        None => None,
    }
}

/// The field of type `Vec<String>` held by a value, if it has that type.
pub fn string_array_field(o: Option<PhotonDataType>) -> (r: Option<Vec<String>>)
    ensures
        string_array_value(r) == of_kind(o, Some(crate::codec::STRING_ARRAY)),
{
    match o {
        Some(PhotonDataType::StringArray(x)) => Some(x),
        _ => None,
    }
}

/// The value of an optional field of type `Vec<i32>`.
pub open spec fn int_array_value(o: Option<Vec<i32>>) -> Option<PhotonDataType> {
    match o {
        Some(x) => Some(PhotonDataType::IntArray(x)),
        None => None,
    }
}

/// The field of type `Vec<i32>` held by a value, if it has that type.
pub fn int_array_field(o: Option<PhotonDataType>) -> (r: Option<Vec<i32>>)
    ensures
        int_array_value(r) == of_kind(o, Some(crate::codec::INT_ARRAY)),
{
    match o {
        Some(PhotonDataType::IntArray(x)) => Some(x),
        _ => None,
    }
}

/// The value of an optional field of type `Vec<PhotonDataType>`.
pub open spec fn object_array_value(o: Option<Vec<PhotonDataType>>) -> Option<PhotonDataType> {
    match o {
        Some(x) => Some(PhotonDataType::ObjectArray(x)),
        None => None,
    }
}

/// The field of type `Vec<PhotonDataType>` held by a value, if it has that type.
pub fn object_array_field(o: Option<PhotonDataType>) -> (r: Option<Vec<PhotonDataType>>)
    ensures
        object_array_value(r) == of_kind(o, Some(crate::codec::OBJECT_ARRAY)),
{
    match o {
        Some(PhotonDataType::ObjectArray(x)) => Some(x),
        _ => None,
    }
}

/// The value of an optional field of type `Vec<PhotonDataType>`.
pub open spec fn array_value(o: Option<Vec<PhotonDataType>>) -> Option<PhotonDataType> {
    match o {
        Some(x) => Some(PhotonDataType::Array(x)),
        None => None,
    }
}

/// The field of type `Vec<PhotonDataType>` held by a value, if it has that type.
pub fn array_field(o: Option<PhotonDataType>) -> (r: Option<Vec<PhotonDataType>>)
    ensures
        array_value(r) == of_kind(o, Some(crate::codec::ARRAY)),
{
    match o {
        Some(PhotonDataType::Array(x)) => Some(x),
        _ => None,
    }
}

/// The value of an optional field of type `PhotonHashmap`.
pub open spec fn hashtable_value(o: Option<PhotonHashmap>) -> Option<PhotonDataType> {
    match o {
        Some(x) => Some(PhotonDataType::Hashtable(x)),
        None => None,
    }
}

/// The field of type `PhotonHashmap` held by a value, if it has that type.
pub fn hashtable_field(o: Option<PhotonDataType>) -> (r: Option<PhotonHashmap>)
    ensures
        hashtable_value(r) == of_kind(o, Some(crate::codec::HASHTABLE)),
{
    match o {
        Some(PhotonDataType::Hashtable(x)) => Some(x),
        _ => None,
    }
}

/// The value of an optional field of type `CustomData`.
pub open spec fn custom_value(o: Option<CustomData>) -> Option<PhotonDataType> {
    match o {
        Some(x) => Some(PhotonDataType::Custom(x)),
        None => None,
    }
}

/// The field of type `CustomData` held by a value, if it has that type.
pub fn custom_field(o: Option<PhotonDataType>) -> (r: Option<CustomData>)
    ensures
        custom_value(r) == of_kind(o, Some(crate::codec::CUSTOM)),
{
    match o {
        Some(PhotonDataType::Custom(x)) => Some(x),
        _ => None,
    }
}

/* What is written reads back */

/// Distinct keys stay distinct after storing values under distinct keys, and each of them then
/// holds its stored value, if one was stored.
pub proof fn lemma_put_all_lookup<K: View, V>(es: Seq<(K, V)>, ks: Seq<K>, vals: Seq<Option<V>>)
    requires
        keys_unique(es),
        ks.len() == vals.len(),
        forall|a: int, b: int| 0 <= a < ks.len() && 0 <= b < ks.len() && a != b ==> #[trigger] ks[a]@ != #[trigger] ks[b]@,
    ensures
        keys_unique(put_all(es, ks, vals)),
        forall|i: int| 0 <= i < ks.len() ==> lookup(put_all(es, ks, vals), #[trigger] ks[i]@) == if vals[i] is Some {
            vals[i]
        } else {
            lookup(es, ks[i]@)
        },
    decreases ks.len(),
{
    if ks.len() > 0 {
        let es1 = put(es, ks[0], vals[0]);
        if let Some(v) = vals[0] {
            crate::ordered_map::lemma_insert_keeps_unique(es, ks[0], v);
        }
        let rest = ks.drop_first();
        assert forall|a: int, b: int| 0 <= a < rest.len() && 0 <= b < rest.len() && a != b implies #[trigger] rest[a]@ != #[trigger] rest[b]@ by {
            assert(rest[a] == ks[a + 1] && rest[b] == ks[b + 1]);
        }
        lemma_put_all_lookup(es1, rest, vals.drop_first());
        lemma_put_all_other(es1, rest, vals.drop_first(), ks[0]@);
        assert forall|i: int| 0 <= i < ks.len() implies lookup(put_all(es, ks, vals), #[trigger] ks[i]@) == if vals[i] is Some {
            vals[i]
        } else {
            lookup(es, ks[i]@)
        } by {
            if i > 0 {
                assert(rest[i - 1] == ks[i]);
                assert(ks[0]@ != ks[i]@);
                lemma_put_other(es, ks[0], vals[0], ks[i]@);
            }
        }
    }
}

/// After storing values under distinct keys, the key at `i` holds its stored value, if one was
/// stored.
pub proof fn lemma_put_all_lookup_at<K: View, V>(es: Seq<(K, V)>, ks: Seq<K>, vals: Seq<Option<V>>, i: int)
    requires
        keys_unique(es),
        ks.len() == vals.len(),
        forall|a: int, b: int| 0 <= a < ks.len() && 0 <= b < ks.len() && a != b ==> #[trigger] ks[a]@ != #[trigger] ks[b]@,
        0 <= i < ks.len(),
    ensures
        lookup(put_all(es, ks, vals), ks[i]@) == if vals[i] is Some {
            vals[i]
        } else {
            lookup(es, ks[i]@)
        },
{
    lemma_put_all_lookup(es, ks, vals);
    assert(lookup(put_all(es, ks, vals), ks[i]@) == if vals[i] is Some {
        vals[i]
    } else {
        lookup(es, ks[i]@)
    });
}

/// Storing values under keys leaves any other key as it was.
pub proof fn lemma_put_all_other<K: View, V>(es: Seq<(K, V)>, ks: Seq<K>, vals: Seq<Option<V>>, k: K::V)
    requires
        keys_unique(es),
        ks.len() == vals.len(),
        forall|i: int| 0 <= i < ks.len() ==> #[trigger] ks[i]@ != k,
    ensures
        lookup(put_all(es, ks, vals), k) == lookup(es, k),
        keys_unique(put_all(es, ks, vals)),
    decreases ks.len(),
{
    if ks.len() > 0 {
        assert(ks[0]@ != k);
        lemma_put_other(es, ks[0], vals[0], k);
        let rest = ks.drop_first();
        assert forall|i: int| 0 <= i < rest.len() implies #[trigger] rest[i]@ != k by {
            assert(rest[i] == ks[i + 1]);
        }
        lemma_put_all_other(put(es, ks[0], vals[0]), rest, vals.drop_first(), k);
    }
}

/// No required field is missing when each has a value.
pub proof fn lemma_none_missing(vals: Seq<Option<PhotonDataType>>, required: Seq<bool>, i: int)
    requires
        0 <= i,
        forall|j: int| 0 <= j < vals.len() && required[j] ==> #[trigger] vals[j] is Some,
    ensures
        missing_from(vals, required, i) is None,
    decreases vals.len() - i,
{
    if i < vals.len() {
        lemma_none_missing(vals, required, i + 1);
    }
}

/// Reading back the fields written into an empty parameter map gives them back, and leaves no
/// entry behind.
pub proof fn lemma_params_roundtrip(keys: Seq<u8>, kinds: Seq<Option<u8>>, required: Seq<bool>, vals: Seq<Option<PhotonDataType>>)
    requires
        keys.no_duplicates(),
        kinds.len() == keys.len(),
        required.len() == keys.len(),
        vals.len() == keys.len(),
        forall|i: int| 0 <= i < keys.len() ==> of_kind(#[trigger] vals[i], kinds[i]) == vals[i],
        forall|i: int| 0 <= i < keys.len() && required[i] ==> #[trigger] vals[i] is Some,
    ensures
        checked(kinded(found(put_all(Seq::<(u8, PhotonDataType)>::empty(), keys, vals), keys), kinds), keys, required) == Ok::<Seq<Option<PhotonDataType>>, FromMapError>(vals),
{
    let es = put_all(Seq::<(u8, PhotonDataType)>::empty(), keys, vals);
    lemma_put_all_lookup(Seq::<(u8, PhotonDataType)>::empty(), keys, vals);
    let f = found(es, keys);
    assert forall|i: int| 0 <= i < keys.len() implies #[trigger] f[i] == vals[i] by {
        lemma_put_all_lookup_at(Seq::<(u8, PhotonDataType)>::empty(), keys, vals, i);
        assert(lookup(es, keys[i]@) == lookup(es, keys[i]));
        assert(index_of(Seq::<(u8, PhotonDataType)>::empty(), keys[i]) is None);
        assert(f[i] == lookup(es, keys[i]));
    }
    assert(kinded(f, kinds) =~= vals);
    lemma_none_missing(vals, required, 0);
}

/// Updating the value of an entry whose key is not a string leaves the string-keyed entries as
/// they were.
pub proof fn lemma_custom_update(es: Seq<(PhotonDataType, PhotonDataType)>, i: int, v: PhotonDataType)
    requires
        0 <= i < es.len(),
        !(es[i].0 is String),
    ensures
        custom_entries(es.update(i, (es[i].0, v))) == custom_entries(es),
    decreases es.len(),
{
    let u = es.update(i, (es[i].0, v));
    if i == es.len() - 1 {
        assert(u.drop_last() =~= es.drop_last());
    } else {
        assert(u.drop_last() =~= es.drop_last().update(i, (es[i].0, v)));
        lemma_custom_update(es.drop_last(), i, v);
    }
}

/// Removing an entry whose key is not a string leaves the string-keyed entries as they were.
pub proof fn lemma_custom_remove(es: Seq<(PhotonDataType, PhotonDataType)>, i: int)
    requires
        0 <= i < es.len(),
        !(es[i].0 is String),
    ensures
        custom_entries(es.remove(i)) == custom_entries(es),
    decreases es.len(),
{
    if i == es.len() - 1 {
        assert(es.remove(i) =~= es.drop_last());
    } else {
        assert(es.remove(i).drop_last() =~= es.drop_last().remove(i));
        assert(es.remove(i).last() == es.last());
        lemma_custom_remove(es.drop_last(), i);
    }
}

/// Storing or removing under byte keys leaves the string-keyed entries as they were.
pub proof fn lemma_custom_bytes(es: Seq<(PhotonDataType, PhotonDataType)>, ks: Seq<u8>, vals: Seq<Option<PhotonDataType>>)
    requires
        ks.len() == vals.len(),
    ensures
        custom_entries(put_all(es, byte_keys(ks), vals)) == custom_entries(es),
        custom_entries(remove_keys(es, byte_key_views(ks))) == custom_entries(es),
    decreases ks.len(),
{
    if ks.len() > 0 {
        let k = PhotonDataType::Byte(ks[0]);
        assert(byte_keys(ks)[0] == k);
        assert(byte_key_views(ks)[0] == k@);
        let es1 = put(es, k, vals[0]);
        if let Some(v) = vals[0] {
            match index_of(es, k@) {
                Some(i) => {
                    lemma_custom_update(es, i, v);
                },
                None => {
                    assert(es.push((k, v)).drop_last() =~= es);
                },
            }
        }
        let es2 = remove_entry(es, k@);
        match index_of(es, k@) {
            Some(i) => {
                lemma_custom_remove(es, i);
            },
            None => {},
        }
        assert(byte_keys(ks).drop_first() =~= byte_keys(ks.drop_first()));
        assert(byte_key_views(ks).drop_first() =~= byte_key_views(ks.drop_first()));
        lemma_custom_bytes(es1, ks.drop_first(), vals.drop_first());
        lemma_custom_bytes(es2, ks.drop_first(), vals.drop_first());
    }
}

/// Storing custom entries under new, distinct string keys appends them to the string-keyed
/// entries.
pub proof fn lemma_custom_put(es: Seq<(PhotonDataType, PhotonDataType)>, custom: Seq<(String, PhotonDataType)>)
    requires
        keys_unique(custom),
        forall|j: int| 0 <= j < custom.len() ==> index_of(es, PhotonValue::String(#[trigger] custom[j].0@)) is None,
    ensures
        custom_entries(put_custom(es, custom)) == custom_entries(es) + custom,
    decreases custom.len(),
{
    if custom.len() == 0 {
        assert(custom_entries(es) + custom =~= custom_entries(es));
    } else {
        let k = PhotonDataType::String(custom[0].0);
        assert(index_of(es, k@) is None);
        let es1 = es.push((k, custom[0].1));
        assert(es1.drop_last() =~= es);
        let rest = custom.drop_first();
        assert forall|a: int, b: int| 0 <= a < rest.len() && 0 <= b < rest.len() && a != b implies #[trigger] rest[a].0@ != #[trigger] rest[b].0@ by {
            assert(rest[a] == custom[a + 1] && rest[b] == custom[b + 1]);
        }
        assert forall|j: int| 0 <= j < rest.len() implies index_of(es1, PhotonValue::String(#[trigger] rest[j].0@)) is None by {
            assert(rest[j] == custom[j + 1]);
            assert(custom[j + 1].0@ != custom[0].0@);
            assert(index_of(es, PhotonValue::String(custom[j + 1].0@)) is None);
            if exists|m: int| 0 <= m < es1.len() && #[trigger] es1[m].0@ == PhotonValue::String(rest[j].0@) {
                let m = choose|m: int| 0 <= m < es1.len() && #[trigger] es1[m].0@ == PhotonValue::String(rest[j].0@);
                if m < es.len() {
                    assert(es[m].0@ == PhotonValue::String(custom[j + 1].0@));
                }
            }
        }
        lemma_custom_put(es1, rest);
        assert(custom_entries(es1) == custom_entries(es).push(custom[0]));
        assert(custom_entries(es).push(custom[0]) + rest =~= custom_entries(es) + custom);
    }
}

/// Storing under string keys leaves the byte keys as they were.
pub proof fn lemma_put_custom_other(es: Seq<(PhotonDataType, PhotonDataType)>, custom: Seq<(String, PhotonDataType)>, k: u8)
    requires
        keys_unique(es),
    ensures
        lookup(put_custom(es, custom), PhotonValue::Byte(k)) == lookup(es, PhotonValue::Byte(k)),
        keys_unique(put_custom(es, custom)),
    decreases custom.len(),
{
    if custom.len() > 0 {
        let key = PhotonDataType::String(custom[0].0);
        lemma_put_other(es, key, Some(custom[0].1), PhotonValue::Byte(k));
        lemma_put_custom_other(insert_entry(es, key, custom[0].1), custom.drop_first(), k);
    }
}

/// Reading back the fields and custom entries written into an empty hashtable gives them back.
pub proof fn lemma_table_roundtrip(
    keys: Seq<u8>,
    kinds: Seq<Option<u8>>,
    required: Seq<bool>,
    vals: Seq<Option<PhotonDataType>>,
    custom: Seq<(String, PhotonDataType)>,
)
    requires
        keys.no_duplicates(),
        kinds.len() == keys.len(),
        required.len() == keys.len(),
        vals.len() == keys.len(),
        forall|i: int| 0 <= i < keys.len() ==> of_kind(#[trigger] vals[i], kinds[i]) == vals[i],
        forall|i: int| 0 <= i < keys.len() && required[i] ==> #[trigger] vals[i] is Some,
        keys_unique(custom),
    ensures
        checked(kinded(found(put_custom(put_all(Seq::empty(), byte_keys(keys), vals), custom), byte_key_views(keys)), kinds), keys, required) == Ok::<Seq<Option<PhotonDataType>>, FromMapError>(vals),
        custom_entries(remove_keys(put_custom(put_all(Seq::empty(), byte_keys(keys), vals), custom), byte_key_views(keys))) == custom,
{
    let empty = Seq::<(PhotonDataType, PhotonDataType)>::empty();
    let bk = byte_keys(keys);
    let e1 = put_all(empty, bk, vals);
    let e2 = put_custom(e1, custom);
    assert forall|a: int, b: int| 0 <= a < bk.len() && 0 <= b < bk.len() && a != b implies #[trigger] bk[a]@ != #[trigger] bk[b]@ by {
        assert(keys[a] != keys[b]);
    }
    lemma_put_all_lookup(empty, bk, vals);
    let f = found(e2, byte_key_views(keys));
    assert forall|i: int| 0 <= i < keys.len() implies (#[trigger] f[i]) == vals[i] by {
        lemma_put_custom_other(e1, custom, keys[i]);
        assert(bk[i]@ == PhotonValue::Byte(keys[i]));
        assert(byte_key_views(keys)[i] == PhotonValue::Byte(keys[i]));
        assert(lookup(e1, bk[i]@) == if vals[i] is Some { vals[i] } else { lookup(empty, bk[i]@) });
        assert(index_of(empty, bk[i]@) is None);
        assert(f[i] == lookup(e2, byte_key_views(keys)[i]));
        assert(lookup(e2, PhotonValue::Byte(keys[i])) == lookup(e1, PhotonValue::Byte(keys[i])));
        assert(lookup(empty, bk[i]@) is None);
        if vals[i] is Some {
            assert(f[i] == vals[i]);
        } else {
            assert(f[i] is None);
        }
    }
    assert(kinded(f, kinds) =~= vals);
    lemma_none_missing(vals, required, 0);
    lemma_custom_bytes(empty, keys, vals);
    assert(custom_entries(empty) =~= Seq::<(String, PhotonDataType)>::empty());
    lemma_put_all_custom_free(empty, keys, vals);
    assert forall|j: int| 0 <= j < custom.len() implies index_of(e1, PhotonValue::String(#[trigger] custom[j].0@)) is None by {
        if exists|m: int| 0 <= m < e1.len() && #[trigger] e1[m].0@ == PhotonValue::String(custom[j].0@) {
            let m = choose|m: int| 0 <= m < e1.len() && #[trigger] e1[m].0@ == PhotonValue::String(custom[j].0@);
            assert(e1[m].0 is Byte);
        }
    }
    lemma_custom_put(e1, custom);
    lemma_put_custom_other(e1, custom, 0);
    lemma_custom_bytes(e2, keys, vals);
    assert(custom_entries(e1) + custom =~= custom);
}

/* What is read reads back */

/// Looked up by their strings, the string-keyed entries are the entries of the map under those
/// strings, and their keys stay distinct.
pub proof fn lemma_custom_lookup(es: Seq<(PhotonDataType, PhotonDataType)>, s: Seq<char>)
    requires
        keys_unique(es),
    ensures
        keys_unique(custom_entries(es)),
        lookup(custom_entries(es), s) == lookup(es, PhotonValue::String(s)),
    decreases es.len(),
{
    if es.len() > 0 {
        let init = es.drop_last();
        let last = es.last();
        assert(init.push(last) =~= es);
        assert forall|a: int, b: int| 0 <= a < init.len() && 0 <= b < init.len() && a != b implies #[trigger] init[a].0@ != #[trigger] init[b].0@ by {
            assert(init[a] == es[a] && init[b] == es[b]);
        }
        lemma_custom_lookup(init, s);
        lemma_lookup_push(init, last.0, last.1, PhotonValue::String(s));
        match last.0 {
            PhotonDataType::String(x) => {
                let c = custom_entries(init);
                let t = c.push((x, last.1));
                lemma_custom_entries_from(init);
                assert forall|a: int, b: int| 0 <= a < t.len() && 0 <= b < t.len() && a != b implies #[trigger] t[a].0@ != #[trigger] t[b].0@ by {
                    if a == c.len() || b == c.len() {
                        let j = if a == c.len() { b } else { a };
                        let m = choose|m: int| 0 <= m < init.len() && #[trigger] init[m].0 == PhotonDataType::String(#[trigger] c[j].0);
                        assert(es[m] == init[m]);
                        assert(es[m].0@ != es[es.len() - 1].0@);
                        assert(t[j] == c[j]);
                    } else {
                        assert(t[a] == c[a] && t[b] == c[b]);
                    }
                }
                lemma_lookup_push(c, x, last.1, s);
            },
            _ => {},
        }
    }
}

/// After storing custom entries under their string keys, a string key gives the custom entry
/// stored under it, if any, and every other key what it gave before.
pub proof fn lemma_put_custom_lookup(es: Seq<(PhotonDataType, PhotonDataType)>, custom: Seq<(String, PhotonDataType)>, q: PhotonValue)
    requires
        keys_unique(es),
        keys_unique(custom),
    ensures
        keys_unique(put_custom(es, custom)),
        lookup(put_custom(es, custom), q) == match q {
            PhotonValue::String(s) => match lookup(custom, s) {
                Some(v) => Some(v),
                None => lookup(es, q),
            },
            _ => lookup(es, q),
        },
    decreases custom.len(),
{
    if custom.len() > 0 {
        let k = PhotonDataType::String(custom[0].0);
        let es1 = insert_entry(es, k, custom[0].1);
        lemma_insert_keeps_unique(es, k, custom[0].1);
        if let PhotonValue::String(s) = q {
            lemma_lookup_first(custom, s);
        } else {
            lemma_lookup_first(custom, Seq::empty());
        }
        lemma_put_custom_lookup(es1, custom.drop_first(), q);
        if k@ != q {
            lemma_put_other(es, k, Some(custom[0].1), q);
        }
    }
}

/// Every entry of `es` is string-keyed, or stored under the key of a field with a value of the
/// field's type.
pub open spec fn table_typed(es: Seq<(PhotonDataType, PhotonDataType)>, keys: Seq<u8>, kinds: Seq<Option<u8>>) -> bool {
    forall|m: int|
        0 <= m < es.len() ==> (#[trigger] es[m]).0 is String || exists|i: int|
            0 <= i < keys.len() && es[m].0@ == PhotonValue::Byte(keys[i]) && of_kind(Some(es[m].1), kinds[i]) == Some(es[m].1)
}

/// The entries written back, into an empty table, after reading the fields and the custom
/// properties out of the table `es`.
pub open spec fn table_rewritten(es: Seq<(PhotonDataType, PhotonDataType)>, keys: Seq<u8>, kinds: Seq<Option<u8>>) -> Seq<(PhotonDataType, PhotonDataType)> {
    put_custom(
        put_all(Seq::empty(), byte_keys(keys), kinded(found(es, byte_key_views(keys)), kinds)),
        custom_entries(remove_keys(es, byte_key_views(keys))),
    )
}

/// Writing back what was read out of a table whose entries are string-keyed or well-typed fields
/// gives a table with the same entries: each key gives the value it gave before, and the keys
/// stay distinct. Only the order may differ, the fields coming first.
pub proof fn lemma_table_reread(keys: Seq<u8>, kinds: Seq<Option<u8>>, es: Seq<(PhotonDataType, PhotonDataType)>)
    requires
        keys.no_duplicates(),
        kinds.len() == keys.len(),
        keys_unique(es),
        table_typed(es, keys, kinds),
    ensures
        keys_unique(table_rewritten(es, keys, kinds)),
        forall|q: PhotonValue| #[trigger] lookup(table_rewritten(es, keys, kinds), q) == lookup(es, q),
{
    let empty = Seq::<(PhotonDataType, PhotonDataType)>::empty();
    let bk = byte_keys(keys);
    let bkv = byte_key_views(keys);
    let vals = kinded(found(es, bkv), kinds);
    let rk = remove_keys(es, bkv);
    let custom = custom_entries(rk);
    let e1 = put_all(empty, bk, vals);
    assert forall|a: int, b: int| 0 <= a < bk.len() && 0 <= b < bk.len() && a != b implies #[trigger] bk[a]@ != #[trigger] bk[b]@ by {
        assert(keys[a] != keys[b]);
    }
    lemma_put_all_lookup(empty, bk, vals);
    assert(!bkv.contains(PhotonValue::Null));
    lemma_lookup_after_removes(es, bkv, PhotonValue::Null);
    lemma_custom_lookup(rk, Seq::empty());
    lemma_put_custom_lookup(e1, custom, PhotonValue::Null);
    assert forall|q: PhotonValue| #[trigger] lookup(table_rewritten(es, keys, kinds), q) == lookup(es, q) by {
        lemma_put_custom_lookup(e1, custom, q);
        match q {
            PhotonValue::String(s) => {
                lemma_custom_lookup(rk, s);
                assert(!bkv.contains(q));
                lemma_lookup_after_removes(es, bkv, q);
                assert forall|i: int| 0 <= i < bk.len() implies #[trigger] bk[i]@ != q by {}
                lemma_put_all_other(empty, bk, vals, q);
            },
            PhotonValue::Byte(b) => {
                lemma_put_custom_lookup(e1, custom, q);
                if exists|i: int| 0 <= i < keys.len() && keys[i] == b {
                    let i = choose|i: int| 0 <= i < keys.len() && keys[i] == b;
                    lemma_put_all_lookup_at(empty, bk, vals, i);
                    assert(bk[i]@ == q);
                    assert(bkv[i] == q);
                    assert(vals[i] == of_kind(lookup(es, q), kinds[i]));
                    match index_of(es, q) {
                        Some(m) => {
                            assert(es[m].0@ == q);
                            assert(!(es[m].0 is String));
                            let i2 = choose|i2: int| 0 <= i2 < keys.len() && es[m].0@ == PhotonValue::Byte(keys[i2]) && of_kind(Some(es[m].1), kinds[i2]) == Some(es[m].1);
                            assert(keys[i2] == keys[i]);
                            assert(i2 == i);
                        },
                        None => {},
                    }
                } else {
                    assert forall|i: int| 0 <= i < bk.len() implies #[trigger] bk[i]@ != q by {
                        assert(bk[i]@ == PhotonValue::Byte(keys[i]));
                    }
                    lemma_put_all_other(empty, bk, vals, q);
                    if let Some(m) = index_of(es, q) {
                        assert(es[m].0@ == q);
                        assert(!(es[m].0 is String));
                        let i2 = choose|i2: int| 0 <= i2 < keys.len() && es[m].0@ == PhotonValue::Byte(keys[i2]) && of_kind(Some(es[m].1), kinds[i2]) == Some(es[m].1);
                        assert(keys[i2] == b);
                    }
                }
            },
            _ => {
                assert forall|i: int| 0 <= i < bk.len() implies #[trigger] bk[i]@ != q by {
                    assert(bk[i]@ == PhotonValue::Byte(keys[i]));
                }
                lemma_put_all_other(empty, bk, vals, q);
                if let Some(m) = index_of(es, q) {
                    assert(es[m].0@ == q);
                    assert(!(es[m].0 is String));
                }
            },
        }
    }
}

/// A key that was removed is gone.
pub proof fn lemma_removed<K: View, V>(es: Seq<(K, V)>, keys: Seq<K::V>, k: K::V)
    requires
        keys_unique(es),
        keys.contains(k),
    ensures
        lookup(remove_keys(es, keys), k) is None,
    decreases keys.len(),
{
    let rest = keys.drop_first();
    if keys[0] == k {
        let r = remove_entry(es, k);
        if let Some(i) = index_of(es, k) {
            lemma_index_of_unique(es, i);
            if exists|j: int| 0 <= j < r.len() && #[trigger] r[j].0@ == k {
                let j = choose|j: int| 0 <= j < r.len() && #[trigger] r[j].0@ == k;
                let j2 = if j < i { j } else { j + 1 };
                assert(r[j] == es[j2]);
            }
        }
        assert(lookup(r, k) is None);
        if rest.contains(k) {
            assert forall|a: int, b: int| 0 <= a < r.len() && 0 <= b < r.len() && a != b implies #[trigger] r[a].0@ != #[trigger] r[b].0@ by {
                if let Some(i) = index_of(es, k) {
                    let a2 = if a < i { a } else { a + 1 };
                    let b2 = if b < i { b } else { b + 1 };
                    assert(r[a] == es[a2] && r[b] == es[b2]);
                }
            }
            lemma_removed(r, rest, k);
        } else {
            assert forall|a: int, b: int| 0 <= a < r.len() && 0 <= b < r.len() && a != b implies #[trigger] r[a].0@ != #[trigger] r[b].0@ by {
                if let Some(i) = index_of(es, k) {
                    let a2 = if a < i { a } else { a + 1 };
                    let b2 = if b < i { b } else { b + 1 };
                    assert(r[a] == es[a2] && r[b] == es[b2]);
                }
            }
            lemma_lookup_after_removes(r, rest, k);
        }
    } else {
        let j = choose|j: int| 0 <= j < keys.len() && keys[j] == k;
        assert(rest[j - 1] == k);
        lemma_remove_other(es, keys[0], k);
        lemma_removed(remove_entry(es, keys[0]), rest, k);
    }
}

/// Every field of a parameter map is stored with a value of the field's type.
pub open spec fn params_typed(es: Seq<(u8, PhotonDataType)>, keys: Seq<u8>, kinds: Seq<Option<u8>>) -> bool {
    forall|m: int, i: int|
        0 <= m < es.len() && 0 <= i < keys.len() && (#[trigger] es[m]).0 == #[trigger] keys[i] ==> of_kind(Some(es[m].1), kinds[i]) == Some(es[m].1)
}

/// The entries after reading the fields out of the parameter map `es` and writing them back into
/// what is left of it.
pub open spec fn params_rewritten(es: Seq<(u8, PhotonDataType)>, keys: Seq<u8>, kinds: Seq<Option<u8>>) -> Seq<(u8, PhotonDataType)> {
    put_all(remove_keys(es, keys), keys, kinded(found(es, keys), kinds))
}

/// Writing the fields read out of a parameter map back into what is left of it, where every
/// field had a value of its type, gives the same entries: each code gives the value it gave
/// before, and the codes stay distinct. Only the order may differ, the fields coming last.
pub proof fn lemma_params_reread(keys: Seq<u8>, kinds: Seq<Option<u8>>, es: Seq<(u8, PhotonDataType)>)
    requires
        keys.no_duplicates(),
        kinds.len() == keys.len(),
        keys_unique(es),
        params_typed(es, keys, kinds),
    ensures
        keys_unique(params_rewritten(es, keys, kinds)),
        forall|q: u8| #[trigger] lookup(params_rewritten(es, keys, kinds), q) == lookup(es, q),
{
    let vals = kinded(found(es, keys), kinds);
    let rk = remove_keys(es, keys);
    lemma_rk_unique(es, keys);
    assert forall|a: int, b: int| 0 <= a < keys.len() && 0 <= b < keys.len() && a != b implies #[trigger] keys[a]@ != #[trigger] keys[b]@ by {}
    lemma_put_all_lookup(rk, keys, vals);
    assert forall|q: u8| #[trigger] lookup(params_rewritten(es, keys, kinds), q) == lookup(es, q) by {
        if keys.contains(q) {
            let i = choose|i: int| 0 <= i < keys.len() && keys[i] == q;
            lemma_put_all_lookup_at(rk, keys, vals, i);
            lemma_removed(es, keys, q);
            assert(vals[i] == of_kind(lookup(es, q), kinds[i]));
            if let Some(m) = index_of(es, q) {
                assert(es[m].0 == keys[i]);
            }
        } else {
            assert forall|i: int| 0 <= i < keys.len() implies #[trigger] keys[i]@ != q by {}
            lemma_put_all_other(rk, keys, vals, q);
            lemma_lookup_after_removes(es, keys, q);
        }
    }
}

/// Removing keys keeps the remaining keys distinct.
pub proof fn lemma_rk_unique<K: View, V>(es: Seq<(K, V)>, keys: Seq<K::V>)
    requires
        keys_unique(es),
    ensures
        keys_unique(remove_keys(es, keys)),
    decreases keys.len(),
{
    if keys.len() > 0 {
        let r = remove_entry(es, keys[0]);
        assert forall|a: int, b: int| 0 <= a < r.len() && 0 <= b < r.len() && a != b implies #[trigger] r[a].0@ != #[trigger] r[b].0@ by {
            if let Some(i) = index_of(es, keys[0]) {
                let a2 = if a < i { a } else { a + 1 };
                let b2 = if b < i { b } else { b + 1 };
                assert(r[a] == es[a2] && r[b] == es[b2]);
            }
        }
        lemma_rk_unique(r, keys.drop_first());
    }
}

/// Storing under byte keys into a map whose keys are bytes gives a map whose keys are bytes.
pub proof fn lemma_put_all_custom_free(es: Seq<(PhotonDataType, PhotonDataType)>, ks: Seq<u8>, vals: Seq<Option<PhotonDataType>>)
    requires
        ks.len() == vals.len(),
        forall|m: int| 0 <= m < es.len() ==> #[trigger] es[m].0 is Byte,
    ensures
        forall|m: int| 0 <= m < put_all(es, byte_keys(ks), vals).len() ==> #[trigger] put_all(es, byte_keys(ks), vals)[m].0 is Byte,
    decreases ks.len(),
{
    if ks.len() > 0 {
        let k = PhotonDataType::Byte(ks[0]);
        assert(byte_keys(ks)[0] == k);
        let es1 = put(es, k, vals[0]);
        assert forall|m: int| 0 <= m < es1.len() implies #[trigger] es1[m].0 is Byte by {
            if let Some(v) = vals[0] {
                match index_of(es, k@) {
                    Some(i) => {},
                    None => {
                        if m < es.len() {
                            assert(es1[m] == es[m]);
                        }
                    },
                }
            }
        }
        assert(byte_keys(ks).drop_first() =~= byte_keys(ks.drop_first()));
        lemma_put_all_custom_free(es1, ks.drop_first(), vals.drop_first());
    }
}

/// The value stored for an optional field of type `bool`.
pub fn bool_entry(o: Option<bool>) -> (r: Option<PhotonDataType>)
    ensures
        r == bool_value(o),
{
    match o {
        Some(x) => Some(PhotonDataType::Boolean(x)),
        None => None,
    }
}

/// The value stored for an optional field of type `u8`.
pub fn byte_entry(o: Option<u8>) -> (r: Option<PhotonDataType>)
    ensures
        r == byte_value(o),
{
    match o {
        Some(x) => Some(PhotonDataType::Byte(x)),
        None => None,
    }
}

/// The value stored for an optional field of type `i16`.
pub fn short_entry(o: Option<i16>) -> (r: Option<PhotonDataType>)
    ensures
        r == short_value(o),
{
    match o {
        Some(x) => Some(PhotonDataType::Short(x)),
        None => None,
    }
}

/// The value stored for an optional field of type `i32`.
pub fn int_entry(o: Option<i32>) -> (r: Option<PhotonDataType>)
    ensures
        r == int_value(o),
{
    match o {
        Some(x) => Some(PhotonDataType::Integer(x)),
        None => None,
    }
}

/// The value stored for an optional field of type `String`.
pub fn string_entry(o: Option<String>) -> (r: Option<PhotonDataType>)
    ensures
        r == string_value(o),
{
    match o {
        Some(x) => Some(PhotonDataType::String(x)),
        None => None,
    }
}

/// The value stored for an optional field of type `Vec<String>`.
pub fn string_array_entry(o: Option<Vec<String>>) -> (r: Option<PhotonDataType>)
    ensures
        r == string_array_value(o),
{
    match o {
        Some(x) => Some(PhotonDataType::StringArray(x)),
        None => None,
    }
}

/// The value stored for an optional field of type `Vec<i32>`.
pub fn int_array_entry(o: Option<Vec<i32>>) -> (r: Option<PhotonDataType>)
    ensures
        r == int_array_value(o),
{
    match o {
        Some(x) => Some(PhotonDataType::IntArray(x)),
        None => None,
    }
}

/// The value stored for an optional field of type `Vec<PhotonDataType>`.
pub fn object_array_entry(o: Option<Vec<PhotonDataType>>) -> (r: Option<PhotonDataType>)
    ensures
        r == object_array_value(o),
{
    match o {
        Some(x) => Some(PhotonDataType::ObjectArray(x)),
        None => None,
    }
}

/// The value stored for an optional field of type `Vec<PhotonDataType>`.
pub fn array_entry(o: Option<Vec<PhotonDataType>>) -> (r: Option<PhotonDataType>)
    ensures
        r == array_value(o),
{
    match o {
        Some(x) => Some(PhotonDataType::Array(x)),
        None => None,
    }
}

/// The value stored for an optional field of type `PhotonHashmap`.
pub fn hashtable_entry(o: Option<PhotonHashmap>) -> (r: Option<PhotonDataType>)
    ensures
        r == hashtable_value(o),
{
    match o {
        Some(x) => Some(PhotonDataType::Hashtable(x)),
        None => None,
    }
}

/// The value stored for an optional field of type `CustomData`.
pub fn custom_entry(o: Option<CustomData>) -> (r: Option<PhotonDataType>)
    ensures
        r == custom_value(o),
{
    match o {
        Some(x) => Some(PhotonDataType::Custom(x)),
        None => None,
    }
}

/// The first required field without a value is the one at `i`.
pub proof fn lemma_missing_at(vals: Seq<Option<PhotonDataType>>, required: Seq<bool>, i: int, j: int)
    requires
        0 <= j <= i < vals.len(),
        required.len() == vals.len(),
        forall|m: int| 0 <= m < i ==> !(#[trigger] required[m] && vals[m] is None),
        required[i] && vals[i] is None,
    ensures
        missing_from(vals, required, j) == Some(i),
    decreases i - j,
{
    if j < i {
        lemma_missing_at(vals, required, i, j + 1);
    }
}

} // verus!
