//! The values that Photon messages carry, and their mathematical model.
use vstd::prelude::*;

use crate::ordered_map::{
    entries_index_of, entries_insert, entries_remove, entries_replace_value, index_of, insert_entry,
    keys_unique, lemma_index_of_unique, lemma_keys_differ, lookup, remove_entry, MapKey,
};

verus! {

/// The model of a [PhotonDataType]: the same shape, with sequences in place of vectors and
/// strings.
pub enum PhotonValue {
    Null,
    Boolean(bool),
    Byte(u8),
    Short(i16),
    Integer(i32),
    Long(i64),
    /// The bits of an IEEE 754 single-precision float.
    Float(u32),
    /// The bits of an IEEE 754 double-precision float.
    Double(u64),
    String(Seq<char>),
    ByteArray(Seq<u8>),
    IntArray(Seq<i32>),
    StringArray(Seq<Seq<char>>),
    ObjectArray(Seq<PhotonValue>),
    Array(Seq<PhotonValue>),
    Hashtable(Seq<(PhotonValue, PhotonValue)>),
    Custom(u8, Seq<u8>),
}

/// Data of a custom (user-registered) type: its type code and its serialized bytes.
#[derive(Debug)]
pub struct CustomData {
    pub type_code: u8,
    pub data: Vec<u8>,
}

/// A photon-serialized object.
#[derive(Debug)]
pub enum PhotonDataType {
    Null,
    Boolean(bool),
    Byte(u8),
    Short(i16),
    Integer(i32),
    Long(i64),
    /// A single-precision float, held as its bits.
    Float(u32),
    /// A double-precision float, held as its bits.
    Double(u64),
    String(String),
    ByteArray(Vec<u8>),
    IntArray(Vec<i32>),
    StringArray(Vec<String>),
    ObjectArray(Vec<PhotonDataType>),
    /// An array whose elements all have the same type.
    Array(Vec<PhotonDataType>),
    Hashtable(PhotonHashmap),
    Custom(CustomData),
}

/// A hashmap containing photon-serialized objects. It remembers the order in which its keys were
/// first inserted, and no two of its keys have the same model.
#[derive(Debug)]
pub struct PhotonHashmap {
    entries: Vec<(PhotonDataType, PhotonDataType)>,
}

pub open spec fn strings_view(s: Seq<String>) -> Seq<Seq<char>> {
    s.map_values(|x: String| x@)
}

pub open spec fn value_view(v: PhotonDataType) -> PhotonValue
    decreases v,
{
    match v {
        PhotonDataType::Null => PhotonValue::Null,
        PhotonDataType::Boolean(b) => PhotonValue::Boolean(b),
        PhotonDataType::Byte(b) => PhotonValue::Byte(b),
        PhotonDataType::Short(x) => PhotonValue::Short(x),
        PhotonDataType::Integer(x) => PhotonValue::Integer(x),
        PhotonDataType::Long(x) => PhotonValue::Long(x),
        PhotonDataType::Float(x) => PhotonValue::Float(x),
        PhotonDataType::Double(x) => PhotonValue::Double(x),
        PhotonDataType::String(s) => PhotonValue::String(s@),
        PhotonDataType::ByteArray(b) => PhotonValue::ByteArray(b@),
        PhotonDataType::IntArray(a) => PhotonValue::IntArray(a@),
        PhotonDataType::StringArray(a) => PhotonValue::StringArray(strings_view(a@)),
        PhotonDataType::ObjectArray(a) => PhotonValue::ObjectArray(values_view(a@)),
        PhotonDataType::Array(a) => PhotonValue::Array(values_view(a@)),
        PhotonDataType::Hashtable(m) => {
            proof {
                m.lemma_entries_decrease();
            }
            PhotonValue::Hashtable(pairs_view(m.entries()))
        },
        PhotonDataType::Custom(c) => PhotonValue::Custom(c.type_code, c.data@),
    }
}

pub open spec fn values_view(s: Seq<PhotonDataType>) -> Seq<PhotonValue>
    decreases s,
{
    if s.len() == 0 {
        Seq::empty()
    } else {
        values_view(s.drop_last()).push(value_view(s.last()))
    }
}

pub open spec fn pairs_view(s: Seq<(PhotonDataType, PhotonDataType)>) -> Seq<(PhotonValue, PhotonValue)>
    decreases s,
{
    if s.len() == 0 {
        Seq::empty()
    } else {
        pairs_view(s.drop_last()).push((value_view(s.last().0), value_view(s.last().1)))
    }
}

impl PhotonDataType {
    /// Whether `self` and `other` have the same model.
    pub fn same_value(&self, other: &Self) -> (r: bool)
        ensures
            r == (self@ == other@),
        decreases self,
    {
        match (self, other) {
            (PhotonDataType::Null, PhotonDataType::Null) => true,
            (PhotonDataType::Boolean(a), PhotonDataType::Boolean(b)) => *a == *b,
            (PhotonDataType::Byte(a), PhotonDataType::Byte(b)) => *a == *b,
            (PhotonDataType::Short(a), PhotonDataType::Short(b)) => *a == *b,
            (PhotonDataType::Integer(a), PhotonDataType::Integer(b)) => *a == *b,
            (PhotonDataType::Long(a), PhotonDataType::Long(b)) => *a == *b,
            (PhotonDataType::Float(a), PhotonDataType::Float(b)) => *a == *b,
            (PhotonDataType::Double(a), PhotonDataType::Double(b)) => *a == *b,
            (PhotonDataType::String(a), PhotonDataType::String(b)) => *a == *b,
            (PhotonDataType::ByteArray(a), PhotonDataType::ByteArray(b)) => bytes_equal(a, b),
            (PhotonDataType::IntArray(a), PhotonDataType::IntArray(b)) => ints_equal(a, b),
            (PhotonDataType::StringArray(a), PhotonDataType::StringArray(b)) => strings_equal(a, b),
            (PhotonDataType::ObjectArray(a), PhotonDataType::ObjectArray(b)) => values_equal(a, b),
            (PhotonDataType::Array(a), PhotonDataType::Array(b)) => values_equal(a, b),
            (PhotonDataType::Hashtable(a), PhotonDataType::Hashtable(b)) => pairs_equal(&a.entries, &b.entries),
            (PhotonDataType::Custom(a), PhotonDataType::Custom(b)) => a.type_code == b.type_code && bytes_equal(&a.data, &b.data),
            _ => false,
        }
    }
}

pub fn copy_bytes(a: &Vec<u8>) -> (r: Vec<u8>)
    ensures
        r@ == a@,
{
    let mut r: Vec<u8> = Vec::new();
    crate::wire::write_bytes(&mut r, a.as_slice());
    assert(r@ =~= a@);
    r
}

impl CustomData {
    pub fn deep_clone(&self) -> (r: Self)
        ensures
            r.type_code == self.type_code,
            r.data@ == self.data@,
    {
        CustomData { type_code: self.type_code, data: copy_bytes(&self.data) }
    }
}

pub fn copy_ints(a: &Vec<i32>) -> (r: Vec<i32>)
    ensures
        r@ == a@,
{
    let mut r: Vec<i32> = Vec::new();
    let mut i: usize = 0;
    while i < a.len()
        invariant
            i <= a@.len(),
            r@ == a@.subrange(0, i as int),
        decreases a@.len() - i,
    {
        r.push(a[i]);
        i = i + 1;
        assert(r@ =~= a@.subrange(0, i as int));
    }
    assert(a@.subrange(0, i as int) =~= a@);
    r
}

pub fn copy_strings(a: &Vec<String>) -> (r: Vec<String>)
    ensures
        strings_view(r@) == strings_view(a@),
{
    let mut r: Vec<String> = Vec::new();
    let mut i: usize = 0;
    while i < a.len()
        invariant
            i <= a@.len(),
            r@.len() == i,
            forall|j: int| 0 <= j < i ==> #[trigger] r@[j]@ == a@[j]@,
        decreases a@.len() - i,
    {
        r.push(a[i].clone());
        i = i + 1;
    }
    assert(strings_view(r@) =~= strings_view(a@));
    r
}

pub fn copy_values(a: &Vec<PhotonDataType>) -> (r: Vec<PhotonDataType>)
    ensures
        values_view(r@) == values_view(a@),
    decreases a,
{
    let mut r: Vec<PhotonDataType> = Vec::new();
    let mut i: usize = 0;
    while i < a.len()
        invariant
            i <= a@.len(),
            values_view(r@) == values_view(a@.subrange(0, i as int)),
        decreases a@.len() - i,
    {
        let x = a[i].deep_clone();
        let ghost prev = r@;
        r.push(x);
        proof {
            assert(r@.drop_last() =~= prev);
            assert(a@.subrange(0, i + 1).drop_last() =~= a@.subrange(0, i as int));
        }
        i = i + 1;
    }
    assert(a@.subrange(0, i as int) =~= a@);
    r
}

pub fn copy_pairs(a: &Vec<(PhotonDataType, PhotonDataType)>) -> (r: Vec<(PhotonDataType, PhotonDataType)>)
    ensures
        pairs_view(r@) == pairs_view(a@),
        r@.len() == a@.len(),
        forall|j: int| 0 <= j < a@.len() ==> #[trigger] r@[j].0@ == a@[j].0@,
    decreases a,
{
    let mut r: Vec<(PhotonDataType, PhotonDataType)> = Vec::new();
    let mut i: usize = 0;
    while i < a.len()
        invariant
            i <= a@.len(),
            r@.len() == i,
            forall|j: int| 0 <= j < i ==> #[trigger] r@[j].0@ == a@[j].0@,
            pairs_view(r@) == pairs_view(a@.subrange(0, i as int)),
        decreases a@.len() - i,
    {
        let k = a[i].0.deep_clone();
        let v = a[i].1.deep_clone();
        let ghost prev = r@;
        r.push((k, v));
        proof {
            assert(r@.drop_last() =~= prev);
            assert(a@.subrange(0, i + 1).drop_last() =~= a@.subrange(0, i as int));
        }
        i = i + 1;
    }
    assert(a@.subrange(0, i as int) =~= a@);
    r
}

impl PhotonDataType {
    /// A copy with the same model.
    pub fn deep_clone(&self) -> (r: Self)
        ensures
            r@ == self@,
        decreases self,
    {
        match self {
            PhotonDataType::Null => PhotonDataType::Null,
            PhotonDataType::Boolean(b) => PhotonDataType::Boolean(*b),
            PhotonDataType::Byte(b) => PhotonDataType::Byte(*b),
            PhotonDataType::Short(x) => PhotonDataType::Short(*x),
            PhotonDataType::Integer(x) => PhotonDataType::Integer(*x),
            PhotonDataType::Long(x) => PhotonDataType::Long(*x),
            PhotonDataType::Float(x) => PhotonDataType::Float(*x),
            PhotonDataType::Double(x) => PhotonDataType::Double(*x),
            PhotonDataType::String(s) => PhotonDataType::String(s.clone()),
            PhotonDataType::ByteArray(b) => PhotonDataType::ByteArray(copy_bytes(b)),
            PhotonDataType::IntArray(a) => PhotonDataType::IntArray(copy_ints(a)),
            PhotonDataType::StringArray(a) => PhotonDataType::StringArray(copy_strings(a)),
            PhotonDataType::ObjectArray(a) => PhotonDataType::ObjectArray(copy_values(a)),
            PhotonDataType::Array(a) => PhotonDataType::Array(copy_values(a)),
            PhotonDataType::Hashtable(m) => {
                let es = copy_pairs(&m.entries);
                proof {
                    use_type_invariant(m);
                    assert forall|a: int, b: int| 0 <= a < es@.len() && 0 <= b < es@.len() && a != b implies #[trigger] es@[a].0@ != #[trigger] es@[b].0@ by {
                        lemma_keys_differ(m.entries(), a, b);
                    }
                }
                PhotonDataType::Hashtable(PhotonHashmap { entries: es })
            },
            PhotonDataType::Custom(c) => PhotonDataType::Custom(c.deep_clone()),
        }
    }
}

impl MapKey for PhotonDataType {
    fn same_key(&self, other: &Self) -> (r: bool) {
        self.same_value(other)
    }
}

pub fn bytes_equal(a: &Vec<u8>, b: &Vec<u8>) -> (r: bool)
    ensures
        r == (a@ == b@),
{
    if a.len() != b.len() {
        return false;
    }
    let mut i: usize = 0;
    while i < a.len()
        invariant
            i <= a@.len(),
            a@.len() == b@.len(),
            forall|j: int| 0 <= j < i ==> a@[j] == b@[j],
        decreases a@.len() - i,
    {
        if a[i] != b[i] {
            return false;
        }
        i = i + 1;
    }
    assert(a@ =~= b@);
    true
}

pub fn ints_equal(a: &Vec<i32>, b: &Vec<i32>) -> (r: bool)
    ensures
        r == (a@ == b@),
{
    if a.len() != b.len() {
        return false;
    }
    let mut i: usize = 0;
    while i < a.len()
        invariant
            i <= a@.len(),
            a@.len() == b@.len(),
            forall|j: int| 0 <= j < i ==> a@[j] == b@[j],
        decreases a@.len() - i,
    {
        if a[i] != b[i] {
            return false;
        }
        i = i + 1;
    }
    assert(a@ =~= b@);
    true
}

pub fn strings_equal(a: &Vec<String>, b: &Vec<String>) -> (r: bool)
    ensures
        r == (strings_view(a@) == strings_view(b@)),
{
    if a.len() != b.len() {
        assert(strings_view(a@).len() != strings_view(b@).len());
        return false;
    }
    let mut i: usize = 0;
    while i < a.len()
        invariant
            i <= a@.len(),
            a@.len() == b@.len(),
            forall|j: int| 0 <= j < i ==> a@[j]@ == b@[j]@,
        decreases a@.len() - i,
    {
        if a[i] != b[i] {
            assert(strings_view(a@)[i as int] != strings_view(b@)[i as int]);
            return false;
        }
        i = i + 1;
    }
    assert(strings_view(a@) =~= strings_view(b@));
    true
}

pub proof fn lemma_values_view(s: Seq<PhotonDataType>)
    ensures
        values_view(s).len() == s.len(),
        forall|i: int| 0 <= i < s.len() ==> #[trigger] values_view(s)[i] == s[i]@,
    decreases s.len(),
{
    if s.len() > 0 {
        lemma_values_view(s.drop_last());
    }
}

pub proof fn lemma_pairs_view(s: Seq<(PhotonDataType, PhotonDataType)>)
    ensures
        pairs_view(s).len() == s.len(),
        forall|i: int| 0 <= i < s.len() ==> #[trigger] pairs_view(s)[i] == (s[i].0@, s[i].1@),
    decreases s.len(),
{
    if s.len() > 0 {
        lemma_pairs_view(s.drop_last());
    }
}

/// Inserting into a map of values, then taking the model, is inserting into the model.
pub proof fn lemma_insert_view(es: Seq<(PhotonDataType, PhotonDataType)>, k: PhotonDataType, v: PhotonDataType)
    requires
        keys_unique(es),
    ensures
        pairs_view(insert_entry(es, k, v)) == insert_entry(pairs_view(es), k@, v@),
        keys_unique(pairs_view(es)),
{
    let pv = pairs_view(es);
    lemma_pairs_view(es);
    assert forall|a: int, b: int| 0 <= a < pv.len() && 0 <= b < pv.len() && a != b implies #[trigger] pv[a].0@ != #[trigger] pv[b].0@ by {
        assert(es[a].0@ != es[b].0@);
    }
    let r = insert_entry(es, k, v);
    lemma_pairs_view(r);
    match index_of(es, k@) {
        Some(i) => {
            lemma_index_of_unique(pv, i);
            assert(pv[i].0@ == k@);
            assert(pairs_view(r) =~= insert_entry(pv, k@, v@));
        },
        None => {
            assert(index_of(pv, k@) is None) by {
                if exists|i: int| 0 <= i < pv.len() && #[trigger] pv[i].0@ == k@ {
                    let i = choose|i: int| 0 <= i < pv.len() && #[trigger] pv[i].0@ == k@;
                    assert(es[i].0@ == k@);
                }
            }
            assert(pairs_view(r) =~= insert_entry(pv, k@, v@));
        },
    }
}

pub fn values_equal(a: &Vec<PhotonDataType>, b: &Vec<PhotonDataType>) -> (r: bool)
    ensures
        r == (values_view(a@) == values_view(b@)),
    decreases a,
{
    proof {
        lemma_values_view(a@);
        lemma_values_view(b@);
    }
    if a.len() != b.len() {
        return false;
    }
    let mut i: usize = 0;
    while i < a.len()
        invariant
            i <= a@.len(),
            a@.len() == b@.len(),
            values_view(a@).len() == a@.len(),
            values_view(b@).len() == b@.len(),
            forall|j: int| 0 <= j < a@.len() ==> #[trigger] values_view(a@)[j] == a@[j]@,
            forall|j: int| 0 <= j < b@.len() ==> #[trigger] values_view(b@)[j] == b@[j]@,
            forall|j: int| 0 <= j < i ==> a@[j]@ == b@[j]@,
        decreases a@.len() - i,
    {
        if !a[i].same_value(&b[i]) {
            assert(values_view(a@)[i as int] != values_view(b@)[i as int]);
            return false;
        }
        i = i + 1;
    }
    assert(values_view(a@) =~= values_view(b@));
    true
}

pub fn pairs_equal(a: &Vec<(PhotonDataType, PhotonDataType)>, b: &Vec<(PhotonDataType, PhotonDataType)>) -> (r: bool)
    ensures
        r == (pairs_view(a@) == pairs_view(b@)),
    decreases a,
{
    proof {
        lemma_pairs_view(a@);
        lemma_pairs_view(b@);
    }
    if a.len() != b.len() {
        return false;
    }
    let mut i: usize = 0;
    while i < a.len()
        invariant
            i <= a@.len(),
            a@.len() == b@.len(),
            pairs_view(a@).len() == a@.len(),
            pairs_view(b@).len() == b@.len(),
            forall|j: int| 0 <= j < a@.len() ==> #[trigger] pairs_view(a@)[j] == (a@[j].0@, a@[j].1@),
            forall|j: int| 0 <= j < b@.len() ==> #[trigger] pairs_view(b@)[j] == (b@[j].0@, b@[j].1@),
            forall|j: int| 0 <= j < i ==> a@[j].0@ == b@[j].0@ && a@[j].1@ == b@[j].1@,
        decreases a@.len() - i,
    {
        if !a[i].0.same_value(&b[i].0) || !a[i].1.same_value(&b[i].1) {
            assert(pairs_view(a@)[i as int] != pairs_view(b@)[i as int]);
            return false;
        }
        i = i + 1;
    }
    assert(pairs_view(a@) =~= pairs_view(b@));
    true
}

impl View for PhotonValue {
    type V = PhotonValue;

    open spec fn view(&self) -> PhotonValue {
        *self
    }
}

impl View for PhotonDataType {
    type V = PhotonValue;

    open spec fn view(&self) -> PhotonValue {
        value_view(*self)
    }
}

impl PhotonHashmap {
    /// The entries, in order.
    pub closed spec fn entries(&self) -> Seq<(PhotonDataType, PhotonDataType)> {
        self.entries@
    }

    /// A map is larger than its entries, which lets definitions recurse into them.
    pub proof fn lemma_entries_decrease(&self)
        ensures
            decreases_to!(*self => self.entries()),
    {
        assert(decreases_to!(*self => self.entries));
        assert(decreases_to!(self.entries => self.entries@));
    }

    /// No two keys have the same model.
    #[verifier::type_invariant]
    pub open spec fn wf(&self) -> bool {
        keys_unique(self.entries())
    }

    pub fn new() -> (r: Self)
        ensures
            r.entries() == Seq::<(PhotonDataType, PhotonDataType)>::empty(),
    {
        PhotonHashmap { entries: Vec::new() }
    }

    /// The entries, in order.
    pub fn as_vec(&self) -> (r: &Vec<(PhotonDataType, PhotonDataType)>)
        ensures
            r@ == self.entries(),
    {
        &self.entries
    }

    pub fn len(&self) -> (r: usize)
        ensures
            r == self.entries().len(),
    {
        self.entries.len()
    }

    /// The key and value of the entry at `i`.
    pub fn entry_at(&self, i: usize) -> (r: (&PhotonDataType, &PhotonDataType))
        requires
            i < self.entries().len(),
        ensures
            *r.0 == self.entries()[i as int].0,
            *r.1 == self.entries()[i as int].1,
    {
        let e = &self.entries[i];
        (&e.0, &e.1)
    }

    /// The position of the entry whose key has the model of `k`.
    pub fn index_of(&self, k: &PhotonDataType) -> (r: Option<usize>)
        ensures
            r matches Some(i) ==> i < self.entries().len() && self.entries()[i as int].0@ == k@,
            r is None <==> index_of(self.entries(), k@) is None,
            r matches Some(i) ==> index_of(self.entries(), k@) == Some(i as int),
    {
        proof {
            use_type_invariant(self);
        }
        entries_index_of(&self.entries, k)
    }

    pub fn contains_key(&self, k: &PhotonDataType) -> (r: bool)
        ensures
            r == (index_of(self.entries(), k@) is Some),
    {
        self.index_of(k).is_some()
    }

    /// The value stored under `k`.
    pub fn get(&self, k: &PhotonDataType) -> (r: Option<&PhotonDataType>)
        ensures
            match r {
                Some(x) => lookup(self.entries(), k@) == Some(*x),
                None => lookup(self.entries(), k@) is None,
            },
    {
        match self.index_of(k) {
            Some(i) => Some(&self.entries[i].1),
            None => None,
        }
    }

    /// Stores `v` under `k`: an existing entry with an equal key keeps its place.
    pub fn insert(&mut self, k: PhotonDataType, v: PhotonDataType)
        ensures
            final(self).entries() == insert_entry(old(self).entries(), k, v),
    {
        proof {
            use_type_invariant(&*self);
        }
        let mut es: Vec<(PhotonDataType, PhotonDataType)> = Vec::new();
        std::mem::swap(&mut es, &mut self.entries);
        entries_insert(&mut es, k, v);
        self.entries = es;
    }

    /// Removes the entry with key `k`, keeping the order of the others, and returns its value.
    pub fn shift_remove(&mut self, k: &PhotonDataType) -> (r: Option<PhotonDataType>)
        ensures
            final(self).entries() == remove_entry(old(self).entries(), k@),
            r == lookup(old(self).entries(), k@),
    {
        proof {
            use_type_invariant(&*self);
        }
        let mut es: Vec<(PhotonDataType, PhotonDataType)> = Vec::new();
        std::mem::swap(&mut es, &mut self.entries);
        let r = entries_remove(&mut es, k);
        self.entries = es;
        r
    }

    /// Replaces the value of the entry at `i`, returning the previous value.
    pub fn replace_value_at(&mut self, i: usize, v: PhotonDataType) -> (r: PhotonDataType)
        requires
            i < old(self).entries().len(),
        ensures
            final(self).entries() == old(self).entries().update(
                i as int,
                (old(self).entries()[i as int].0, v),
            ),
            r == old(self).entries()[i as int].1,
    {
        proof {
            use_type_invariant(&*self);
        }
        let mut es: Vec<(PhotonDataType, PhotonDataType)> = Vec::new();
        std::mem::swap(&mut es, &mut self.entries);
        let r = entries_replace_value(&mut es, i, v);
        self.entries = es;
        r
    }

    /// Takes all entries out, in order, leaving the map empty.
    pub fn drain_all(&mut self) -> (r: Vec<(PhotonDataType, PhotonDataType)>)
        ensures
            r@ == old(self).entries(),
            final(self).entries() == Seq::<(PhotonDataType, PhotonDataType)>::empty(),
    {
        let mut out: Vec<(PhotonDataType, PhotonDataType)> = Vec::new();
        std::mem::swap(&mut out, &mut self.entries);
        out
    }
}

} // verus!
