//! The protocol 16 wire format of [PhotonDataType] values.
//!
//! A value is written as a one-byte type code followed by its payload. Lengths and counts are
//! big-endian: 16-bit signed for strings, string arrays, object arrays, typed arrays, hashtables
//! and custom data; 32-bit signed for byte arrays and integer arrays.
use vstd::prelude::*;

use crate::error::{ReadError, WriteError};
use crate::ordered_map::{insert_all, insert_entry, keys_unique, lemma_insert_all_unique};
use crate::value::{lemma_insert_view, CustomData, lemma_pairs_view, lemma_values_view, pairs_view, strings_view, values_view, PhotonDataType, PhotonHashmap, PhotonValue};
use crate::wire::{lemma_i16_roundtrip, lemma_i32_roundtrip, lemma_i64_roundtrip, lemma_u32_roundtrip, lemma_u64_roundtrip, read_u16, i16_at, i32_at, i64_at, u32_at, u64_at, read_i16, read_i32, read_i64, read_u32, read_u64, i16_be, i32_be, i64_be, u32_be, u64_be, write_bytes, write_i16, write_i32, write_i64, write_u32, write_u64};
use vstd::utf8::{decode_utf8, encode_utf8, encode_utf8_decode_utf8, encode_utf8_valid_utf8, valid_utf8};
use crate::text::utf8_to_string;

verus! {

pub const NULL: u8 = 42;
pub const DICTIONARY: u8 = 68;
pub const STRING_ARRAY: u8 = 97;
pub const BYTE: u8 = 98;
pub const CUSTOM: u8 = 99;
pub const DOUBLE: u8 = 100;
pub const EVENT_DATA: u8 = 101;
pub const FLOAT: u8 = 102;
pub const HASHTABLE: u8 = 104;
pub const INTEGER: u8 = 105;
pub const SHORT: u8 = 107;
pub const LONG: u8 = 108;
pub const INT_ARRAY: u8 = 110;
pub const BOOLEAN: u8 = 111;
pub const OPERATION_RESPONSE: u8 = 112;
pub const OPERATION_REQUEST: u8 = 113;
pub const STRING: u8 = 115;
pub const BYTE_ARRAY: u8 = 120;
pub const ARRAY: u8 = 121;
pub const OBJECT_ARRAY: u8 = 122;

/// The largest length that a 16-bit length field can hold.
pub const MAX_SHORT_LEN: usize = 32767;
/// The largest length that a 32-bit length field can hold.
pub const MAX_INT_LEN: usize = 2147483647;

/// The type code that introduces a value of this kind.
pub open spec fn type_code(v: PhotonValue) -> u8 {
    match v {
        PhotonValue::Null => NULL,
        PhotonValue::Boolean(_) => BOOLEAN,
        PhotonValue::Byte(_) => BYTE,
        PhotonValue::Short(_) => SHORT,
        PhotonValue::Integer(_) => INTEGER,
        PhotonValue::Long(_) => LONG,
        PhotonValue::Float(_) => FLOAT,
        PhotonValue::Double(_) => DOUBLE,
        PhotonValue::String(_) => STRING,
        PhotonValue::ByteArray(_) => BYTE_ARRAY,
        PhotonValue::IntArray(_) => INT_ARRAY,
        PhotonValue::StringArray(_) => STRING_ARRAY,
        PhotonValue::ObjectArray(_) => OBJECT_ARRAY,
        PhotonValue::Array(_) => ARRAY,
        PhotonValue::Hashtable(_) => HASHTABLE,
        PhotonValue::Custom(_, _) => CUSTOM,
    }
}

/// The type code written for the elements of a typed array.
pub open spec fn element_code(items: Seq<PhotonValue>) -> u8 {
    if items.len() == 0 {
        NULL
    } else {
        type_code(items[0])
    }
}

pub open spec fn homogeneous(items: Seq<PhotonValue>) -> bool {
    forall|i: int| 0 <= i < items.len() ==> type_code(#[trigger] items[i]) == element_code(items)
}

/// Prepends `prefix` to the bytes of a successful result.
pub open spec fn after(prefix: Seq<u8>, r: Result<Seq<u8>, WriteError>) -> Result<Seq<u8>, WriteError> {
    match r {
        Ok(b) => Ok(prefix + b),
        Err(e) => Err(e),
    }
}

/// Concatenates two results, the first error winning.
pub open spec fn then(a: Result<Seq<u8>, WriteError>, b: Result<Seq<u8>, WriteError>) -> Result<Seq<u8>, WriteError> {
    match a {
        Ok(x) => match b {
            Ok(y) => Ok(x + y),
            Err(e) => Err(e),
        },
        Err(e) => Err(e),
    }
}

/// The payload of a string: its UTF-8 length and bytes.
pub open spec fn string_result(s: Seq<char>) -> Result<Seq<u8>, WriteError> {
    let bytes = encode_utf8(s);
    if bytes.len() > MAX_SHORT_LEN {
        Err(WriteError::ValueTooLarge("string"))
    } else {
        Ok(i16_be(bytes.len() as i16) + bytes)
    }
}

pub open spec fn strings_result(s: Seq<Seq<char>>) -> Result<Seq<u8>, WriteError>
    decreases s.len(),
{
    if s.len() == 0 {
        Ok(Seq::empty())
    } else {
        then(strings_result(s.drop_last()), string_result(s.last()))
    }
}

pub open spec fn ints_bytes(s: Seq<i32>) -> Seq<u8>
    decreases s.len(),
{
    if s.len() == 0 {
        Seq::empty()
    } else {
        ints_bytes(s.drop_last()) + i32_be(s.last())
    }
}

/// The bytes of a value, type code included, or the first error met while writing it.
pub open spec fn value_result(v: PhotonValue) -> Result<Seq<u8>, WriteError>
    decreases v, 1int,
{
    after(seq![type_code(v)], payload_result(v))
}

/// The bytes of a value without its type code, or the first error met while writing it.
pub open spec fn payload_result(v: PhotonValue) -> Result<Seq<u8>, WriteError>
    decreases v, 0int,
{
    match v {
        PhotonValue::Null => Ok(Seq::empty()),
        PhotonValue::Boolean(b) => Ok(seq![if b { 1u8 } else { 0u8 }]),
        PhotonValue::Byte(b) => Ok(seq![b]),
        PhotonValue::Short(x) => Ok(i16_be(x)),
        PhotonValue::Integer(x) => Ok(i32_be(x)),
        PhotonValue::Long(x) => Ok(i64_be(x)),
        PhotonValue::Float(x) => Ok(u32_be(x)),
        PhotonValue::Double(x) => Ok(u64_be(x)),
        PhotonValue::String(s) => string_result(s),
        PhotonValue::ByteArray(b) => if b.len() > MAX_INT_LEN {
            Err(WriteError::ValueTooLarge("byte array"))
        } else {
            Ok(i32_be(b.len() as i32) + b)
        },
        PhotonValue::IntArray(a) => if a.len() > MAX_INT_LEN {
            Err(WriteError::ValueTooLarge("int array"))
        } else {
            Ok(i32_be(a.len() as i32) + ints_bytes(a))
        },
        PhotonValue::StringArray(a) => if a.len() > MAX_SHORT_LEN {
            Err(WriteError::ValueTooLarge("string array"))
        } else {
            after(i16_be(a.len() as i16), strings_result(a))
        },
        PhotonValue::ObjectArray(a) => if a.len() > MAX_SHORT_LEN {
            Err(WriteError::ValueTooLarge("object array"))
        } else {
            after(i16_be(a.len() as i16), values_result(a))
        },
        PhotonValue::Array(a) => if a.len() > MAX_SHORT_LEN {
            Err(WriteError::ValueTooLarge("array"))
        } else if !homogeneous(a) {
            Err(WriteError::UnhomogeneousArray)
        } else {
            after(i16_be(a.len() as i16) + seq![element_code(a)], payloads_result(a))
        },
        PhotonValue::Hashtable(es) => if es.len() > MAX_SHORT_LEN {
            Err(WriteError::ValueTooLarge("hashtable"))
        } else {
            after(i16_be(es.len() as i16), pairs_result(es))
        },
        PhotonValue::Custom(c, d) => if d.len() > MAX_SHORT_LEN {
            Err(WriteError::ValueTooLarge("custom data"))
        } else {
            Ok(seq![c] + i16_be(d.len() as i16) + d)
        },
    }
}

pub open spec fn values_result(s: Seq<PhotonValue>) -> Result<Seq<u8>, WriteError>
    decreases s, 0int,
{
    if s.len() == 0 {
        Ok(Seq::empty())
    } else {
        then(values_result(s.drop_last()), value_result(s.last()))
    }
}

pub open spec fn payloads_result(s: Seq<PhotonValue>) -> Result<Seq<u8>, WriteError>
    decreases s, 0int,
{
    if s.len() == 0 {
        Ok(Seq::empty())
    } else {
        then(payloads_result(s.drop_last()), payload_result(s.last()))
    }
}

pub open spec fn pairs_result(s: Seq<(PhotonValue, PhotonValue)>) -> Result<Seq<u8>, WriteError>
    decreases s, 0int,
{
    if s.len() == 0 {
        Ok(Seq::empty())
    } else {
        then(then(pairs_result(s.drop_last()), value_result(s.last().0)), value_result(s.last().1))
    }
}

/// `r` and the bytes appended to `before`, giving `after`, agree with `spec`.
pub open spec fn wrote(r: Result<(), WriteError>, spec: Result<Seq<u8>, WriteError>, before: Seq<u8>, after: Seq<u8>) -> bool {
    match spec {
        Ok(b) => r is Ok && after == before + b,
        Err(e) => r == Err::<(), WriteError>(e),
    }
}

pub proof fn lemma_strings_result_prefix(s: Seq<Seq<char>>, i: int)
    requires
        0 <= i <= s.len(),
        strings_result(s.subrange(0, i)) is Err,
    ensures
        strings_result(s) == strings_result(s.subrange(0, i)),
    decreases s.len() - i,
{
    if i < s.len() {
        assert(s.subrange(0, i + 1).drop_last() =~= s.subrange(0, i));
        lemma_strings_result_prefix(s, i + 1);
    } else {
        assert(s.subrange(0, i) =~= s);
    }
}

pub proof fn lemma_values_result_prefix(s: Seq<PhotonValue>, i: int)
    requires
        0 <= i <= s.len(),
        values_result(s.subrange(0, i)) is Err,
    ensures
        values_result(s) == values_result(s.subrange(0, i)),
    decreases s.len() - i,
{
    if i < s.len() {
        assert(s.subrange(0, i + 1).drop_last() =~= s.subrange(0, i));
        lemma_values_result_prefix(s, i + 1);
    } else {
        assert(s.subrange(0, i) =~= s);
    }
}

pub proof fn lemma_payloads_result_prefix(s: Seq<PhotonValue>, i: int)
    requires
        0 <= i <= s.len(),
        payloads_result(s.subrange(0, i)) is Err,
    ensures
        payloads_result(s) == payloads_result(s.subrange(0, i)),
    decreases s.len() - i,
{
    if i < s.len() {
        assert(s.subrange(0, i + 1).drop_last() =~= s.subrange(0, i));
        lemma_payloads_result_prefix(s, i + 1);
    } else {
        assert(s.subrange(0, i) =~= s);
    }
}

pub proof fn lemma_pairs_result_prefix(s: Seq<(PhotonValue, PhotonValue)>, i: int)
    requires
        0 <= i <= s.len(),
        pairs_result(s.subrange(0, i)) is Err,
    ensures
        pairs_result(s) == pairs_result(s.subrange(0, i)),
    decreases s.len() - i,
{
    if i < s.len() {
        assert(s.subrange(0, i + 1).drop_last() =~= s.subrange(0, i));
        lemma_pairs_result_prefix(s, i + 1);
    } else {
        assert(s.subrange(0, i) =~= s);
    }
}

/// The type code of `v`.
pub fn type_code_of(v: &PhotonDataType) -> (r: u8)
    ensures
        r == type_code(v@),
{
    match v {
        PhotonDataType::Null => NULL,
        PhotonDataType::Boolean(_) => BOOLEAN,
        PhotonDataType::Byte(_) => BYTE,
        PhotonDataType::Short(_) => SHORT,
        PhotonDataType::Integer(_) => INTEGER,
        PhotonDataType::Long(_) => LONG,
        PhotonDataType::Float(_) => FLOAT,
        PhotonDataType::Double(_) => DOUBLE,
        PhotonDataType::String(_) => STRING,
        PhotonDataType::ByteArray(_) => BYTE_ARRAY,
        PhotonDataType::IntArray(_) => INT_ARRAY,
        PhotonDataType::StringArray(_) => STRING_ARRAY,
        PhotonDataType::ObjectArray(_) => OBJECT_ARRAY,
        PhotonDataType::Array(_) => ARRAY,
        PhotonDataType::Hashtable(_) => HASHTABLE,
        PhotonDataType::Custom(_) => CUSTOM,
    }
}

/// Writes the length and UTF-8 bytes of `s`.
pub fn write_string(s: &String, out: &mut Vec<u8>) -> (r: Result<(), WriteError>)
    ensures
        wrote(r, string_result(s@), old(out)@, final(out)@),
{
    let bytes = s.as_str().as_bytes();
    if bytes.len() > MAX_SHORT_LEN {
        return Err(WriteError::ValueTooLarge("string"));
    }
    write_i16(out, bytes.len() as i16);
    write_bytes(out, bytes);
    assert(final(out)@ =~= old(out)@ + (i16_be(bytes@.len() as i16) + bytes@));
    Ok(())
}

pub fn write_strings(items: &Vec<String>, out: &mut Vec<u8>) -> (r: Result<(), WriteError>)
    ensures
        wrote(r, strings_result(strings_view(items@)), old(out)@, final(out)@),
{
    let ghost m = strings_view(items@);
    let mut i: usize = 0;
    assert(m.subrange(0, 0) =~= Seq::<Seq<char>>::empty());
    while i < items.len()
        invariant
            i <= items@.len(),
            m == strings_view(items@),
            m.len() == items@.len(),
            strings_result(m.subrange(0, i as int)) matches Ok(b) && out@ == old(out)@ + b,
        decreases items@.len() - i,
    {
        let ghost before = out@;
        let r = write_string(&items[i], out);
        assert(m.subrange(0, i + 1).drop_last() =~= m.subrange(0, i as int));
        assert(m[i as int] == items@[i as int]@);
        match r {
            Err(e) => {
                proof {
                    lemma_strings_result_prefix(m, i + 1);
                }
                return Err(e);
            },
            Ok(()) => {
                assert(out@ =~= old(out)@ + strings_result(m.subrange(0, i + 1))->Ok_0);
            },
        }
        i = i + 1;
    }
    assert(m.subrange(0, i as int) =~= m);
    Ok(())
}

pub fn write_ints(items: &Vec<i32>, out: &mut Vec<u8>)
    ensures
        final(out)@ == old(out)@ + ints_bytes(items@),
{
    let mut i: usize = 0;
    assert(items@.subrange(0, 0) =~= Seq::<i32>::empty());
    while i < items.len()
        invariant
            i <= items@.len(),
            out@ == old(out)@ + ints_bytes(items@.subrange(0, i as int)),
        decreases items@.len() - i,
    {
        write_i32(out, items[i]);
        assert(items@.subrange(0, i + 1).drop_last() =~= items@.subrange(0, i as int));
        i = i + 1;
        assert(out@ =~= old(out)@ + ints_bytes(items@.subrange(0, i as int)));
    }
    assert(items@.subrange(0, i as int) =~= items@);
}

/// Writes `v` with its type code.
pub fn write_value(v: &PhotonDataType, out: &mut Vec<u8>) -> (r: Result<(), WriteError>)
    ensures
        wrote(r, value_result(v@), old(out)@, final(out)@),
    decreases v, 1int,
{
    out.push(type_code_of(v));
    let r = write_payload(v, out);
    proof {
        if let Ok(b) = payload_result(v@) {
            assert(final(out)@ =~= old(out)@ + (seq![type_code(v@)] + b));
        }
    }
    r
}

/// Writes `v` without its type code.
pub fn write_payload(v: &PhotonDataType, out: &mut Vec<u8>) -> (r: Result<(), WriteError>)
    ensures
        wrote(r, payload_result(v@), old(out)@, final(out)@),
    decreases v, 0int,
{
    match v {
        PhotonDataType::Null => {
            assert(v@ == PhotonValue::Null);
            assert(out@ =~= old(out)@ + Seq::<u8>::empty());
            Ok(())
        },
        PhotonDataType::Boolean(b) => {
            out.push(if *b { 1u8 } else { 0u8 });
            assert(out@ =~= old(out)@ + payload_result(v@)->Ok_0);
            Ok(())
        },
        PhotonDataType::Byte(b) => {
            out.push(*b);
            assert(out@ =~= old(out)@ + payload_result(v@)->Ok_0);
            Ok(())
        },
        PhotonDataType::Short(x) => {
            write_i16(out, *x);
            assert(out@ =~= old(out)@ + payload_result(v@)->Ok_0);
            Ok(())
        },
        PhotonDataType::Integer(x) => {
            write_i32(out, *x);
            assert(out@ =~= old(out)@ + payload_result(v@)->Ok_0);
            Ok(())
        },
        PhotonDataType::Long(x) => {
            write_i64(out, *x);
            assert(out@ =~= old(out)@ + payload_result(v@)->Ok_0);
            Ok(())
        },
        PhotonDataType::Float(x) => {
            write_u32(out, *x);
            assert(out@ =~= old(out)@ + payload_result(v@)->Ok_0);
            Ok(())
        },
        PhotonDataType::Double(x) => {
            write_u64(out, *x);
            assert(out@ =~= old(out)@ + payload_result(v@)->Ok_0);
            Ok(())
        },
        PhotonDataType::String(s) => write_string(s, out),
        PhotonDataType::ByteArray(b) => {
            if b.len() > MAX_INT_LEN {
                return Err(WriteError::ValueTooLarge("byte array"));
            }
            write_i32(out, b.len() as i32);
            write_bytes(out, b.as_slice());
            assert(final(out)@ =~= old(out)@ + (i32_be(b@.len() as i32) + b@));
            Ok(())
        },
        PhotonDataType::IntArray(a) => {
            if a.len() > MAX_INT_LEN {
                return Err(WriteError::ValueTooLarge("int array"));
            }
            write_i32(out, a.len() as i32);
            write_ints(a, out);
            assert(final(out)@ =~= old(out)@ + (i32_be(a@.len() as i32) + ints_bytes(a@)));
            Ok(())
        },
        PhotonDataType::StringArray(a) => {
            if a.len() > MAX_SHORT_LEN {
                return Err(WriteError::ValueTooLarge("string array"));
            }
            write_i16(out, a.len() as i16);
            let ghost mid = out@;
            let r = write_strings(a, out);
            proof {
                if let Ok(b) = strings_result(strings_view(a@)) {
                    assert(final(out)@ =~= old(out)@ + (i16_be(a@.len() as i16) + b));
                }
            }
            r
        },
        PhotonDataType::ObjectArray(a) => {
            proof {
                lemma_values_view(a@);
            }
            if a.len() > MAX_SHORT_LEN {
                return Err(WriteError::ValueTooLarge("object array"));
            }
            write_i16(out, a.len() as i16);
            let r = write_values(a, out);
            proof {
                if let Ok(b) = values_result(values_view(a@)) {
                    assert(final(out)@ =~= old(out)@ + (i16_be(a@.len() as i16) + b));
                }
            }
            r
        },
        PhotonDataType::Array(a) => {
            proof {
                lemma_values_view(a@);
            }
            let ghost m = values_view(a@);
            if a.len() > MAX_SHORT_LEN {
                return Err(WriteError::ValueTooLarge("array"));
            }
            let code = if a.len() == 0 { NULL } else { type_code_of(&a[0]) };
            assert(code == element_code(m));
            assert(v@ == PhotonValue::Array(m));
            let mut i: usize = 0;
            while i < a.len()
                invariant
                    i <= a@.len(),
                    v@ == PhotonValue::Array(m),
                    out@ == old(out)@,
                    m.len() <= MAX_SHORT_LEN,
                    m == values_view(a@),
                    m.len() == a@.len(),
                    forall|j: int| 0 <= j < m.len() ==> #[trigger] m[j] == a@[j]@,
                    code == element_code(m),
                    forall|j: int| 0 <= j < i ==> type_code(#[trigger] m[j]) == code,
                decreases a@.len() - i,
            {
                if type_code_of(&a[i]) != code {
                    assert(type_code(m[i as int]) != element_code(m));
                    assert(!homogeneous(m));
                    return Err(WriteError::UnhomogeneousArray);
                }
                i = i + 1;
            }
            assert(homogeneous(m));
            write_i16(out, a.len() as i16);
            out.push(code);
            let r = write_payloads(a, out);
            proof {
                if let Ok(b) = payloads_result(m) {
                    assert(final(out)@ =~= old(out)@ + (i16_be(a@.len() as i16) + seq![code] + b));
                }
            }
            r
        },
        PhotonDataType::Hashtable(t) => {
            proof {
                lemma_pairs_view(t.entries());
                t.lemma_entries_decrease();
            }
            if t.len() > MAX_SHORT_LEN {
                return Err(WriteError::ValueTooLarge("hashtable"));
            }
            write_i16(out, t.len() as i16);
            let r = write_pairs(t.as_vec(), out);
            proof {
                if let Ok(b) = pairs_result(pairs_view(t.entries())) {
                    assert(final(out)@ =~= old(out)@ + (i16_be(t.entries().len() as i16) + b));
                }
            }
            r
        },
        PhotonDataType::Custom(c) => {
            if c.data.len() > MAX_SHORT_LEN {
                return Err(WriteError::ValueTooLarge("custom data"));
            }
            out.push(c.type_code);
            write_i16(out, c.data.len() as i16);
            write_bytes(out, c.data.as_slice());
            assert(final(out)@ =~= old(out)@ + (seq![c.type_code] + i16_be(c.data@.len() as i16) + c.data@));
            Ok(())
        },
    }
}

pub fn write_values(items: &Vec<PhotonDataType>, out: &mut Vec<u8>) -> (r: Result<(), WriteError>)
    ensures
        wrote(r, values_result(values_view(items@)), old(out)@, final(out)@),
    decreases items, 0int,
{
    proof {
        lemma_values_view(items@);
    }
    let ghost m = values_view(items@);
    let mut i: usize = 0;
    assert(m.subrange(0, 0) =~= Seq::<PhotonValue>::empty());
    while i < items.len()
        invariant
            i <= items@.len(),
            m == values_view(items@),
            m.len() == items@.len(),
            forall|j: int| 0 <= j < m.len() ==> #[trigger] m[j] == items@[j]@,
            values_result(m.subrange(0, i as int)) matches Ok(b) && out@ == old(out)@ + b,
        decreases items@.len() - i,
    {
        let r = write_value(&items[i], out);
        assert(m.subrange(0, i + 1).drop_last() =~= m.subrange(0, i as int));
        assert(m[i as int] == items@[i as int]@);
        match r {
            Err(e) => {
                proof {
                    lemma_values_result_prefix(m, i + 1);
                }
                return Err(e);
            },
            Ok(()) => {
                assert(out@ =~= old(out)@ + values_result(m.subrange(0, i + 1))->Ok_0);
            },
        }
        i = i + 1;
    }
    assert(m.subrange(0, i as int) =~= m);
    Ok(())
}

pub fn write_payloads(items: &Vec<PhotonDataType>, out: &mut Vec<u8>) -> (r: Result<(), WriteError>)
    ensures
        wrote(r, payloads_result(values_view(items@)), old(out)@, final(out)@),
    decreases items, 0int,
{
    proof {
        lemma_values_view(items@);
    }
    let ghost m = values_view(items@);
    let mut i: usize = 0;
    assert(m.subrange(0, 0) =~= Seq::<PhotonValue>::empty());
    while i < items.len()
        invariant
            i <= items@.len(),
            m == values_view(items@),
            m.len() == items@.len(),
            forall|j: int| 0 <= j < m.len() ==> #[trigger] m[j] == items@[j]@,
            payloads_result(m.subrange(0, i as int)) matches Ok(b) && out@ == old(out)@ + b,
        decreases items@.len() - i,
    {
        let r = write_payload(&items[i], out);
        assert(m.subrange(0, i + 1).drop_last() =~= m.subrange(0, i as int));
        assert(m[i as int] == items@[i as int]@);
        match r {
            Err(e) => {
                proof {
                    lemma_payloads_result_prefix(m, i + 1);
                }
                return Err(e);
            },
            Ok(()) => {
                assert(out@ =~= old(out)@ + payloads_result(m.subrange(0, i + 1))->Ok_0);
            },
        }
        i = i + 1;
    }
    assert(m.subrange(0, i as int) =~= m);
    Ok(())
}

pub fn write_pairs(items: &Vec<(PhotonDataType, PhotonDataType)>, out: &mut Vec<u8>) -> (r: Result<(), WriteError>)
    ensures
        wrote(r, pairs_result(pairs_view(items@)), old(out)@, final(out)@),
    decreases items@, 0int,
{
    proof {
        lemma_pairs_view(items@);
    }
    let ghost m = pairs_view(items@);
    let mut i: usize = 0;
    assert(m.subrange(0, 0) =~= Seq::<(PhotonValue, PhotonValue)>::empty());
    while i < items.len()
        invariant
            i <= items@.len(),
            m == pairs_view(items@),
            m.len() == items@.len(),
            forall|j: int| 0 <= j < m.len() ==> #[trigger] m[j] == (items@[j].0@, items@[j].1@),
            pairs_result(m.subrange(0, i as int)) matches Ok(b) && out@ == old(out)@ + b,
        decreases items@.len() - i,
    {
        assert(m.subrange(0, i + 1).drop_last() =~= m.subrange(0, i as int));
        assert(m[i as int] == (items@[i as int].0@, items@[i as int].1@));
        let r1 = write_value(&items[i].0, out);
        if let Err(e) = r1 {
            proof {
                lemma_pairs_result_prefix(m, i + 1);
            }
            return Err(e);
        }
        let r2 = write_value(&items[i].1, out);
        if let Err(e) = r2 {
            proof {
                lemma_pairs_result_prefix(m, i + 1);
            }
            return Err(e);
        }
        assert(out@ =~= old(out)@ + pairs_result(m.subrange(0, i + 1))->Ok_0);
        i = i + 1;
    }
    assert(m.subrange(0, i as int) =~= m);
    Ok(())
}

/* Reading */

/// The input from `pos` on.
pub open spec fn rest(buf: Seq<u8>, pos: int) -> Seq<u8> {
    buf.subrange(pos, buf.len() as int)
}

/// Adds `k` to the number of bytes consumed by a successful result.
pub open spec fn shift<T>(k: int, r: Result<(T, int), ReadError>) -> Result<(T, int), ReadError> {
    match r {
        Ok((v, n)) => Ok((v, n + k)),
        Err(e) => Err(e),
    }
}

/// Puts `x`, which took `k` bytes, in front of a successful list result.
pub open spec fn cons<T>(x: T, k: int, r: Result<(Seq<T>, int), ReadError>) -> Result<(Seq<T>, int), ReadError> {
    match r {
        Ok((xs, n)) => Ok((seq![x] + xs, n + k)),
        Err(e) => Err(e),
    }
}

/// The integers of an integer array of length `n` whose payload starts `s`.
pub open spec fn ints_at(s: Seq<u8>, n: int) -> Seq<i32> {
    Seq::new(n as nat, |i: int| i32_at(s.subrange(4 * i, s.len() as int)))
}

/// Reads a string payload: a 16-bit length, then that many bytes of UTF-8.
pub open spec fn parse_string(s: Seq<u8>) -> Result<(Seq<char>, int), ReadError> {
    if s.len() < 2 {
        Err(ReadError::NotEnoughBytesLeft)
    } else {
        let n = i16_at(s) as int;
        if n < 0 {
            Err(ReadError::UnexpectedData("negative length"))
        } else if s.len() < 2 + n {
            Err(ReadError::NotEnoughBytesLeft)
        } else if !valid_utf8(s.subrange(2, 2 + n)) {
            Err(ReadError::UnexpectedData("string is not valid UTF-8"))
        } else {
            Ok((decode_utf8(s.subrange(2, 2 + n)), 2 + n))
        }
    }
}

pub open spec fn parse_strings(s: Seq<u8>, n: int) -> Result<(Seq<Seq<char>>, int), ReadError>
    decreases s.len(), n,
{
    if n <= 0 {
        Ok((Seq::empty(), 0))
    } else {
        match parse_string(s) {
            Err(e) => Err(e),
            Ok((x, k)) => if 0 <= k <= s.len() {
                cons(x, k, parse_strings(s.subrange(k, s.len() as int), n - 1))
            } else {
                Err(ReadError::NotEnoughBytesLeft)
            },
        }
    }
}

/// Reads a value: its type code, then its payload.
pub open spec fn parse_value(s: Seq<u8>) -> Result<(PhotonValue, int), ReadError>
    decreases s.len(), 0int,
{
    if s.len() < 1 {
        Err(ReadError::NotEnoughBytesLeft)
    } else {
        shift(1, parse_payload(s[0], s.subrange(1, s.len() as int)))
    }
}

/// Reads the payload of a value of type `code`.
pub open spec fn parse_payload(code: u8, s: Seq<u8>) -> Result<(PhotonValue, int), ReadError>
    decreases s.len(), 0int,
{
    if code == NULL {
        Ok((PhotonValue::Null, 0))
    } else if code == BOOLEAN {
        if s.len() < 1 { Err(ReadError::NotEnoughBytesLeft) } else { Ok((PhotonValue::Boolean(s[0] != 0), 1)) }
    } else if code == BYTE {
        if s.len() < 1 { Err(ReadError::NotEnoughBytesLeft) } else { Ok((PhotonValue::Byte(s[0]), 1)) }
    } else if code == SHORT {
        if s.len() < 2 { Err(ReadError::NotEnoughBytesLeft) } else { Ok((PhotonValue::Short(i16_at(s)), 2)) }
    } else if code == INTEGER {
        if s.len() < 4 { Err(ReadError::NotEnoughBytesLeft) } else { Ok((PhotonValue::Integer(i32_at(s)), 4)) }
    } else if code == LONG {
        if s.len() < 8 { Err(ReadError::NotEnoughBytesLeft) } else { Ok((PhotonValue::Long(i64_at(s)), 8)) }
    } else if code == FLOAT {
        if s.len() < 4 { Err(ReadError::NotEnoughBytesLeft) } else { Ok((PhotonValue::Float(u32_at(s)), 4)) }
    } else if code == DOUBLE {
        if s.len() < 8 { Err(ReadError::NotEnoughBytesLeft) } else { Ok((PhotonValue::Double(u64_at(s)), 8)) }
    } else if code == STRING {
        match parse_string(s) {
            Ok((x, k)) => Ok((PhotonValue::String(x), k)),
            Err(e) => Err(e),
        }
    } else if code == BYTE_ARRAY {
        if s.len() < 4 {
            Err(ReadError::NotEnoughBytesLeft)
        } else {
            let n = i32_at(s) as int;
            if n < 0 {
                Err(ReadError::UnexpectedData("negative length"))
            } else if s.len() < 4 + n {
                Err(ReadError::NotEnoughBytesLeft)
            } else {
                Ok((PhotonValue::ByteArray(s.subrange(4, 4 + n)), 4 + n))
            }
        }
    } else if code == INT_ARRAY {
        if s.len() < 4 {
            Err(ReadError::NotEnoughBytesLeft)
        } else {
            let n = i32_at(s) as int;
            if n < 0 {
                Err(ReadError::UnexpectedData("negative length"))
            } else if s.len() < 4 + 4 * n {
                Err(ReadError::NotEnoughBytesLeft)
            } else {
                Ok((PhotonValue::IntArray(ints_at(s.subrange(4, s.len() as int), n)), 4 + 4 * n))
            }
        }
    } else if code == STRING_ARRAY {
        if s.len() < 2 {
            Err(ReadError::NotEnoughBytesLeft)
        } else {
            let n = i16_at(s) as int;
            if n < 0 {
                Err(ReadError::UnexpectedData("negative length"))
            } else {
                match parse_strings(s.subrange(2, s.len() as int), n) {
                    Ok((xs, k)) => Ok((PhotonValue::StringArray(xs), k + 2)),
                    Err(e) => Err(e),
                }
            }
        }
    } else if code == OBJECT_ARRAY {
        if s.len() < 2 {
            Err(ReadError::NotEnoughBytesLeft)
        } else {
            let n = i16_at(s) as int;
            if n < 0 {
                Err(ReadError::UnexpectedData("negative length"))
            } else {
                match parse_values(s.subrange(2, s.len() as int), n) {
                    Ok((xs, k)) => Ok((PhotonValue::ObjectArray(xs), k + 2)),
                    Err(e) => Err(e),
                }
            }
        }
    } else if code == ARRAY {
        if s.len() < 3 {
            Err(ReadError::NotEnoughBytesLeft)
        } else {
            let n = i16_at(s) as int;
            if n < 0 {
                Err(ReadError::UnexpectedData("negative length"))
            } else {
                match parse_payloads(s[2], s.subrange(3, s.len() as int), n) {
                    Ok((xs, k)) => Ok((PhotonValue::Array(xs), k + 3)),
                    Err(e) => Err(e),
                }
            }
        }
    } else if code == HASHTABLE {
        if s.len() < 2 {
            Err(ReadError::NotEnoughBytesLeft)
        } else {
            let n = i16_at(s) as int;
            if n < 0 {
                Err(ReadError::UnexpectedData("negative length"))
            } else {
                match parse_pairs(s.subrange(2, s.len() as int), n) {
                    Ok((ps, k)) => Ok((PhotonValue::Hashtable(insert_all(ps)), k + 2)),
                    Err(e) => Err(e),
                }
            }
        }
    } else if code == CUSTOM {
        if s.len() < 3 {
            Err(ReadError::NotEnoughBytesLeft)
        } else {
            let n = i16_at(s.subrange(1, s.len() as int)) as int;
            if n < 0 {
                Err(ReadError::UnexpectedData("negative length"))
            } else if s.len() < 3 + n {
                Err(ReadError::NotEnoughBytesLeft)
            } else {
                Ok((PhotonValue::Custom(s[0], s.subrange(3, 3 + n)), 3 + n))
            }
        }
    } else if code == DICTIONARY {
        Err(ReadError::Unimplemented("dictionary"))
    } else if code == EVENT_DATA || code == OPERATION_REQUEST || code == OPERATION_RESPONSE {
        Err(ReadError::Unimplemented("nested message"))
    } else {
        Err(ReadError::UnknownDataType(code))
    }
}

/// Reads `n` values, each with its type code.
pub open spec fn parse_values(s: Seq<u8>, n: int) -> Result<(Seq<PhotonValue>, int), ReadError>
    decreases s.len(), n,
{
    if n <= 0 {
        Ok((Seq::empty(), 0))
    } else {
        match parse_value(s) {
            Err(e) => Err(e),
            Ok((x, k)) => if 0 <= k <= s.len() {
                cons(x, k, parse_values(s.subrange(k, s.len() as int), n - 1))
            } else {
                Err(ReadError::NotEnoughBytesLeft)
            },
        }
    }
}

/// Reads `n` payloads of type `code`.
pub open spec fn parse_payloads(code: u8, s: Seq<u8>, n: int) -> Result<(Seq<PhotonValue>, int), ReadError>
    decreases s.len(), n,
{
    if n <= 0 {
        Ok((Seq::empty(), 0))
    } else {
        match parse_payload(code, s) {
            Err(e) => Err(e),
            Ok((x, k)) => if 0 <= k <= s.len() {
                cons(x, k, parse_payloads(code, s.subrange(k, s.len() as int), n - 1))
            } else {
                Err(ReadError::NotEnoughBytesLeft)
            },
        }
    }
}

/// Reads `n` key-value pairs, each key and value with its type code.
pub open spec fn parse_pairs(s: Seq<u8>, n: int) -> Result<(Seq<(PhotonValue, PhotonValue)>, int), ReadError>
    decreases s.len(), n,
{
    if n <= 0 {
        Ok((Seq::empty(), 0))
    } else {
        match parse_value(s) {
            Err(e) => Err(e),
            Ok((key, k1)) => if 0 <= k1 <= s.len() {
                match parse_value(s.subrange(k1, s.len() as int)) {
                    Err(e) => Err(e),
                    Ok((val, k2)) => if 0 <= k2 <= s.len() - k1 {
                        cons((key, val), k1 + k2, parse_pairs(s.subrange(k1 + k2, s.len() as int), n - 1))
                    } else {
                        Err(ReadError::NotEnoughBytesLeft)
                    },
                }
            } else {
                Err(ReadError::NotEnoughBytesLeft)
            },
        }
    }
}

/// Puts `items`, which took `c` bytes, in front of a successful list result.
pub open spec fn prepend<T>(items: Seq<T>, c: int, r: Result<(Seq<T>, int), ReadError>) -> Result<(Seq<T>, int), ReadError> {
    match r {
        Ok((xs, n)) => Ok((items + xs, n + c)),
        Err(e) => Err(e),
    }
}

pub proof fn lemma_prepend_cons<T>(items: Seq<T>, c: int, x: T, k: int, r: Result<(Seq<T>, int), ReadError>)
    ensures
        prepend(items, c, cons(x, k, r)) == prepend(items.push(x), c + k, r),
{
    if let Ok((xs, n)) = r {
        assert(items + (seq![x] + xs) =~= items.push(x) + xs);
    }
}

pub proof fn lemma_prepend_empty<T>(r: Result<(Seq<T>, int), ReadError>)
    ensures
        prepend(Seq::<T>::empty(), 0, r) == r,
{
    if let Ok((xs, n)) = r {
        assert(Seq::<T>::empty() + xs =~= xs);
    }
}

pub proof fn lemma_prepend_done<T>(items: Seq<T>, c: int)
    ensures
        prepend(items, c, Ok((Seq::<T>::empty(), 0))) == Ok::<(Seq<T>, int), ReadError>((items, c)),
{
    assert(items + Seq::<T>::empty() =~= items);
}

/// Copies `buf[start..end]`.
pub fn copy_range(buf: &[u8], start: usize, end: usize) -> (r: Vec<u8>)
    requires
        start <= end <= buf.len(),
    ensures
        r@ == buf@.subrange(start as int, end as int),
{
    let mut r: Vec<u8> = Vec::new();
    write_bytes(&mut r, &buf[start..end]);
    assert(r@ =~= buf@.subrange(start as int, end as int));
    r
}

/// Reads a string payload at `pos`.
pub fn read_string(buf: &[u8], pos: usize) -> (r: Result<(String, usize), ReadError>)
    requires
        pos <= buf.len(),
    ensures
        match parse_string(rest(buf@, pos as int)) {
            Ok((m, k)) => r matches Ok((x, p)) && x@ == m && p == pos + k,
            Err(e) => r == Err::<(String, usize), ReadError>(e),
        },
        r matches Ok((_, p)) ==> pos <= p <= buf.len(),
{
    let ghost s = rest(buf@, pos as int);
    if buf.len() - pos < 2 {
        return Err(ReadError::NotEnoughBytesLeft);
    }
    let n = read_i16(buf, pos);
    if n < 0 {
        return Err(ReadError::UnexpectedData("negative length"));
    }
    let n = n as usize;
    if buf.len() - pos - 2 < n {
        return Err(ReadError::NotEnoughBytesLeft);
    }
    let bytes = &buf[pos + 2..pos + 2 + n];
    assert(bytes@ =~= s.subrange(2, 2 + n as int));
    match utf8_to_string(bytes) {
        Some(x) => Ok((x, pos + 2 + n)),
        None => Err(ReadError::UnexpectedData("string is not valid UTF-8")),
    }
}

/// Reads `n` string payloads at `pos`.
pub fn read_strings(buf: &[u8], pos: usize, n: usize) -> (r: Result<(Vec<String>, usize), ReadError>)
    requires
        pos <= buf.len(),
    ensures
        match parse_strings(rest(buf@, pos as int), n as int) {
            Ok((m, k)) => r matches Ok((xs, p)) && strings_view(xs@) == m && p == pos + k,
            Err(e) => r == Err::<(Vec<String>, usize), ReadError>(e),
        },
        r matches Ok((_, p)) ==> pos <= p <= buf.len(),
{
    let mut items: Vec<String> = Vec::new();
    let mut p = pos;
    let mut i: usize = 0;
    proof {
        lemma_prepend_empty(parse_strings(rest(buf@, pos as int), n as int));
    }
    while i < n
        invariant
            pos <= p <= buf.len(),
            i <= n,
            parse_strings(rest(buf@, pos as int), n as int) == prepend(strings_view(items@), p - pos, parse_strings(rest(buf@, p as int), n - i)),
        decreases n - i,
    {
        let ghost sp = rest(buf@, p as int);
        match read_string(buf, p) {
            Err(e) => {
                return Err(e);
            },
            Ok((x, p2)) => {
                assert(sp.subrange(p2 - p, sp.len() as int) =~= rest(buf@, p2 as int));
                proof {
                    lemma_prepend_cons(strings_view(items@), p - pos, x@, p2 - p, parse_strings(rest(buf@, p2 as int), n - i - 1));
                }
                let ghost before = items@;
                items.push(x);
                assert(strings_view(items@) =~= strings_view(before).push(x@));
                p = p2;
                i = i + 1;
            },
        }
    }
    proof {
        lemma_prepend_done(strings_view(items@), p - pos);
    }
    Ok((items, p))
}

/// Reads a value, type code first, at `pos`.
pub fn read_value(buf: &[u8], pos: usize) -> (r: Result<(PhotonDataType, usize), ReadError>)
    requires
        pos <= buf.len(),
    ensures
        match parse_value(rest(buf@, pos as int)) {
            Ok((m, k)) => r matches Ok((v, p)) && v@ == m && p == pos + k,
            Err(e) => r == Err::<(PhotonDataType, usize), ReadError>(e),
        },
        r matches Ok((_, p)) ==> pos <= p <= buf.len(),
    decreases buf@.len() - pos, 1int,
{
    let ghost s = rest(buf@, pos as int);
    if pos >= buf.len() {
        return Err(ReadError::NotEnoughBytesLeft);
    }
    let code = buf[pos];
    assert(s.subrange(1, s.len() as int) =~= rest(buf@, pos + 1));
    read_payload(code, buf, pos + 1)
}

/// Reads the payload of a value of type `code` at `pos`.
pub fn read_payload(code: u8, buf: &[u8], pos: usize) -> (r: Result<(PhotonDataType, usize), ReadError>)
    requires
        pos <= buf.len(),
    ensures
        match parse_payload(code, rest(buf@, pos as int)) {
            Ok((m, k)) => r matches Ok((v, p)) && v@ == m && p == pos + k,
            Err(e) => r == Err::<(PhotonDataType, usize), ReadError>(e),
        },
        r matches Ok((_, p)) ==> pos <= p <= buf.len(),
    decreases buf@.len() - pos, 1int,
{
    let ghost s = rest(buf@, pos as int);
    let avail = buf.len() - pos;
    if code == NULL {
        Ok((PhotonDataType::Null, pos))
    } else if code == BOOLEAN {
        if avail < 1 { return Err(ReadError::NotEnoughBytesLeft); }
        Ok((PhotonDataType::Boolean(buf[pos] != 0), pos + 1))
    } else if code == BYTE {
        if avail < 1 { return Err(ReadError::NotEnoughBytesLeft); }
        Ok((PhotonDataType::Byte(buf[pos]), pos + 1))
    } else if code == SHORT {
        if avail < 2 { return Err(ReadError::NotEnoughBytesLeft); }
        Ok((PhotonDataType::Short(read_i16(buf, pos)), pos + 2))
    } else if code == INTEGER {
        if avail < 4 { return Err(ReadError::NotEnoughBytesLeft); }
        Ok((PhotonDataType::Integer(read_i32(buf, pos)), pos + 4))
    } else if code == LONG {
        if avail < 8 { return Err(ReadError::NotEnoughBytesLeft); }
        Ok((PhotonDataType::Long(read_i64(buf, pos)), pos + 8))
    } else if code == FLOAT {
        if avail < 4 { return Err(ReadError::NotEnoughBytesLeft); }
        Ok((PhotonDataType::Float(read_u32(buf, pos)), pos + 4))
    } else if code == DOUBLE {
        if avail < 8 { return Err(ReadError::NotEnoughBytesLeft); }
        Ok((PhotonDataType::Double(read_u64(buf, pos)), pos + 8))
    } else if code == STRING {
        match read_string(buf, pos) {
            Ok((x, p)) => Ok((PhotonDataType::String(x), p)),
            Err(e) => Err(e),
        }
    } else if code == BYTE_ARRAY {
        if avail < 4 { return Err(ReadError::NotEnoughBytesLeft); }
        let n = read_i32(buf, pos);
        if n < 0 { return Err(ReadError::UnexpectedData("negative length")); }
        let n = n as usize;
        if avail - 4 < n { return Err(ReadError::NotEnoughBytesLeft); }
        let bytes = copy_range(buf, pos + 4, pos + 4 + n);
        assert(bytes@ =~= s.subrange(4, 4 + n as int));
        Ok((PhotonDataType::ByteArray(bytes), pos + 4 + n))
    } else if code == INT_ARRAY {
        if avail < 4 { return Err(ReadError::NotEnoughBytesLeft); }
        let n = read_i32(buf, pos);
        if n < 0 { return Err(ReadError::UnexpectedData("negative length")); }
        let n = n as usize;
        if (avail - 4) / 4 < n { return Err(ReadError::NotEnoughBytesLeft); }
        let items = read_ints(buf, pos + 4, n);
        assert(items@ =~= ints_at(s.subrange(4, s.len() as int), n as int)) by {
            assert forall|i: int| 0 <= i < n implies #[trigger] items@[i] == ints_at(s.subrange(4, s.len() as int), n as int)[i] by {
                assert(rest(buf@, pos + 4 + 4 * i) =~= s.subrange(4, s.len() as int).subrange(4 * i, s.len() - 4));
            }
        }
        Ok((PhotonDataType::IntArray(items), pos + 4 + 4 * n))
    } else if code == STRING_ARRAY {
        if avail < 2 { return Err(ReadError::NotEnoughBytesLeft); }
        let n = read_i16(buf, pos);
        if n < 0 { return Err(ReadError::UnexpectedData("negative length")); }
        assert(s.subrange(2, s.len() as int) =~= rest(buf@, pos + 2));
        match read_strings(buf, pos + 2, n as usize) {
            Ok((xs, p)) => Ok((PhotonDataType::StringArray(xs), p)),
            Err(e) => Err(e),
        }
    } else if code == OBJECT_ARRAY {
        if avail < 2 { return Err(ReadError::NotEnoughBytesLeft); }
        let n = read_i16(buf, pos);
        if n < 0 { return Err(ReadError::UnexpectedData("negative length")); }
        assert(s.subrange(2, s.len() as int) =~= rest(buf@, pos + 2));
        match read_values(buf, pos + 2, n as usize) {
            Ok((xs, p)) => Ok((PhotonDataType::ObjectArray(xs), p)),
            Err(e) => Err(e),
        }
    } else if code == ARRAY {
        if avail < 3 { return Err(ReadError::NotEnoughBytesLeft); }
        let n = read_i16(buf, pos);
        if n < 0 { return Err(ReadError::UnexpectedData("negative length")); }
        let element = buf[pos + 2];
        assert(s.subrange(3, s.len() as int) =~= rest(buf@, pos + 3));
        match read_payloads(element, buf, pos + 3, n as usize) {
            Ok((xs, p)) => Ok((PhotonDataType::Array(xs), p)),
            Err(e) => Err(e),
        }
    } else if code == HASHTABLE {
        if avail < 2 { return Err(ReadError::NotEnoughBytesLeft); }
        let n = read_i16(buf, pos);
        if n < 0 { return Err(ReadError::UnexpectedData("negative length")); }
        assert(s.subrange(2, s.len() as int) =~= rest(buf@, pos + 2));
        match read_pairs(buf, pos + 2, n as usize) {
            Ok((t, p)) => Ok((PhotonDataType::Hashtable(t), p)),
            Err(e) => Err(e),
        }
    } else if code == CUSTOM {
        if avail < 3 { return Err(ReadError::NotEnoughBytesLeft); }
        let type_code = buf[pos];
        assert(s.subrange(1, s.len() as int) =~= rest(buf@, pos + 1));
        let n = read_i16(buf, pos + 1);
        if n < 0 { return Err(ReadError::UnexpectedData("negative length")); }
        let n = n as usize;
        if avail - 3 < n { return Err(ReadError::NotEnoughBytesLeft); }
        let data = copy_range(buf, pos + 3, pos + 3 + n);
        assert(data@ =~= s.subrange(3, 3 + n as int));
        Ok((PhotonDataType::Custom(CustomData { type_code, data }), pos + 3 + n))
    } else if code == DICTIONARY {
        Err(ReadError::Unimplemented("dictionary"))
    } else if code == EVENT_DATA || code == OPERATION_REQUEST || code == OPERATION_RESPONSE {
        Err(ReadError::Unimplemented("nested message"))
    } else {
        Err(ReadError::UnknownDataType(code))
    }
}

/// Reads `n` big-endian integers at `pos`.
pub fn read_ints(buf: &[u8], pos: usize, n: usize) -> (r: Vec<i32>)
    requires
        pos <= buf.len(),
        n <= (buf.len() - pos) / 4,
    ensures
        r@.len() == n,
        forall|i: int| 0 <= i < n ==> #[trigger] r@[i] == i32_at(rest(buf@, pos + 4 * i)),
{
    let mut r: Vec<i32> = Vec::new();
    let mut i: usize = 0;
    while i < n
        invariant
            i <= n,
            n <= (buf.len() - pos) / 4,
            pos <= buf.len(),
            r@.len() == i,
            forall|j: int| 0 <= j < i ==> #[trigger] r@[j] == i32_at(rest(buf@, pos + 4 * j)),
        decreases n - i,
    {
        assert(pos + 4 * i + 4 <= buf.len()) by (nonlinear_arith)
            requires
                i < n,
                n <= (buf.len() - pos) / 4,
                pos <= buf.len(),
        ;
        r.push(read_i32(buf, pos + 4 * i));
        i = i + 1;
    }
    r
}

/// Reads `n` values at `pos`.
pub fn read_values(buf: &[u8], pos: usize, n: usize) -> (r: Result<(Vec<PhotonDataType>, usize), ReadError>)
    requires
        pos <= buf.len(),
    ensures
        match parse_values(rest(buf@, pos as int), n as int) {
            Ok((m, k)) => r matches Ok((xs, p)) && values_view(xs@) == m && p == pos + k,
            Err(e) => r == Err::<(Vec<PhotonDataType>, usize), ReadError>(e),
        },
        r matches Ok((_, p)) ==> pos <= p <= buf.len(),
    decreases buf@.len() - pos, 2int,
{
    let mut items: Vec<PhotonDataType> = Vec::new();
    let mut p = pos;
    let mut i: usize = 0;
    proof {
        lemma_prepend_empty(parse_values(rest(buf@, pos as int), n as int));
    }
    while i < n
        invariant
            pos <= p <= buf.len(),
            i <= n,
            parse_values(rest(buf@, pos as int), n as int) == prepend(values_view(items@), p - pos, parse_values(rest(buf@, p as int), n - i)),
        decreases n - i,
    {
        let ghost sp = rest(buf@, p as int);
        match read_value(buf, p) {
            Err(e) => {
                return Err(e);
            },
            Ok((x, p2)) => {
                assert(sp.subrange(p2 - p, sp.len() as int) =~= rest(buf@, p2 as int));
                proof {
                    lemma_prepend_cons(values_view(items@), p - pos, x@, p2 - p, parse_values(rest(buf@, p2 as int), n - i - 1));
                }
                let ghost before = items@;
                items.push(x);
                assert(items@.drop_last() =~= before);
                p = p2;
                i = i + 1;
            },
        }
    }
    proof {
        lemma_prepend_done(values_view(items@), p - pos);
    }
    Ok((items, p))
}

/// Reads `n` payloads of type `code` at `pos`.
pub fn read_payloads(code: u8, buf: &[u8], pos: usize, n: usize) -> (r: Result<(Vec<PhotonDataType>, usize), ReadError>)
    requires
        pos <= buf.len(),
    ensures
        match parse_payloads(code, rest(buf@, pos as int), n as int) {
            Ok((m, k)) => r matches Ok((xs, p)) && values_view(xs@) == m && p == pos + k,
            Err(e) => r == Err::<(Vec<PhotonDataType>, usize), ReadError>(e),
        },
        r matches Ok((_, p)) ==> pos <= p <= buf.len(),
    decreases buf@.len() - pos, 2int,
{
    let mut items: Vec<PhotonDataType> = Vec::new();
    let mut p = pos;
    let mut i: usize = 0;
    proof {
        lemma_prepend_empty(parse_payloads(code, rest(buf@, pos as int), n as int));
    }
    while i < n
        invariant
            pos <= p <= buf.len(),
            i <= n,
            parse_payloads(code, rest(buf@, pos as int), n as int) == prepend(values_view(items@), p - pos, parse_payloads(code, rest(buf@, p as int), n - i)),
        decreases n - i,
    {
        let ghost sp = rest(buf@, p as int);
        match read_payload(code, buf, p) {
            Err(e) => {
                return Err(e);
            },
            Ok((x, p2)) => {
                assert(sp.subrange(p2 - p, sp.len() as int) =~= rest(buf@, p2 as int));
                proof {
                    lemma_prepend_cons(values_view(items@), p - pos, x@, p2 - p, parse_payloads(code, rest(buf@, p2 as int), n - i - 1));
                }
                let ghost before = items@;
                items.push(x);
                assert(items@.drop_last() =~= before);
                p = p2;
                i = i + 1;
            },
        }
    }
    proof {
        lemma_prepend_done(values_view(items@), p - pos);
    }
    Ok((items, p))
}

/// Reads `n` key-value pairs at `pos` into a map; a repeated key keeps its first place and takes
/// the later value.
pub fn read_pairs(buf: &[u8], pos: usize, n: usize) -> (r: Result<(PhotonHashmap, usize), ReadError>)
    requires
        pos <= buf.len(),
    ensures
        match parse_pairs(rest(buf@, pos as int), n as int) {
            Ok((m, k)) => r matches Ok((t, p)) && pairs_view(t.entries()) == insert_all(m) && t.wf() && p == pos + k,
            Err(e) => r is Err && r->Err_0 == e,
        },
        r matches Ok((_, p)) ==> pos <= p <= buf.len(),
    decreases buf@.len() - pos, 2int,
{
    let mut map: PhotonHashmap = PhotonHashmap::new();
    let ghost mut raw: Seq<(PhotonValue, PhotonValue)> = Seq::empty();
    let mut p = pos;
    let mut i: usize = 0;
    proof {
        lemma_prepend_empty(parse_pairs(rest(buf@, pos as int), n as int));
        assert(pairs_view(map.entries()) =~= insert_all(raw));
    }
    while i < n
        invariant
            pos <= p <= buf.len(),
            i <= n,
            map.wf(),
            pairs_view(map.entries()) == insert_all(raw),
            parse_pairs(rest(buf@, pos as int), n as int) == prepend(raw, p - pos, parse_pairs(rest(buf@, p as int), n - i)),
        decreases n - i,
    {
        let ghost sp = rest(buf@, p as int);
        let (key, p1) = match read_value(buf, p) {
            Err(e) => {
                return Err(e);
            },
            Ok(x) => x,
        };
        assert(sp.subrange(p1 - p, sp.len() as int) =~= rest(buf@, p1 as int));
        let (val, p2) = match read_value(buf, p1) {
            Err(e) => {
                return Err(e);
            },
            Ok(x) => x,
        };
        assert(sp.subrange(p2 - p, sp.len() as int) =~= rest(buf@, p2 as int));
        assert(rest(buf@, p1 as int).subrange(p2 - p1, rest(buf@, p1 as int).len() as int) =~= rest(buf@, p2 as int));
        proof {
            lemma_prepend_cons(raw, p - pos, (key@, val@), p2 - p, parse_pairs(rest(buf@, p2 as int), n - i - 1));
            lemma_insert_view(map.entries(), key, val);
            assert(raw.push((key@, val@)).drop_last() =~= raw);
        }
        let ghost old_entries = map.entries();
        map.insert(key, val);
        proof {
            raw = raw.push((key@, val@));
        }
        p = p2;
        i = i + 1;
    }
    proof {
        lemma_prepend_done(raw, p - pos);
    }
    Ok((map, p))
}

/* The round trip */

/// Every hashtable inside `v`, at any depth, has distinct keys.
pub open spec fn distinct_keys(v: PhotonValue) -> bool
    decreases v,
{
    match v {
        PhotonValue::ObjectArray(a) => forall|i: int| 0 <= i < a.len() ==> distinct_keys(#[trigger] a[i]),
        PhotonValue::Array(a) => forall|i: int| 0 <= i < a.len() ==> distinct_keys(#[trigger] a[i]),
        PhotonValue::Hashtable(es) => keys_unique(es) && (forall|i: int| 0 <= i < es.len() ==> distinct_keys(#[trigger] es[i].0) && distinct_keys(es[i].1)),
        _ => true,
    }
}

pub proof fn lemma_then_assoc(a: Result<Seq<u8>, WriteError>, b: Result<Seq<u8>, WriteError>, c: Result<Seq<u8>, WriteError>)
    ensures
        then(then(a, b), c) == then(a, then(b, c)),
{
    if let (Ok(x), Ok(y), Ok(z)) = (a, b, c) {
        assert((x + y) + z =~= x + (y + z));
    }
}

pub proof fn lemma_then_empty(a: Result<Seq<u8>, WriteError>)
    ensures
        then(Ok(Seq::empty()), a) == a,
        then(a, Ok(Seq::empty())) == a,
{
    if let Ok(x) = a {
        assert(Seq::<u8>::empty() + x =~= x);
        assert(x + Seq::<u8>::empty() =~= x);
    }
}

pub proof fn lemma_strings_front(s: Seq<Seq<char>>)
    requires
        s.len() > 0,
    ensures
        strings_result(s) == then(string_result(s[0]), strings_result(s.drop_first())),
    decreases s.len(),
{
    if s.len() == 1 {
        assert(s.drop_last() =~= Seq::<Seq<char>>::empty());
        assert(s.drop_first() =~= Seq::<Seq<char>>::empty());
        lemma_then_empty(string_result(s[0]));
    } else {
        lemma_strings_front(s.drop_last());
        assert(s.drop_last().drop_first() =~= s.drop_first().drop_last());
        lemma_then_assoc(string_result(s[0]), strings_result(s.drop_first().drop_last()), string_result(s.last()));
    }
}

pub proof fn lemma_values_front(s: Seq<PhotonValue>)
    requires
        s.len() > 0,
    ensures
        values_result(s) == then(value_result(s[0]), values_result(s.drop_first())),
    decreases s.len(),
{
    if s.len() == 1 {
        assert(s.drop_last() =~= Seq::<PhotonValue>::empty());
        assert(s.drop_first() =~= Seq::<PhotonValue>::empty());
        lemma_then_empty(value_result(s[0]));
    } else {
        lemma_values_front(s.drop_last());
        assert(s.drop_last().drop_first() =~= s.drop_first().drop_last());
        lemma_then_assoc(value_result(s[0]), values_result(s.drop_first().drop_last()), value_result(s.last()));
    }
}

pub proof fn lemma_payloads_front(s: Seq<PhotonValue>)
    requires
        s.len() > 0,
    ensures
        payloads_result(s) == then(payload_result(s[0]), payloads_result(s.drop_first())),
    decreases s.len(),
{
    if s.len() == 1 {
        assert(s.drop_last() =~= Seq::<PhotonValue>::empty());
        assert(s.drop_first() =~= Seq::<PhotonValue>::empty());
        lemma_then_empty(payload_result(s[0]));
    } else {
        lemma_payloads_front(s.drop_last());
        assert(s.drop_last().drop_first() =~= s.drop_first().drop_last());
        lemma_then_assoc(payload_result(s[0]), payloads_result(s.drop_first().drop_last()), payload_result(s.last()));
    }
}

pub proof fn lemma_pairs_front(s: Seq<(PhotonValue, PhotonValue)>)
    requires
        s.len() > 0,
    ensures
        pairs_result(s) == then(then(value_result(s[0].0), value_result(s[0].1)), pairs_result(s.drop_first())),
    decreases s.len(),
{
    let head = then(value_result(s[0].0), value_result(s[0].1));
    if s.len() == 1 {
        assert(s.drop_last() =~= Seq::<(PhotonValue, PhotonValue)>::empty());
        assert(s.drop_first() =~= Seq::<(PhotonValue, PhotonValue)>::empty());
        lemma_then_empty(value_result(s[0].0));
        lemma_then_empty(head);
        lemma_then_assoc(Ok(Seq::empty()), value_result(s[0].0), value_result(s[0].1));
    } else {
        lemma_pairs_front(s.drop_last());
        assert(s.drop_last().drop_first() =~= s.drop_first().drop_last());
        let t = pairs_result(s.drop_first().drop_last());
        lemma_then_assoc(head, t, value_result(s.last().0));
        lemma_then_assoc(head, then(t, value_result(s.last().0)), value_result(s.last().1));
    }
}

pub proof fn lemma_ints_bytes(a: Seq<i32>)
    ensures
        ints_bytes(a).len() == 4 * a.len(),
        forall|i: int| 0 <= i < a.len() ==> #[trigger] ints_bytes(a).subrange(4 * i, 4 * i + 4) == i32_be(a[i]),
    decreases a.len(),
{
    if a.len() > 0 {
        lemma_ints_bytes(a.drop_last());
        let b = ints_bytes(a);
        let init = ints_bytes(a.drop_last());
        assert forall|i: int| 0 <= i < a.len() implies #[trigger] b.subrange(4 * i, 4 * i + 4) == i32_be(a[i]) by {
            if i < a.len() - 1 {
                assert(b.subrange(4 * i, 4 * i + 4) =~= init.subrange(4 * i, 4 * i + 4));
            } else {
                assert(b.subrange(4 * i, 4 * i + 4) =~= i32_be(a.last()));
            }
        }
    }
}

pub proof fn lemma_string_roundtrip(x: Seq<char>, rest: Seq<u8>)
    requires
        string_result(x) is Ok,
    ensures
        parse_string(string_result(x)->Ok_0 + rest) == Ok::<(Seq<char>, int), ReadError>((x, string_result(x)->Ok_0.len() as int)),
{
    let bytes = encode_utf8(x);
    let n = bytes.len();
    let s = string_result(x)->Ok_0 + rest;
    lemma_i16_roundtrip(n as i16, bytes + rest);
    assert(s =~= i16_be(n as i16) + (bytes + rest));
    assert((n as i16) as int == n);
    assert(s.subrange(2, 2 + n as int) =~= bytes);
    encode_utf8_valid_utf8(x);
    encode_utf8_decode_utf8(x);
}

pub proof fn lemma_strings_roundtrip(a: Seq<Seq<char>>, rest: Seq<u8>)
    requires
        strings_result(a) is Ok,
    ensures
        parse_strings(strings_result(a)->Ok_0 + rest, a.len() as int) == Ok::<(Seq<Seq<char>>, int), ReadError>((a, strings_result(a)->Ok_0.len() as int)),
    decreases a.len(),
{
    if a.len() == 0 {
        assert(a =~= Seq::<Seq<char>>::empty());
    } else {
        lemma_strings_front(a);
        let b0 = string_result(a[0])->Ok_0;
        let b1 = strings_result(a.drop_first())->Ok_0;
        let s = strings_result(a)->Ok_0 + rest;
        assert(s =~= b0 + (b1 + rest));
        lemma_string_roundtrip(a[0], b1 + rest);
        assert(s.subrange(b0.len() as int, s.len() as int) =~= b1 + rest);
        lemma_strings_roundtrip(a.drop_first(), rest);
        assert(seq![a[0]] + a.drop_first() =~= a);
        let tail = parse_strings(s.subrange(b0.len() as int, s.len() as int), a.len() - 1);
        assert(a.drop_first().len() == a.len() - 1);
        assert(tail == Ok::<(Seq<Seq<char>>, int), ReadError>((a.drop_first(), b1.len() as int)));
        assert(parse_string(s) == Ok::<(Seq<char>, int), ReadError>((a[0], b0.len() as int)));
        assert(parse_strings(s, a.len() as int) == cons(a[0], b0.len() as int, tail));
        assert(strings_result(a)->Ok_0 == b0 + b1);
        assert(cons(a[0], b0.len() as int, tail) == Ok::<(Seq<Seq<char>>, int), ReadError>((a, (b0 + b1).len() as int)));
    }
}

/// Reading back the bytes written for a value gives the value, whatever follows them.
pub proof fn lemma_value_roundtrip(v: PhotonValue, rest: Seq<u8>)
    requires
        value_result(v) is Ok,
        distinct_keys(v),
    ensures
        parse_value(value_result(v)->Ok_0 + rest) == Ok::<(PhotonValue, int), ReadError>((v, value_result(v)->Ok_0.len() as int)),
    decreases v, 1int,
{
    let b = payload_result(v)->Ok_0;
    let s = value_result(v)->Ok_0 + rest;
    assert(s =~= seq![type_code(v)] + (b + rest));
    assert(s.subrange(1, s.len() as int) =~= b + rest);
    lemma_payload_roundtrip(v, rest);
}

/// Reading back the payload written for a value, knowing its type code, gives the value.
#[verifier::rlimit(100)]
pub proof fn lemma_payload_roundtrip(v: PhotonValue, rest: Seq<u8>)
    requires
        payload_result(v) is Ok,
        distinct_keys(v),
    ensures
        parse_payload(type_code(v), payload_result(v)->Ok_0 + rest) == Ok::<(PhotonValue, int), ReadError>((v, payload_result(v)->Ok_0.len() as int)),
    decreases v, 0int,
{
    let b = payload_result(v)->Ok_0;
    let s = b + rest;
    match v {
        PhotonValue::Null => {},
        PhotonValue::Boolean(x) => {},
        PhotonValue::Byte(x) => {},
        PhotonValue::Short(x) => {
            lemma_i16_roundtrip(x, rest);
        },
        PhotonValue::Integer(x) => {
            lemma_i32_roundtrip(x, rest);
        },
        PhotonValue::Long(x) => {
            lemma_i64_roundtrip(x, rest);
        },
        PhotonValue::Float(x) => {
            lemma_u32_roundtrip(x, rest);
        },
        PhotonValue::Double(x) => {
            lemma_u64_roundtrip(x, rest);
        },
        PhotonValue::String(x) => {
            lemma_string_roundtrip(x, rest);
        },
        PhotonValue::ByteArray(x) => {
            let n = x.len();
            assert(s =~= i32_be(n as i32) + (x + rest));
            lemma_i32_roundtrip(n as i32, x + rest);
            assert((n as i32) as int == n);
            assert(s.subrange(4, 4 + n as int) =~= x);
        },
        PhotonValue::IntArray(x) => {
            let n = x.len();
            let ib = ints_bytes(x);
            lemma_ints_bytes(x);
            assert(s =~= i32_be(n as i32) + (ib + rest));
            lemma_i32_roundtrip(n as i32, ib + rest);
            assert((n as i32) as int == n);
            let t = s.subrange(4, s.len() as int);
            assert(t =~= ib + rest);
            assert forall|i: int| 0 <= i < n implies #[trigger] ints_at(t, n as int)[i] == x[i] by {
                assert(t.subrange(4 * i, t.len() as int) =~= ib.subrange(4 * i, 4 * i + 4) + t.subrange(4 * i + 4, t.len() as int));
                lemma_i32_roundtrip(x[i], t.subrange(4 * i + 4, t.len() as int));
            }
            assert(ints_at(t, n as int) =~= x);
        },
        PhotonValue::StringArray(x) => {
            let n = x.len();
            let sb = strings_result(x)->Ok_0;
            assert(s =~= i16_be(n as i16) + (sb + rest));
            lemma_i16_roundtrip(n as i16, sb + rest);
            assert((n as i16) as int == n);
            assert(s.subrange(2, s.len() as int) =~= sb + rest);
            lemma_strings_roundtrip(x, rest);
        },
        PhotonValue::ObjectArray(x) => {
            let n = x.len();
            let vb = values_result(x)->Ok_0;
            assert(s =~= i16_be(n as i16) + (vb + rest));
            lemma_i16_roundtrip(n as i16, vb + rest);
            assert((n as i16) as int == n);
            assert(s.subrange(2, s.len() as int) =~= vb + rest);
            lemma_values_roundtrip(x, rest);
        },
        PhotonValue::Array(x) => {
            let n = x.len();
            let pb = payloads_result(x)->Ok_0;
            assert(s =~= i16_be(n as i16) + (seq![element_code(x)] + (pb + rest)));
            lemma_i16_roundtrip(n as i16, seq![element_code(x)] + (pb + rest));
            assert((n as i16) as int == n);
            assert(s[2] == element_code(x));
            assert(s.subrange(3, s.len() as int) =~= pb + rest);
            lemma_payloads_roundtrip(element_code(x), x, rest);
        },
        PhotonValue::Hashtable(es) => {
            let n = es.len();
            let pb = pairs_result(es)->Ok_0;
            assert(s =~= i16_be(n as i16) + (pb + rest));
            lemma_i16_roundtrip(n as i16, pb + rest);
            assert((n as i16) as int == n);
            assert(s.subrange(2, s.len() as int) =~= pb + rest);
            lemma_pairs_roundtrip(es, rest);
            lemma_insert_all_unique(es);
        },
        PhotonValue::Custom(c, d) => {
            let n = d.len();
            assert(s =~= seq![c] + (i16_be(n as i16) + (d + rest)));
            assert(s.subrange(1, s.len() as int) =~= i16_be(n as i16) + (d + rest));
            lemma_i16_roundtrip(n as i16, d + rest);
            assert((n as i16) as int == n);
            assert(s.subrange(3, 3 + n as int) =~= d);
        },
    }
}

pub proof fn lemma_values_roundtrip(a: Seq<PhotonValue>, rest: Seq<u8>)
    requires
        values_result(a) is Ok,
        forall|i: int| 0 <= i < a.len() ==> distinct_keys(#[trigger] a[i]),
    ensures
        parse_values(values_result(a)->Ok_0 + rest, a.len() as int) == Ok::<(Seq<PhotonValue>, int), ReadError>((a, values_result(a)->Ok_0.len() as int)),
    decreases a, 0int,
{
    if a.len() > 0 {
        lemma_values_front(a);
        let b0 = value_result(a[0])->Ok_0;
        let b1 = values_result(a.drop_first())->Ok_0;
        let s = values_result(a)->Ok_0 + rest;
        assert(s =~= b0 + (b1 + rest));
        lemma_value_roundtrip(a[0], b1 + rest);
        assert(s.subrange(b0.len() as int, s.len() as int) =~= b1 + rest);
        assert forall|i: int| 0 <= i < a.drop_first().len() implies distinct_keys(#[trigger] a.drop_first()[i]) by {
            assert(a.drop_first()[i] == a[i + 1]);
        }
        lemma_values_roundtrip(a.drop_first(), rest);
        assert(seq![a[0]] + a.drop_first() =~= a);
        let tail = parse_values(s.subrange(b0.len() as int, s.len() as int), a.len() - 1);
        assert(a.drop_first().len() == a.len() - 1);
        assert(tail == Ok::<(Seq<PhotonValue>, int), ReadError>((a.drop_first(), b1.len() as int)));
        assert(parse_value(s) == Ok::<(PhotonValue, int), ReadError>((a[0], b0.len() as int)));
        assert(parse_values(s, a.len() as int) == cons(a[0], b0.len() as int, tail));
        assert(values_result(a)->Ok_0 == b0 + b1);
        assert(cons(a[0], b0.len() as int, tail) == Ok::<(Seq<PhotonValue>, int), ReadError>((a, (b0 + b1).len() as int)));
    } else {
        assert(a =~= Seq::<PhotonValue>::empty());
    }
}

pub proof fn lemma_payloads_roundtrip(code: u8, a: Seq<PhotonValue>, rest: Seq<u8>)
    requires
        payloads_result(a) is Ok,
        forall|i: int| 0 <= i < a.len() ==> distinct_keys(#[trigger] a[i]),
        forall|i: int| 0 <= i < a.len() ==> type_code(#[trigger] a[i]) == code,
    ensures
        parse_payloads(code, payloads_result(a)->Ok_0 + rest, a.len() as int) == Ok::<(Seq<PhotonValue>, int), ReadError>((a, payloads_result(a)->Ok_0.len() as int)),
    decreases a, 0int,
{
    if a.len() > 0 {
        lemma_payloads_front(a);
        let b0 = payload_result(a[0])->Ok_0;
        let b1 = payloads_result(a.drop_first())->Ok_0;
        let s = payloads_result(a)->Ok_0 + rest;
        assert(s =~= b0 + (b1 + rest));
        assert(type_code(a[0]) == code);
        lemma_payload_roundtrip(a[0], b1 + rest);
        assert(s.subrange(b0.len() as int, s.len() as int) =~= b1 + rest);
        assert forall|i: int| 0 <= i < a.drop_first().len() implies distinct_keys(#[trigger] a.drop_first()[i]) && type_code(a.drop_first()[i]) == code by {
            assert(a.drop_first()[i] == a[i + 1]);
        }
        lemma_payloads_roundtrip(code, a.drop_first(), rest);
        assert(seq![a[0]] + a.drop_first() =~= a);
        let tail = parse_payloads(code, s.subrange(b0.len() as int, s.len() as int), a.len() - 1);
        assert(a.drop_first().len() == a.len() - 1);
        assert(tail == Ok::<(Seq<PhotonValue>, int), ReadError>((a.drop_first(), b1.len() as int)));
        assert(parse_payload(code, s) == Ok::<(PhotonValue, int), ReadError>((a[0], b0.len() as int)));
        assert(parse_payloads(code, s, a.len() as int) == cons(a[0], b0.len() as int, tail));
        assert(payloads_result(a)->Ok_0 == b0 + b1);
        assert(cons(a[0], b0.len() as int, tail) == Ok::<(Seq<PhotonValue>, int), ReadError>((a, (b0 + b1).len() as int)));
    } else {
        assert(a =~= Seq::<PhotonValue>::empty());
    }
}

#[verifier::rlimit(50)]
pub proof fn lemma_pairs_roundtrip(es: Seq<(PhotonValue, PhotonValue)>, rest: Seq<u8>)
    requires
        pairs_result(es) is Ok,
        forall|i: int| 0 <= i < es.len() ==> distinct_keys(#[trigger] es[i].0) && distinct_keys(es[i].1),
    ensures
        parse_pairs(pairs_result(es)->Ok_0 + rest, es.len() as int) == Ok::<(Seq<(PhotonValue, PhotonValue)>, int), ReadError>((es, pairs_result(es)->Ok_0.len() as int)),
    decreases es, 0int,
{
    if es.len() > 0 {
        lemma_pairs_front(es);
        let kb = value_result(es[0].0)->Ok_0;
        let vb = value_result(es[0].1)->Ok_0;
        let b1 = pairs_result(es.drop_first())->Ok_0;
        let s = pairs_result(es)->Ok_0 + rest;
        assert(s =~= kb + (vb + (b1 + rest)));
        lemma_value_roundtrip(es[0].0, vb + (b1 + rest));
        let s1 = s.subrange(kb.len() as int, s.len() as int);
        assert(s1 =~= vb + (b1 + rest));
        lemma_value_roundtrip(es[0].1, b1 + rest);
        assert(s.subrange((kb.len() + vb.len()) as int, s.len() as int) =~= b1 + rest);
        assert forall|i: int| 0 <= i < es.drop_first().len() implies distinct_keys(#[trigger] es.drop_first()[i].0) && distinct_keys(es.drop_first()[i].1) by {
            assert(es.drop_first()[i] == es[i + 1]);
        }
        lemma_pairs_roundtrip(es.drop_first(), rest);
        assert(seq![es[0]] + es.drop_first() =~= es);
        let tail = parse_pairs(s.subrange((kb.len() + vb.len()) as int, s.len() as int), es.len() - 1);
        assert(es.drop_first().len() == es.len() - 1);
        assert(tail == Ok::<(Seq<(PhotonValue, PhotonValue)>, int), ReadError>((es.drop_first(), b1.len() as int)));
        assert(parse_value(s) == Ok::<(PhotonValue, int), ReadError>((es[0].0, kb.len() as int)));
        assert(parse_value(s1) == Ok::<(PhotonValue, int), ReadError>((es[0].1, vb.len() as int)));
        assert(parse_pairs(s, es.len() as int) == cons(es[0], (kb.len() + vb.len()) as int, tail));
        assert(pairs_result(es)->Ok_0 == (kb + vb) + b1);
        assert(cons(es[0], (kb.len() + vb.len()) as int, tail) == Ok::<(Seq<(PhotonValue, PhotonValue)>, int), ReadError>((es, ((kb + vb) + b1).len() as int)));
    } else {
        assert(es =~= Seq::<(PhotonValue, PhotonValue)>::empty());
    }
}

} // verus!
