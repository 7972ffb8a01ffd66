//! Decoder: pure conversion of raw 16-bit words into typed values.
//!
//! A read may hand back fewer words than the declared type needs; that is a
//! benign "insufficient data" outcome, signalled as `None`, never an error.

use vstd::prelude::*;

verus! {

use crate::config::{DataType, Endianness};
use crate::datapoint::DataValue;

/// How many words the declared type consumes.
pub open spec fn required_words(t: DataType) -> nat {
    match t {
        DataType::U16 => 1,
        DataType::I16 => 1,
        DataType::Bitfield => 1,
        DataType::U32 => 2,
        DataType::I32 => 2,
        DataType::F32 => 2,
    }
}

/// The word selected as most significant under a word order.
pub open spec fn hi_word(e: Endianness, w0: u16, w1: u16) -> u16 {
    match e {
        Endianness::Big => w0,
        Endianness::Little => w1,
    }
}

/// The word selected as least significant under a word order.
pub open spec fn lo_word(e: Endianness, w0: u16, w1: u16) -> u16 {
    match e {
        Endianness::Big => w1,
        Endianness::Little => w0,
    }
}

/// Two consecutive words combined into one 32-bit quantity, the configured
/// word most significant.
pub open spec fn combined(e: Endianness, w0: u16, w1: u16) -> int {
    hi_word(e, w0, w1) * 0x10000 + lo_word(e, w0, w1)
}

/// Two's-complement reading of a 16-bit pattern.
pub open spec fn as_signed_16(w: u16) -> int {
    if w < 0x8000 {
        w as int
    } else {
        w - 0x10000
    }
}

/// Two's-complement reading of a 32-bit quantity given as its unsigned
/// value.
pub open spec fn as_signed_32(n: int) -> int {
    if n < 0x8000_0000 {
        n
    } else {
        n - 0x1_0000_0000
    }
}

/// What decoding a word sequence must yield: `None` exactly when the read
/// returned fewer words than the declared type needs, otherwise the typed
/// value. The float value is the combined 32-bit quantity taken as an
/// IEEE-754 bit pattern; word order follows the setting, byte order within
/// each word is always big-endian.
pub open spec fn decode_spec(words: Seq<u16>, t: DataType, e: Endianness) -> Option<DataValue> {
    if words.len() < required_words(t) {
        None
    } else {
        match t {
            DataType::U16 => Some(DataValue::U16(words[0])),
            DataType::I16 => Some(DataValue::I16(as_signed_16(words[0]) as i16)),
            DataType::U32 => Some(DataValue::U32(combined(e, words[0], words[1]) as u32)),
            DataType::I32 => Some(
                DataValue::I32(as_signed_32(combined(e, words[0], words[1])) as i32),
            ),
            DataType::F32 => Some(DataValue::F32(combined(e, words[0], words[1]) as u32)),
            DataType::Bitfield => Some(DataValue::Bitfield(words[0])),
        }
    }
}

/// Combine two words into the 32-bit quantity with `hi` most significant.
fn combine_u32(hi: u16, lo: u16) -> (r: u32)
    ensures
        r == hi * 0x10000 + lo,
{
    (hi as u32) * 0x10000 + (lo as u32)
}

/// Decode the words returned by one read according to the declared type and
/// the configured word order.
pub fn decode(words: &Vec<u16>, data_type: DataType, endianness: Endianness) -> (r: Option<
    DataValue,
>)
    ensures
        r == decode_spec(words@, data_type, endianness),
        r is Some <==> words@.len() >= required_words(data_type),
{
    match data_type {
        DataType::U16 => {
            if words.len() >= 1 {
                Some(DataValue::U16(words[0]))
            } else {
                None
            }
        },
        DataType::I16 => {
            if words.len() >= 1 {
                let w = words[0];
                let v = w as i16;
                proof {
                    assert((w < 0x8000 ==> (w as i16) as i32 == w as i32) && (w >= 0x8000
                        ==> (w as i16) as i32 == w as i32 - 0x10000)) by (bit_vector);
                    assert(v as int == as_signed_16(w));
                }
                Some(DataValue::I16(v))
            } else {
                None
            }
        },
        DataType::U32 => {
            if words.len() >= 2 {
                let (hi, lo) = select_words(endianness, words[0], words[1]);
                Some(DataValue::U32(combine_u32(hi, lo)))
            } else {
                None
            }
        },
        DataType::I32 => {
            if words.len() >= 2 {
                let (hi, lo) = select_words(endianness, words[0], words[1]);
                let u = combine_u32(hi, lo);
                let v = u as i32;
                proof {
                    assert((u < 0x8000_0000u32 ==> (u as i32) as i64 == u as i64) && (u
                        >= 0x8000_0000u32 ==> (u as i32) as i64 == u as i64 - 0x1_0000_0000i64))
                        by (bit_vector);
                    assert(v as int == as_signed_32(u as int));
                }
                Some(DataValue::I32(v))
            } else {
                None
            }
        },
        DataType::F32 => {
            if words.len() >= 2 {
                let (hi, lo) = select_words(endianness, words[0], words[1]);
                Some(DataValue::F32(combine_u32(hi, lo)))
            } else {
                None
            }
        },
        DataType::Bitfield => {
            if words.len() >= 1 {
                Some(DataValue::Bitfield(words[0]))
            } else {
                None
            }
        },
    }
}

/// Order the first two words as (most significant, least significant).
fn select_words(e: Endianness, w0: u16, w1: u16) -> (r: (u16, u16))
    ensures
        r.0 == hi_word(e, w0, w1),
        r.1 == lo_word(e, w0, w1),
{
    match e {
        Endianness::Big => (w0, w1),
        Endianness::Little => (w1, w0),
    }
}

} // verus!
