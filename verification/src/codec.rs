//! The byte encoding of values.
//!
//! Plain values are encoded and decoded by `bincode`, with the options of its
//! free functions: integers at fixed width in little-endian order, a length
//! as a `u64`, text as its length in bytes followed by its UTF-8 bytes, and
//! bytes left over after a decoded value ignored. A value of this crate is
//! framed here as `bincode` frames an enum: the index of the variant as a
//! `u32`, then what the variant holds.

use crate::value::{Value, ValueView};
use vstd::prelude::*;
use vstd::slice::slice_subrange;
use vstd::utf8::{decode_utf8, encode_utf8, valid_utf8};

verus! {

/// `bincode::ErrorKind`, the error of every call into `bincode`. Nothing is
/// claimed of what one holds.
#[verifier::external_type_specification]
#[verifier::external_body]
pub struct ExErrorKind(bincode::ErrorKind);

/// 256 to the power of `width`.
pub open spec fn radix(width: nat) -> nat
    decreases width,
{
    if width == 0 {
        1
    } else {
        256 * radix((width - 1) as nat)
    }
}

/// The `width` lowest digits of `x` in base 256, the lowest first.
pub open spec fn le_bytes(x: nat, width: nat) -> Seq<u8>
    decreases width,
{
    if width == 0 {
        Seq::empty()
    } else {
        seq![(x % 256) as u8] + le_bytes(x / 256, (width - 1) as nat)
    }
}

/// The number whose digits in base 256 are `bytes`, the lowest first.
pub open spec fn le_value(bytes: Seq<u8>) -> nat
    decreases bytes.len(),
{
    if bytes.len() == 0 {
        0
    } else {
        bytes[0] as nat + 256 * le_value(bytes.skip(1))
    }
}

/// The encoding of a text: its length in bytes, then its UTF-8 bytes.
pub open spec fn text_bytes(text: Seq<char>) -> Seq<u8> {
    le_bytes(encode_utf8(text).len(), 8) + encode_utf8(text)
}

/// The text that `bytes` begins with, if it begins with one.
pub open spec fn parse_text(bytes: Seq<u8>) -> Option<Seq<char>> {
    if bytes.len() < 8 {
        None
    } else {
        let length = le_value(bytes.subrange(0, 8));
        if 8 + length <= bytes.len() && valid_utf8(bytes.subrange(8, 8 + length as int)) {
            Some(decode_utf8(bytes.subrange(8, 8 + length as int)))
        } else {
            None
        }
    }
}

/// The number of bytes that the text at the start of `bytes` takes.
pub open spec fn text_width(bytes: Seq<u8>) -> nat {
    8 + le_value(bytes.subrange(0, 8))
}

/// The number that `bytes` begins with, if it begins with four bytes.
pub open spec fn parse_u32(bytes: Seq<u8>) -> Option<u32> {
    if bytes.len() >= 4 {
        Some(le_value(bytes.subrange(0, 4)) as u32)
    } else {
        None
    }
}

/// The number that `bytes` begins with, if it begins with eight bytes.
pub open spec fn parse_u64(bytes: Seq<u8>) -> Option<u64> {
    if bytes.len() >= 8 {
        Some(le_value(bytes.subrange(0, 8)) as u64)
    } else {
        None
    }
}

/// The truth value that `bytes` begins with, if it begins with one.
pub open spec fn parse_truth(bytes: Seq<u8>) -> Option<bool> {
    if bytes.len() >= 1 && bytes[0] <= 1 {
        Some(bytes[0] == 1)
    } else {
        None
    }
}

/// The encoding of a value.
pub open spec fn value_bytes(value: ValueView) -> Seq<u8> {
    match value {
        ValueView::Text(text) => le_bytes(0, 4) + text_bytes(text),
        ValueView::Number(bits) => le_bytes(1, 4) + le_bytes(bits as nat, 4),
        ValueView::Truth(truth) => le_bytes(2, 4) + seq![if truth { 1u8 } else { 0u8 }],
    }
}

/// The value that `bytes` begins with, if it begins with one.
pub open spec fn parse_value(bytes: Seq<u8>) -> Option<ValueView> {
    match parse_u32(bytes) {
        Some(0) => match parse_text(bytes.skip(4)) {
            Some(text) => Some(ValueView::Text(text)),
            None => None,
        },
        Some(1) => match parse_u32(bytes.skip(4)) {
            Some(bits) => Some(ValueView::Number(bits)),
            None => None,
        },
        Some(2) => match parse_truth(bytes.skip(4)) {
            Some(truth) => Some(ValueView::Truth(truth)),
            None => None,
        },
        _ => None,
    }
}

/// Digits written at a width are as many as the width.
pub proof fn lemma_le_bytes_len(x: nat, width: nat)
    ensures
        le_bytes(x, width).len() == width,
    decreases width,
{
    if width > 0 {
        lemma_le_bytes_len(x / 256, (width - 1) as nat);
    }
}

/// Digits written at a width that holds the number read back as the number.
pub proof fn lemma_le_round_trip(x: nat, width: nat)
    requires
        x < radix(width),
    ensures
        le_bytes(x, width).len() == width,
        le_value(le_bytes(x, width)) == x,
    decreases width,
{
    lemma_le_bytes_len(x, width);
    if width > 0 {
        let rest = le_bytes(x / 256, (width - 1) as nat);
        lemma_le_round_trip(x / 256, (width - 1) as nat);
        assert(le_bytes(x, width).skip(1) =~= rest);
    }
}

/// Digits stand for a number below 256 to the power of their count.
pub proof fn lemma_le_value_bound(bytes: Seq<u8>)
    ensures
        le_value(bytes) < radix(bytes.len()),
    decreases bytes.len(),
{
    if bytes.len() > 0 {
        lemma_le_value_bound(bytes.skip(1));
    }
}

/// The limits of one, four and eight digits.
pub proof fn lemma_radix()
    ensures
        radix(1) == 0x100,
        radix(4) == 0x1_0000_0000,
        radix(8) == 0x1_0000_0000_0000_0000,
{
    reveal_with_fuel(radix, 9);
}

/// A number that is parsed is the number that its four or eight digits
/// stand for: no digit is lost.
pub proof fn lemma_parsed_number(bytes: Seq<u8>)
    ensures
        parse_u32(bytes) matches Some(x) ==> x == le_value(bytes.subrange(0, 4)),
        parse_u64(bytes) matches Some(x) ==> x == le_value(bytes.subrange(0, 8)),
{
    lemma_radix();
    if bytes.len() >= 4 {
        lemma_le_value_bound(bytes.subrange(0, 4));
    }
    if bytes.len() >= 8 {
        lemma_le_value_bound(bytes.subrange(0, 8));
    }
}

/// The width of an encoded text.
pub proof fn lemma_text_bytes_len(text: Seq<char>)
    ensures
        text_bytes(text).len() == 8 + encode_utf8(text).len(),
{
    lemma_le_bytes_len(encode_utf8(text).len(), 8);
}

/// An encoded text, whatever follows it, parses as that text.
pub proof fn lemma_text_round_trip(text: Seq<char>, rest: Seq<u8>)
    requires
        encode_utf8(text).len() < radix(8),
    ensures
        parse_text(text_bytes(text) + rest) == Some(text),
        text_width(text_bytes(text) + rest) == text_bytes(text).len(),
{
    let body = encode_utf8(text);
    let bytes = text_bytes(text) + rest;
    lemma_le_round_trip(body.len(), 8);
    assert(bytes.subrange(0, 8) =~= le_bytes(body.len(), 8));
    assert(bytes.subrange(8, 8 + body.len() as int) =~= body);
    vstd::utf8::encode_utf8_valid_utf8(text);
    vstd::utf8::encode_utf8_decode_utf8(text);
}

/// The width of an encoded value.
pub proof fn lemma_value_bytes_len(value: ValueView)
    ensures
        value_bytes(value).len() == match value {
            ValueView::Text(text) => 12 + encode_utf8(text).len(),
            ValueView::Number(_) => 8,
            ValueView::Truth(_) => 5,
        },
{
    lemma_le_bytes_len(0, 4);
    lemma_le_bytes_len(1, 4);
    lemma_le_bytes_len(2, 4);
    match value {
        ValueView::Text(text) => {
            lemma_text_bytes_len(text);
        },
        ValueView::Number(bits) => {
            lemma_le_bytes_len(bits as nat, 4);
        },
        ValueView::Truth(_) => {},
    }
}

/// An encoded value, whatever follows it, parses as that value.
pub proof fn lemma_value_round_trip(value: ValueView, rest: Seq<u8>)
    requires
        value matches ValueView::Text(text) ==> encode_utf8(text).len() < radix(8),
    ensures
        parse_value(value_bytes(value) + rest) == Some(value),
{
    lemma_radix();
    let bytes = value_bytes(value) + rest;
    lemma_value_bytes_len(value);
    match value {
        ValueView::Text(text) => {
            lemma_le_round_trip(0, 4);
            assert(bytes.subrange(0, 4) =~= le_bytes(0, 4));
            assert(bytes.skip(4) =~= text_bytes(text) + rest);
            lemma_text_round_trip(text, rest);
        },
        ValueView::Number(bits) => {
            lemma_le_round_trip(1, 4);
            lemma_le_round_trip(bits as nat, 4);
            assert(bytes.subrange(0, 4) =~= le_bytes(1, 4));
            assert(bytes.skip(4).subrange(0, 4) =~= le_bytes(bits as nat, 4));
        },
        ValueView::Truth(truth) => {
            lemma_le_round_trip(2, 4);
            assert(bytes.subrange(0, 4) =~= le_bytes(2, 4));
            assert(bytes.skip(4)[0] == if truth { 1u8 } else { 0u8 });
        },
    }
}

/// `bincode::serialize` on a `u32`: always succeeds, with the four bytes of
/// the number, the lowest first.
#[verifier::external_body]
fn serialize_u32(x: u32) -> (result: Result<Vec<u8>, Box<bincode::ErrorKind>>)
    ensures
        result is Ok,
        result matches Ok(bytes) ==> bytes@ == le_bytes(x as nat, 4),
{
    bincode::serialize(&x)
}

/// `bincode::serialize` on a `u64`: always succeeds, with the eight bytes of
/// the number, the lowest first.
#[verifier::external_body]
fn serialize_u64(x: u64) -> (result: Result<Vec<u8>, Box<bincode::ErrorKind>>)
    ensures
        result is Ok,
        result matches Ok(bytes) ==> bytes@ == le_bytes(x as nat, 8),
{
    bincode::serialize(&x)
}

/// `bincode::deserialize` to a `u64`: succeeds if and only if there are
/// eight bytes, with the number that the first eight are the digits of, the
/// lowest first.
#[verifier::external_body]
fn deserialize_u64(bytes: &[u8]) -> (result: Result<u64, Box<bincode::ErrorKind>>)
    ensures
        result is Ok <==> parse_u64(bytes@) is Some,
        result matches Ok(x) ==> parse_u64(bytes@) == Some(x),
{
    bincode::deserialize(bytes)
}

/// `bincode::serialize` on a `bool`: always succeeds, with the one byte 1
/// for `true` and 0 for `false`.
#[verifier::external_body]
fn serialize_bool(x: bool) -> (result: Result<Vec<u8>, Box<bincode::ErrorKind>>)
    ensures
        result is Ok,
        result matches Ok(bytes) ==> bytes@ == seq![if x { 1u8 } else { 0u8 }],
{
    bincode::serialize(&x)
}

/// `bincode::serialize` on a `str`: always succeeds, with the length of the
/// text in bytes as eight bytes, the lowest first, then its UTF-8 bytes.
#[verifier::external_body]
fn serialize_str(x: &str) -> (result: Result<Vec<u8>, Box<bincode::ErrorKind>>)
    ensures
        result is Ok,
        result matches Ok(bytes) ==> bytes@ == text_bytes(x@),
{
    bincode::serialize(x)
}

/// `bincode::deserialize` to a `u32`: succeeds if and only if there are four
/// bytes, with the number that the first four are the digits of, the lowest
/// first.
#[verifier::external_body]
fn deserialize_u32(bytes: &[u8]) -> (result: Result<u32, Box<bincode::ErrorKind>>)
    ensures
        result is Ok <==> parse_u32(bytes@) is Some,
        result matches Ok(x) ==> parse_u32(bytes@) == Some(x),
{
    bincode::deserialize(bytes)
}

/// `bincode::deserialize` to a `bool`: succeeds if and only if there is a
/// first byte and it is 0 or 1, with `true` for 1.
#[verifier::external_body]
fn deserialize_bool(bytes: &[u8]) -> (result: Result<bool, Box<bincode::ErrorKind>>)
    ensures
        result is Ok <==> parse_truth(bytes@) is Some,
        result matches Ok(x) ==> parse_truth(bytes@) == Some(x),
{
    bincode::deserialize(bytes)
}

/// `bincode::deserialize` to a `String`: succeeds if and only if there are
/// eight bytes of length, as many bytes after them as the length says, and
/// these are valid UTF-8; the result is the text that they encode.
#[verifier::external_body]
fn deserialize_string(bytes: &[u8]) -> (result: Result<String, Box<bincode::ErrorKind>>)
    ensures
        result is Ok <==> parse_text(bytes@) is Some,
        result matches Ok(text) ==> parse_text(bytes@) == Some(text@),
{
    bincode::deserialize(bytes)
}

/// The message of a `bincode` error, as its `Display` writes it.
#[verifier::external_body]
fn error_text(error: &Box<bincode::ErrorKind>) -> String {
    error.to_string()
}

/// The four bytes of `x`, the lowest first.
pub fn encode_u32(x: u32) -> (bytes: Vec<u8>)
    ensures
        bytes@ == le_bytes(x as nat, 4),
        bytes@.len() == 4,
{
    proof {
        lemma_le_bytes_len(x as nat, 4);
    }
    match serialize_u32(x) {
        Ok(bytes) => bytes,
        Err(_) => vstd::pervasive::unreached(),
    }
}

/// The eight bytes of `x`, the lowest first.
pub fn encode_u64(x: u64) -> (bytes: Vec<u8>)
    ensures
        bytes@ == le_bytes(x as nat, 8),
        bytes@.len() == 8,
{
    proof {
        lemma_le_bytes_len(x as nat, 8);
    }
    match serialize_u64(x) {
        Ok(bytes) => bytes,
        Err(_) => vstd::pervasive::unreached(),
    }
}

/// The number in the first eight bytes of `bytes`, or the reason why there
/// is none.
pub fn decode_u64(bytes: &[u8]) -> (result: Result<u64, String>)
    ensures
        result is Ok <==> parse_u64(bytes@) is Some,
        result matches Ok(x) ==> parse_u64(bytes@) == Some(x),
{
    match deserialize_u64(bytes) {
        Ok(x) => Ok(x),
        Err(error) => Err(error_text(&error)),
    }
}

/// The encoding of a text.
pub fn encode_text(text: &str) -> (bytes: Vec<u8>)
    ensures
        bytes@ == text_bytes(text@),
{
    match serialize_str(text) {
        Ok(bytes) => bytes,
        Err(_) => vstd::pervasive::unreached(),
    }
}

/// The encoding of a value. It is one that [`parse_value`] reads back as
/// the value.
pub fn encode_value(value: &Value) -> (bytes: Vec<u8>)
    ensures
        bytes@ == value_bytes(value@),
        parse_value(bytes@) == Some(value@),
{
    proof {
        lemma_radix();
    }
    match value {
        Value::VString(text) => {
            let mut bytes = encode_u32(0);
            let body = encode_text(text.as_str());
            let ghost width = body.len();
            bytes.extend_from_slice(body.as_slice());
            proof {
                lemma_text_bytes_len(text@);
                assert(encode_utf8(text@).len() + 8 == width);
                lemma_value_round_trip(value@, Seq::empty());
                assert(bytes@ =~= value_bytes(value@) + Seq::<u8>::empty());
            }
            bytes
        },
        Value::VNumber(bits) => {
            let mut bytes = encode_u32(1);
            let body = encode_u32(*bits);
            bytes.extend_from_slice(body.as_slice());
            proof {
                lemma_value_round_trip(value@, Seq::empty());
                assert(bytes@ =~= value_bytes(value@) + Seq::<u8>::empty());
            }
            bytes
        },
        Value::VBool(truth) => {
            let mut bytes = encode_u32(2);
            let body = match serialize_bool(*truth) {
                Ok(body) => body,
                Err(_) => vstd::pervasive::unreached(),
            };
            bytes.extend_from_slice(body.as_slice());
            proof {
                lemma_value_round_trip(value@, Seq::empty());
                assert(bytes@ =~= value_bytes(value@) + Seq::<u8>::empty());
            }
            bytes
        },
    }
}

/// The text at the start of `bytes`, or the reason why there is none.
pub fn decode_text(bytes: &[u8]) -> (result: Result<String, String>)
    ensures
        result is Ok <==> parse_text(bytes@) is Some,
        result matches Ok(text) ==> parse_text(bytes@) == Some(text@),
{
    match deserialize_string(bytes) {
        Ok(text) => Ok(text),
        Err(error) => Err(error_text(&error)),
    }
}

/// The value at the start of `bytes`, or the reason why there is none.
pub fn decode_value(bytes: &[u8]) -> (result: Result<Value, String>)
    ensures
        result is Ok <==> parse_value(bytes@) is Some,
        result matches Ok(value) ==> parse_value(bytes@) == Some(value@),
{
    let tag = match deserialize_u32(bytes) {
        Ok(tag) => tag,
        Err(error) => {
            return Err(error_text(&error));
        },
    };
    let body = slice_subrange(bytes, 4, bytes.len());
    assert(body@ =~= bytes@.skip(4));
    if tag == 0 {
        match decode_text(body) {
            Ok(text) => Ok(Value::VString(text)),
            Err(error) => Err(error),
        }
    } else if tag == 1 {
        match deserialize_u32(body) {
            Ok(bits) => Ok(Value::VNumber(bits)),
            Err(error) => Err(error_text(&error)),
        }
    } else if tag == 2 {
        match deserialize_bool(body) {
            Ok(truth) => Ok(Value::VBool(truth)),
            Err(error) => Err(error_text(&error)),
        }
    } else {
        Err("invalid value: the tag names no kind of value".to_owned())
    }
}

} // verus!
