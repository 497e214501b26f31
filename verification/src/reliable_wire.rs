//! Grammar of the reliable input body: fixed-width big-endian integers, texts as a
//! length and UTF-8 bytes, alternatives as a 32-bit index.

use vstd::prelude::*;
use vstd::slice::slice_subrange;
use vstd::utf8::{decode_utf8, encode_utf8, valid_utf8};

use crate::types::{
    ButtonState, ClockDomainId, GamepadButton, GamepadDeviceInfo, KeyState, MonotonicStamp,
    MouseButton, ReleaseAllReason, ReliableEventView, ReliableFrameView, ReliableInputEvent,
    ReliableInputFrame, SessionEpoch,
};
use crate::wire;
use crate::wire::{be16, be32, be64, be_i32, from_be16, from_be32, from_be64};

verus! {

broadcast use crate::wire::group_be_lengths;

/// `bincode`'s encoding failure.
#[verifier::external_type_specification]
#[verifier::external_body]
pub struct ExEncodeError(bincode::error::EncodeError);

/// `bincode`'s decoding failure.
#[verifier::external_type_specification]
#[verifier::external_body]
pub struct ExDecodeError(bincode::error::DecodeError);

/// One byte, and what follows it.
pub open spec fn take_u8(s: Seq<u8>) -> Option<(u8, Seq<u8>)> {
    if s.len() >= 1 {
        Some((s[0], s.skip(1)))
    } else {
        None
    }
}

/// A 16-bit number, and what follows it.
pub open spec fn take_u16(s: Seq<u8>) -> Option<(u16, Seq<u8>)> {
    if s.len() >= 2 {
        Some((from_be16(s), s.skip(2)))
    } else {
        None
    }
}

/// A 32-bit number, and what follows it.
pub open spec fn take_u32(s: Seq<u8>) -> Option<(u32, Seq<u8>)> {
    if s.len() >= 4 {
        Some((from_be32(s), s.skip(4)))
    } else {
        None
    }
}

/// A 64-bit number, and what follows it.
pub open spec fn take_u64(s: Seq<u8>) -> Option<(u64, Seq<u8>)> {
    if s.len() >= 8 {
        Some((from_be64(s), s.skip(8)))
    } else {
        None
    }
}

/// A text: its length in bytes, then that many bytes of UTF-8.
pub open spec fn take_text(s: Seq<u8>) -> Option<(Seq<char>, Seq<u8>)> {
    match take_u64(s) {
        None => None,
        Some((len, rest)) => if rest.len() >= len && valid_utf8(rest.take(len as int)) {
            Some((decode_utf8(rest.take(len as int)), rest.skip(len as int)))
        } else {
            None
        },
    }
}

/// A text on the wire.
pub open spec fn text_bytes(text: Seq<char>) -> Seq<u8> {
    be64(encode_utf8(text).len() as u64) + encode_utf8(text)
}

/// `bincode::serde::encode_to_vec` of a `u8` with fixed-width big-endian integers:
/// that byte.
#[verifier::external_body]
pub(crate) fn encode_u8(value: u8) -> (bytes: Result<Vec<u8>, bincode::error::EncodeError>)
    ensures
        bytes is Ok,
        bytes->Ok_0@ == seq![value],
{
    let config = bincode::config::standard().with_big_endian().with_fixed_int_encoding();
    bincode::serde::encode_to_vec(value, config)
}

/// `bincode::serde::encode_to_vec` of a `u16` with fixed-width big-endian integers:
/// its two bytes.
#[verifier::external_body]
pub(crate) fn encode_u16(value: u16) -> (bytes: Result<Vec<u8>, bincode::error::EncodeError>)
    ensures
        bytes is Ok,
        bytes->Ok_0@ == be16(value),
{
    let config = bincode::config::standard().with_big_endian().with_fixed_int_encoding();
    bincode::serde::encode_to_vec(value, config)
}

/// `bincode::serde::encode_to_vec` of a `u32` with fixed-width big-endian integers:
/// its four bytes.
#[verifier::external_body]
pub(crate) fn encode_u32(value: u32) -> (bytes: Result<Vec<u8>, bincode::error::EncodeError>)
    ensures
        bytes is Ok,
        bytes->Ok_0@ == be32(value),
{
    let config = bincode::config::standard().with_big_endian().with_fixed_int_encoding();
    bincode::serde::encode_to_vec(value, config)
}

/// `bincode::serde::encode_to_vec` of a `u64` with fixed-width big-endian integers:
/// its eight bytes.
#[verifier::external_body]
pub(crate) fn encode_u64(value: u64) -> (bytes: Result<Vec<u8>, bincode::error::EncodeError>)
    ensures
        bytes is Ok,
        bytes->Ok_0@ == be64(value),
{
    let config = bincode::config::standard().with_big_endian().with_fixed_int_encoding();
    bincode::serde::encode_to_vec(value, config)
}

/// `bincode::serde::encode_to_vec` of a `str` with fixed-width big-endian integers:
/// its length in bytes as a `u64`, then its UTF-8 bytes.
#[verifier::external_body]
pub(crate) fn encode_text(value: &str) -> (bytes: Result<Vec<u8>, bincode::error::EncodeError>)
    ensures
        bytes is Ok,
        bytes->Ok_0@ == text_bytes(value@),
{
    let config = bincode::config::standard().with_big_endian().with_fixed_int_encoding();
    bincode::serde::encode_to_vec(value, config)
}

/// `bincode::serde::decode_from_slice` of a `u8`: the first byte and the count of one,
/// or an error where there is none.
#[verifier::external_body]
pub(crate) fn decode_u8(data: &[u8]) -> (decoded: Result<(u8, usize), bincode::error::DecodeError>)
    ensures
        match decoded {
            Ok((value, used)) => used == 1 && used <= data@.len() && take_u8(data@) == Some(
                (value, data@.skip(used as int)),
            ),
            Err(_) => take_u8(data@) is None,
        },
{
    let config = bincode::config::standard().with_big_endian().with_fixed_int_encoding().with_limit::<4096>();
    bincode::serde::decode_from_slice(data, config)
}

/// `bincode::serde::decode_from_slice` of a `u16` with fixed-width big-endian integers:
/// the number in the first two bytes and the count of two, or an error where there are
/// fewer.
#[verifier::external_body]
pub(crate) fn decode_u16(data: &[u8]) -> (decoded: Result<
    (u16, usize),
    bincode::error::DecodeError,
>)
    ensures
        match decoded {
            Ok((value, used)) => used == 2 && used <= data@.len() && take_u16(data@) == Some(
                (value, data@.skip(used as int)),
            ),
            Err(_) => take_u16(data@) is None,
        },
{
    let config = bincode::config::standard().with_big_endian().with_fixed_int_encoding().with_limit::<4096>();
    bincode::serde::decode_from_slice(data, config)
}

/// `bincode::serde::decode_from_slice` of a `u32` with fixed-width big-endian integers:
/// the number in the first four bytes and the count of four, or an error where there are
/// fewer.
#[verifier::external_body]
pub(crate) fn decode_u32(data: &[u8]) -> (decoded: Result<
    (u32, usize),
    bincode::error::DecodeError,
>)
    ensures
        match decoded {
            Ok((value, used)) => used == 4 && used <= data@.len() && take_u32(data@) == Some(
                (value, data@.skip(used as int)),
            ),
            Err(_) => take_u32(data@) is None,
        },
{
    let config = bincode::config::standard().with_big_endian().with_fixed_int_encoding().with_limit::<4096>();
    bincode::serde::decode_from_slice(data, config)
}

/// `bincode::serde::decode_from_slice` of a `u64` with fixed-width big-endian integers:
/// the number in the first eight bytes and the count of eight, or an error where there
/// are fewer.
#[verifier::external_body]
pub(crate) fn decode_u64(data: &[u8]) -> (decoded: Result<
    (u64, usize),
    bincode::error::DecodeError,
>)
    ensures
        match decoded {
            Ok((value, used)) => used == 8 && used <= data@.len() && take_u64(data@) == Some(
                (value, data@.skip(used as int)),
            ),
            Err(_) => take_u64(data@) is None,
        },
{
    let config = bincode::config::standard().with_big_endian().with_fixed_int_encoding().with_limit::<4096>();
    bincode::serde::decode_from_slice(data, config)
}

/// `bincode::serde::decode_from_slice` of a `String` with fixed-width big-endian
/// integers and a limit of 4096 bytes: the text and the bytes it took, or an error where
/// the length, the bytes or their UTF-8 are missing. Data within the limit never
/// exceeds it.
#[verifier::external_body]
pub(crate) fn decode_text(data: &[u8]) -> (decoded: Result<
    (String, usize),
    bincode::error::DecodeError,
>)
    requires
        data@.len() <= 4096,
    ensures
        match decoded {
            Ok((value, used)) => used <= data@.len() && take_text(data@) == Some(
                (value@, data@.skip(used as int)),
            ),
            Err(_) => take_text(data@) is None,
        },
{
    let config = bincode::config::standard().with_big_endian().with_fixed_int_encoding().with_limit::<4096>();
    bincode::serde::decode_from_slice(data, config)
}

proof fn lemma_u8(v: u8, tail: Seq<u8>)
    ensures
        take_u8(seq![v] + tail) == Some((v, tail)),
{
    assert((seq![v] + tail).skip(1) =~= tail);
}

proof fn lemma_take_u8(s: Seq<u8>)
    ensures
        take_u8(s) matches Some((v, rest)) ==> s == seq![v] + rest && rest.len() < s.len(),
{
    if s.len() >= 1 {
        assert(s =~= seq![s[0]] + s.skip(1));
    }
}

/// Appends a `u8`.
fn push_u8(out: &mut Vec<u8>, v: u8)
    ensures
        final(out)@ == old(out)@ + seq![v],
{
    match encode_u8(v) {
        Ok(mut bytes) => {
            out.append(&mut bytes);
        },
        Err(_) => {},
    }
}

/// Reads a `u8` off the front.
fn next_u8(data: &[u8]) -> (read: Option<(u8, &[u8])>)
    ensures
        match read {
            Some((v, rest)) => take_u8(data@) == Some((v, rest@)) && rest@.len() <= data@.len(),
            None => take_u8(data@) is None,
        },
{
    match decode_u8(data) {
        Ok((v, used)) => {
            let rest = slice_subrange(data, used, data.len());
            assert(rest@ =~= data@.skip(used as int));
            Some((v, rest))
        },
        Err(_) => None,
    }
}

proof fn lemma_u16(v: u16, tail: Seq<u8>)
    ensures
        take_u16(be16(v) + tail) == Some((v, tail)),
{
    wire::lemma_be16(v, tail);
}

proof fn lemma_take_u16(s: Seq<u8>)
    ensures
        take_u16(s) matches Some((v, rest)) ==> s == be16(v) + rest && rest.len() < s.len(),
{
    if s.len() >= 2 {
        wire::lemma_from_be16(s);
    }
}

/// Appends a `u16`.
fn push_u16(out: &mut Vec<u8>, v: u16)
    ensures
        final(out)@ == old(out)@ + be16(v),
{
    match encode_u16(v) {
        Ok(mut bytes) => {
            out.append(&mut bytes);
        },
        Err(_) => {},
    }
}

/// Reads a `u16` off the front.
fn next_u16(data: &[u8]) -> (read: Option<(u16, &[u8])>)
    ensures
        match read {
            Some((v, rest)) => take_u16(data@) == Some((v, rest@)) && rest@.len() <= data@.len(),
            None => take_u16(data@) is None,
        },
{
    match decode_u16(data) {
        Ok((v, used)) => {
            let rest = slice_subrange(data, used, data.len());
            assert(rest@ =~= data@.skip(used as int));
            Some((v, rest))
        },
        Err(_) => None,
    }
}

proof fn lemma_u32(v: u32, tail: Seq<u8>)
    ensures
        take_u32(be32(v) + tail) == Some((v, tail)),
{
    wire::lemma_be32(v, tail);
}

proof fn lemma_take_u32(s: Seq<u8>)
    ensures
        take_u32(s) matches Some((v, rest)) ==> s == be32(v) + rest && rest.len() < s.len(),
{
    if s.len() >= 4 {
        wire::lemma_from_be32(s);
    }
}

/// Appends a `u32`.
fn push_u32(out: &mut Vec<u8>, v: u32)
    ensures
        final(out)@ == old(out)@ + be32(v),
{
    match encode_u32(v) {
        Ok(mut bytes) => {
            out.append(&mut bytes);
        },
        Err(_) => {},
    }
}

/// Reads a `u32` off the front.
fn next_u32(data: &[u8]) -> (read: Option<(u32, &[u8])>)
    ensures
        match read {
            Some((v, rest)) => take_u32(data@) == Some((v, rest@)) && rest@.len() <= data@.len(),
            None => take_u32(data@) is None,
        },
{
    match decode_u32(data) {
        Ok((v, used)) => {
            let rest = slice_subrange(data, used, data.len());
            assert(rest@ =~= data@.skip(used as int));
            Some((v, rest))
        },
        Err(_) => None,
    }
}

proof fn lemma_u64(v: u64, tail: Seq<u8>)
    ensures
        take_u64(be64(v) + tail) == Some((v, tail)),
{
    wire::lemma_be64(v, tail);
}

proof fn lemma_take_u64(s: Seq<u8>)
    ensures
        take_u64(s) matches Some((v, rest)) ==> s == be64(v) + rest && rest.len() < s.len(),
{
    if s.len() >= 8 {
        wire::lemma_from_be64(s);
    }
}

/// Appends a `u64`.
fn push_u64(out: &mut Vec<u8>, v: u64)
    ensures
        final(out)@ == old(out)@ + be64(v),
{
    match encode_u64(v) {
        Ok(mut bytes) => {
            out.append(&mut bytes);
        },
        Err(_) => {},
    }
}

/// Reads a `u64` off the front.
fn next_u64(data: &[u8]) -> (read: Option<(u64, &[u8])>)
    ensures
        match read {
            Some((v, rest)) => take_u64(data@) == Some((v, rest@)) && rest@.len() <= data@.len(),
            None => take_u64(data@) is None,
        },
{
    match decode_u64(data) {
        Ok((v, used)) => {
            let rest = slice_subrange(data, used, data.len());
            assert(rest@ =~= data@.skip(used as int));
            Some((v, rest))
        },
        Err(_) => None,
    }
}

proof fn lemma_text(v: Seq<char>, tail: Seq<u8>)
    requires
        encode_utf8(v).len() <= u64::MAX,
    ensures
        take_text(text_bytes(v) + tail) == Some((v, tail)),
{
    let bytes = encode_utf8(v);
    assert(text_bytes(v) + tail =~= be64(bytes.len() as u64) + (bytes + tail));
    lemma_u64(bytes.len() as u64, bytes + tail);
    assert((bytes + tail).take(bytes.len() as int) =~= bytes);
    assert((bytes + tail).skip(bytes.len() as int) =~= tail);
    vstd::utf8::encode_utf8_valid_utf8(v);
    vstd::utf8::encode_utf8_decode_utf8(v);
}

proof fn lemma_take_text(s: Seq<u8>)
    ensures
        take_text(s) matches Some((v, rest)) ==> s == text_bytes(v) + rest && rest.len() < s.len(),
{
    lemma_take_u64(s);
    if take_text(s) is Some {
        let (len, after) = take_u64(s)->Some_0;
        let bytes = after.take(len as int);
        vstd::utf8::decode_utf8_encode_utf8(bytes);
        assert(s =~= be64(len) + (bytes + after.skip(len as int)));
    }
}

/// Appends a text.
fn push_text(out: &mut Vec<u8>, v: &str)
    ensures
        final(out)@ == old(out)@ + text_bytes(v@),
{
    match encode_text(v) {
        Ok(mut bytes) => {
            out.append(&mut bytes);
        },
        Err(_) => {},
    }
}

/// Reads a text off the front.
fn next_text(data: &[u8]) -> (read: Option<(String, &[u8])>)
    requires
        data@.len() <= 4096,
    ensures
        match read {
            Some((v, rest)) => take_text(data@) == Some((v@, rest@)) && rest@.len() <= data@.len(),
            None => take_text(data@) is None,
        },
{
    match decode_text(data) {
        Ok((v, used)) => {
            let rest = slice_subrange(data, used, data.len());
            assert(rest@ =~= data@.skip(used as int));
            Some((v, rest))
        },
        Err(_) => None,
    }
}

/// A signed number, and what follows it.
pub open spec fn take_i32(s: Seq<u8>) -> Option<(i32, Seq<u8>)> {
    match take_u32(s) {
        None => None,
        Some((v, rest)) => Some((v as i32, rest)),
    }
}

proof fn lemma_i32(v: i32, tail: Seq<u8>)
    ensures
        take_i32(be_i32(v) + tail) == Some((v, tail)),
{
    lemma_u32(v as u32, tail);
    wire::lemma_signed_casts(0, v, 0, 0);
}

proof fn lemma_take_i32(s: Seq<u8>)
    ensures
        take_i32(s) matches Some((v, rest)) ==> s == be_i32(v) + rest && rest.len() < s.len(),
{
    lemma_take_u32(s);
    if let Some((v, _)) = take_u32(s) {
        wire::lemma_signed_casts(0, 0, 0, v);
    }
}

/// Appends an `i32`.
fn push_i32(out: &mut Vec<u8>, v: i32)
    ensures
        final(out)@ == old(out)@ + be_i32(v),
{
    push_u32(out, v as u32);
}

/// Reads an `i32` off the front.
fn next_i32(data: &[u8]) -> (read: Option<(i32, &[u8])>)
    ensures
        match read {
            Some((v, rest)) => take_i32(data@) == Some((v, rest@)) && rest@.len() <= data@.len(),
            None => take_i32(data@) is None,
        },
{
    match next_u32(data) {
        Some((v, rest)) => Some((v as i32, rest)),
        None => None,
    }
}

/// A flag on the wire: one byte, 0 or 1.
pub open spec fn flag_bytes(v: bool) -> Seq<u8> {
    seq![if v { 1u8 } else { 0u8 }]
}

/// A flag, and what follows it.
pub open spec fn take_flag(s: Seq<u8>) -> Option<(bool, Seq<u8>)> {
    match take_u8(s) {
        None => None,
        Some((v, rest)) => if v == 0 {
            Some((false, rest))
        } else if v == 1 {
            Some((true, rest))
        } else {
            None
        },
    }
}

proof fn lemma_flag(v: bool, tail: Seq<u8>)
    ensures
        take_flag(flag_bytes(v) + tail) == Some((v, tail)),
{
    lemma_u8(if v { 1u8 } else { 0u8 }, tail);
}

proof fn lemma_take_flag(s: Seq<u8>)
    ensures
        take_flag(s) matches Some((v, rest)) ==> s == flag_bytes(v) + rest && rest.len() < s.len(),
{
    lemma_take_u8(s);
}

fn push_flag(out: &mut Vec<u8>, v: bool)
    ensures
        final(out)@ == old(out)@ + flag_bytes(v),
{
    push_u8(
        out,
        if v {
            1
        } else {
            0
        },
    );
}

fn next_flag(data: &[u8]) -> (read: Option<(bool, &[u8])>)
    ensures
        match read {
            Some((v, rest)) => take_flag(data@) == Some((v, rest@)) && rest@.len() <= data@.len(),
            None => take_flag(data@) is None,
        },
{
    match next_u8(data) {
        Some((0, rest)) => Some((false, rest)),
        Some((1, rest)) => Some((true, rest)),
        _ => None,
    }
}

/// An optional number on the wire: a flag, then the number where there is one.
pub open spec fn option_u16_bytes(v: Option<u16>) -> Seq<u8> {
    match v {
        None => flag_bytes(false),
        Some(n) => flag_bytes(true) + be16(n),
    }
}

/// An optional number, and what follows it.
pub open spec fn take_option_u16(s: Seq<u8>) -> Option<(Option<u16>, Seq<u8>)> {
    match take_flag(s) {
        None => None,
        Some((false, rest)) => Some((None, rest)),
        Some((true, rest)) => match take_u16(rest) {
            None => None,
            Some((n, rest)) => Some((Some(n), rest)),
        },
    }
}

proof fn lemma_option_u16(v: Option<u16>, tail: Seq<u8>)
    ensures
        take_option_u16(option_u16_bytes(v) + tail) == Some((v, tail)),
{
    match v {
        None => {
            lemma_flag(false, tail);
        },
        Some(n) => {
            assert(option_u16_bytes(v) + tail =~= flag_bytes(true) + (be16(n) + tail));
            lemma_flag(true, be16(n) + tail);
            lemma_u16(n, tail);
        },
    }
}

proof fn lemma_take_option_u16(s: Seq<u8>)
    ensures
        take_option_u16(s) matches Some((v, rest)) ==> s == option_u16_bytes(v) + rest && rest.len()
            < s.len(),
{
    lemma_take_flag(s);
    if let Some((true, rest)) = take_flag(s) {
        lemma_take_u16(rest);
        if let Some((n, after)) = take_u16(rest) {
            assert(s =~= (flag_bytes(true) + be16(n)) + after);
        }
    }
}

fn push_option_u16(out: &mut Vec<u8>, v: Option<u16>)
    ensures
        final(out)@ == old(out)@ + option_u16_bytes(v),
{
    match v {
        None => {
            push_flag(out, false);
        },
        Some(n) => {
            push_flag(out, true);
            push_u16(out, n);
        },
    }
    assert(out@ =~= old(out)@ + option_u16_bytes(v));
}

fn next_option_u16(data: &[u8]) -> (read: Option<(Option<u16>, &[u8])>)
    ensures
        match read {
            Some((v, rest)) => take_option_u16(data@) == Some((v, rest@)) && rest@.len()
                <= data@.len(),
            None => take_option_u16(data@) is None,
        },
{
    match next_flag(data) {
        None => None,
        Some((false, rest)) => Some((None, rest)),
        Some((true, rest)) => match next_u16(rest) {
            None => None,
            Some((n, rest)) => Some((Some(n), rest)),
        },
    }
}

/// The index of a `ReleaseAllReason` on the wire.
pub open spec fn reason_index(v: ReleaseAllReason) -> u32 {
    match v {
        ReleaseAllReason::SessionEnded => 0,
        ReleaseAllReason::OwnershipTransfer => 1,
        ReleaseAllReason::Timeout => 2,
        ReleaseAllReason::BackendFailure => 3,
    }
}

/// A `ReleaseAllReason` on the wire.
pub open spec fn reason_bytes(v: ReleaseAllReason) -> Seq<u8> {
    be32(reason_index(v))
}

/// A `ReleaseAllReason`, and what follows it.
pub open spec fn take_reason(s: Seq<u8>) -> Option<(ReleaseAllReason, Seq<u8>)> {
    match take_u32(s) {
        None => None,
        Some((index, rest)) => if index == 0 {
            Some((ReleaseAllReason::SessionEnded, rest))
        } else if index == 1 {
            Some((ReleaseAllReason::OwnershipTransfer, rest))
        } else if index == 2 {
            Some((ReleaseAllReason::Timeout, rest))
        } else if index == 3 {
            Some((ReleaseAllReason::BackendFailure, rest))
        } else {
            None
        },
    }
}

proof fn lemma_reason(v: ReleaseAllReason, tail: Seq<u8>)
    ensures
        take_reason(reason_bytes(v) + tail) == Some((v, tail)),
{
    lemma_u32(reason_index(v), tail);
}

proof fn lemma_take_reason(s: Seq<u8>)
    ensures
        take_reason(s) matches Some((v, rest)) ==> s == reason_bytes(v) + rest && rest.len() < s.len(),
{
    lemma_take_u32(s);
}

fn push_reason(out: &mut Vec<u8>, v: ReleaseAllReason)
    ensures
        final(out)@ == old(out)@ + reason_bytes(v),
{
    match v {
        ReleaseAllReason::SessionEnded => {
            push_u32(out, 0);
        },
        ReleaseAllReason::OwnershipTransfer => {
            push_u32(out, 1);
        },
        ReleaseAllReason::Timeout => {
            push_u32(out, 2);
        },
        ReleaseAllReason::BackendFailure => {
            push_u32(out, 3);
        },
    }
    assert(out@ =~= old(out)@ + reason_bytes(v));
}

fn next_reason(data: &[u8]) -> (read: Option<(ReleaseAllReason, &[u8])>)
    ensures
        match read {
            Some((v, rest)) => take_reason(data@) == Some((v, rest@)) && rest@.len() <= data@.len(),
            None => take_reason(data@) is None,
        },
{
    match next_u32(data) {
        Some((0, rest)) => Some((ReleaseAllReason::SessionEnded, rest)),
        Some((1, rest)) => Some((ReleaseAllReason::OwnershipTransfer, rest)),
        Some((2, rest)) => Some((ReleaseAllReason::Timeout, rest)),
        Some((3, rest)) => Some((ReleaseAllReason::BackendFailure, rest)),
        _ => None,
    }
}

/// The index of a `KeyState` on the wire.
pub open spec fn key_state_index(v: KeyState) -> u32 {
    match v {
        KeyState::Pressed => 0,
        KeyState::Released => 1,
    }
}

/// A `KeyState` on the wire.
pub open spec fn key_state_bytes(v: KeyState) -> Seq<u8> {
    be32(key_state_index(v))
}

/// A `KeyState`, and what follows it.
pub open spec fn take_key_state(s: Seq<u8>) -> Option<(KeyState, Seq<u8>)> {
    match take_u32(s) {
        None => None,
        Some((index, rest)) => if index == 0 {
            Some((KeyState::Pressed, rest))
        } else if index == 1 {
            Some((KeyState::Released, rest))
        } else {
            None
        },
    }
}

proof fn lemma_key_state(v: KeyState, tail: Seq<u8>)
    ensures
        take_key_state(key_state_bytes(v) + tail) == Some((v, tail)),
{
    lemma_u32(key_state_index(v), tail);
}

proof fn lemma_take_key_state(s: Seq<u8>)
    ensures
        take_key_state(s) matches Some((v, rest)) ==> s == key_state_bytes(v) + rest && rest.len() < s.len(),
{
    lemma_take_u32(s);
}

fn push_key_state(out: &mut Vec<u8>, v: KeyState)
    ensures
        final(out)@ == old(out)@ + key_state_bytes(v),
{
    match v {
        KeyState::Pressed => {
            push_u32(out, 0);
        },
        KeyState::Released => {
            push_u32(out, 1);
        },
    }
    assert(out@ =~= old(out)@ + key_state_bytes(v));
}

fn next_key_state(data: &[u8]) -> (read: Option<(KeyState, &[u8])>)
    ensures
        match read {
            Some((v, rest)) => take_key_state(data@) == Some((v, rest@)) && rest@.len() <= data@.len(),
            None => take_key_state(data@) is None,
        },
{
    match next_u32(data) {
        Some((0, rest)) => Some((KeyState::Pressed, rest)),
        Some((1, rest)) => Some((KeyState::Released, rest)),
        _ => None,
    }
}

/// The index of a `ButtonState` on the wire.
pub open spec fn button_state_index(v: ButtonState) -> u32 {
    match v {
        ButtonState::Pressed => 0,
        ButtonState::Released => 1,
    }
}

/// A `ButtonState` on the wire.
pub open spec fn button_state_bytes(v: ButtonState) -> Seq<u8> {
    be32(button_state_index(v))
}

/// A `ButtonState`, and what follows it.
pub open spec fn take_button_state(s: Seq<u8>) -> Option<(ButtonState, Seq<u8>)> {
    match take_u32(s) {
        None => None,
        Some((index, rest)) => if index == 0 {
            Some((ButtonState::Pressed, rest))
        } else if index == 1 {
            Some((ButtonState::Released, rest))
        } else {
            None
        },
    }
}

proof fn lemma_button_state(v: ButtonState, tail: Seq<u8>)
    ensures
        take_button_state(button_state_bytes(v) + tail) == Some((v, tail)),
{
    lemma_u32(button_state_index(v), tail);
}

proof fn lemma_take_button_state(s: Seq<u8>)
    ensures
        take_button_state(s) matches Some((v, rest)) ==> s == button_state_bytes(v) + rest && rest.len() < s.len(),
{
    lemma_take_u32(s);
}

fn push_button_state(out: &mut Vec<u8>, v: ButtonState)
    ensures
        final(out)@ == old(out)@ + button_state_bytes(v),
{
    match v {
        ButtonState::Pressed => {
            push_u32(out, 0);
        },
        ButtonState::Released => {
            push_u32(out, 1);
        },
    }
    assert(out@ =~= old(out)@ + button_state_bytes(v));
}

fn next_button_state(data: &[u8]) -> (read: Option<(ButtonState, &[u8])>)
    ensures
        match read {
            Some((v, rest)) => take_button_state(data@) == Some((v, rest@)) && rest@.len() <= data@.len(),
            None => take_button_state(data@) is None,
        },
{
    match next_u32(data) {
        Some((0, rest)) => Some((ButtonState::Pressed, rest)),
        Some((1, rest)) => Some((ButtonState::Released, rest)),
        _ => None,
    }
}

/// The index of a `MouseButton` on the wire.
pub open spec fn mouse_button_index(v: MouseButton) -> u32 {
    match v {
        MouseButton::Left => 0,
        MouseButton::Middle => 1,
        MouseButton::Right => 2,
        MouseButton::Back => 3,
        MouseButton::Forward => 4,
        MouseButton::Other(_) => 5,
    }
}

/// A `MouseButton` on the wire.
pub open spec fn mouse_button_bytes(v: MouseButton) -> Seq<u8> {
    match v {
        MouseButton::Other(n) => be32(5) + seq![n],
        _ => be32(mouse_button_index(v)),
    }
}

/// A `MouseButton`, and what follows it.
pub open spec fn take_mouse_button(s: Seq<u8>) -> Option<(MouseButton, Seq<u8>)> {
    match take_u32(s) {
        None => None,
        Some((index, rest)) => if index == 0 {
            Some((MouseButton::Left, rest))
        } else if index == 1 {
            Some((MouseButton::Middle, rest))
        } else if index == 2 {
            Some((MouseButton::Right, rest))
        } else if index == 3 {
            Some((MouseButton::Back, rest))
        } else if index == 4 {
            Some((MouseButton::Forward, rest))
        } else if index == 5 {
            match take_u8(rest) {
                None => None,
                Some((n, rest)) => Some((MouseButton::Other(n), rest)),
            }
        } else {
            None
        },
    }
}

proof fn lemma_mouse_button(v: MouseButton, tail: Seq<u8>)
    ensures
        take_mouse_button(mouse_button_bytes(v) + tail) == Some((v, tail)),
{
    match v {
        MouseButton::Other(n) => {
            assert(mouse_button_bytes(v) + tail =~= be32(5) + (seq![n] + tail));
            lemma_u32(5, seq![n] + tail);
            lemma_u8(n, tail);
        },
        _ => {
            lemma_u32(mouse_button_index(v), tail);
        },
    }
}

proof fn lemma_take_mouse_button(s: Seq<u8>)
    ensures
        take_mouse_button(s) matches Some((v, rest)) ==> s == mouse_button_bytes(v) + rest && rest.len() < s.len(),
{
    lemma_take_u32(s);
    if let Some((index, rest)) = take_u32(s) {
        lemma_take_u8(rest);
        if let Some((n, after)) = take_u8(rest) {
            assert(be32(5) + (seq![n] + after) =~= (be32(5) + seq![n]) + after);
        }
    }
}

fn push_mouse_button(out: &mut Vec<u8>, v: MouseButton)
    ensures
        final(out)@ == old(out)@ + mouse_button_bytes(v),
{
    match v {
        MouseButton::Left => {
            push_u32(out, 0);
        },
        MouseButton::Middle => {
            push_u32(out, 1);
        },
        MouseButton::Right => {
            push_u32(out, 2);
        },
        MouseButton::Back => {
            push_u32(out, 3);
        },
        MouseButton::Forward => {
            push_u32(out, 4);
        },
        MouseButton::Other(n) => {
            push_u32(out, 5);
            push_u8(out, n);
        },
    }
    assert(out@ =~= old(out)@ + mouse_button_bytes(v));
}

fn next_mouse_button(data: &[u8]) -> (read: Option<(MouseButton, &[u8])>)
    ensures
        match read {
            Some((v, rest)) => take_mouse_button(data@) == Some((v, rest@)) && rest@.len() <= data@.len(),
            None => take_mouse_button(data@) is None,
        },
{
    match next_u32(data) {
        Some((0, rest)) => Some((MouseButton::Left, rest)),
        Some((1, rest)) => Some((MouseButton::Middle, rest)),
        Some((2, rest)) => Some((MouseButton::Right, rest)),
        Some((3, rest)) => Some((MouseButton::Back, rest)),
        Some((4, rest)) => Some((MouseButton::Forward, rest)),
        Some((5, rest)) => match next_u8(rest) {
            Some((n, rest)) => Some((MouseButton::Other(n), rest)),
            None => None,
        },
        _ => None,
    }
}

/// The index of a `GamepadButton` on the wire.
pub open spec fn gamepad_button_index(v: GamepadButton) -> u32 {
    match v {
        GamepadButton::South => 0,
        GamepadButton::East => 1,
        GamepadButton::West => 2,
        GamepadButton::North => 3,
        GamepadButton::Select => 4,
        GamepadButton::Start => 5,
        GamepadButton::Other(_) => 6,
    }
}

/// A `GamepadButton` on the wire.
pub open spec fn gamepad_button_bytes(v: GamepadButton) -> Seq<u8> {
    match v {
        GamepadButton::Other(n) => be32(6) + be16(n),
        _ => be32(gamepad_button_index(v)),
    }
}

/// A `GamepadButton`, and what follows it.
pub open spec fn take_gamepad_button(s: Seq<u8>) -> Option<(GamepadButton, Seq<u8>)> {
    match take_u32(s) {
        None => None,
        Some((index, rest)) => if index == 0 {
            Some((GamepadButton::South, rest))
        } else if index == 1 {
            Some((GamepadButton::East, rest))
        } else if index == 2 {
            Some((GamepadButton::West, rest))
        } else if index == 3 {
            Some((GamepadButton::North, rest))
        } else if index == 4 {
            Some((GamepadButton::Select, rest))
        } else if index == 5 {
            Some((GamepadButton::Start, rest))
        } else if index == 6 {
            match take_u16(rest) {
                None => None,
                Some((n, rest)) => Some((GamepadButton::Other(n), rest)),
            }
        } else {
            None
        },
    }
}

proof fn lemma_gamepad_button(v: GamepadButton, tail: Seq<u8>)
    ensures
        take_gamepad_button(gamepad_button_bytes(v) + tail) == Some((v, tail)),
{
    match v {
        GamepadButton::Other(n) => {
            assert(gamepad_button_bytes(v) + tail =~= be32(6) + (be16(n) + tail));
            lemma_u32(6, be16(n) + tail);
            lemma_u16(n, tail);
        },
        _ => {
            lemma_u32(gamepad_button_index(v), tail);
        },
    }
}

proof fn lemma_take_gamepad_button(s: Seq<u8>)
    ensures
        take_gamepad_button(s) matches Some((v, rest)) ==> s == gamepad_button_bytes(v) + rest && rest.len() < s.len(),
{
    lemma_take_u32(s);
    if let Some((index, rest)) = take_u32(s) {
        lemma_take_u16(rest);
        if let Some((n, after)) = take_u16(rest) {
            assert(be32(6) + (be16(n) + after) =~= (be32(6) + be16(n)) + after);
        }
    }
}

fn push_gamepad_button(out: &mut Vec<u8>, v: GamepadButton)
    ensures
        final(out)@ == old(out)@ + gamepad_button_bytes(v),
{
    match v {
        GamepadButton::South => {
            push_u32(out, 0);
        },
        GamepadButton::East => {
            push_u32(out, 1);
        },
        GamepadButton::West => {
            push_u32(out, 2);
        },
        GamepadButton::North => {
            push_u32(out, 3);
        },
        GamepadButton::Select => {
            push_u32(out, 4);
        },
        GamepadButton::Start => {
            push_u32(out, 5);
        },
        GamepadButton::Other(n) => {
            push_u32(out, 6);
            push_u16(out, n);
        },
    }
    assert(out@ =~= old(out)@ + gamepad_button_bytes(v));
}

fn next_gamepad_button(data: &[u8]) -> (read: Option<(GamepadButton, &[u8])>)
    ensures
        match read {
            Some((v, rest)) => take_gamepad_button(data@) == Some((v, rest@)) && rest@.len() <= data@.len(),
            None => take_gamepad_button(data@) is None,
        },
{
    match next_u32(data) {
        Some((0, rest)) => Some((GamepadButton::South, rest)),
        Some((1, rest)) => Some((GamepadButton::East, rest)),
        Some((2, rest)) => Some((GamepadButton::West, rest)),
        Some((3, rest)) => Some((GamepadButton::North, rest)),
        Some((4, rest)) => Some((GamepadButton::Select, rest)),
        Some((5, rest)) => Some((GamepadButton::Start, rest)),
        Some((6, rest)) => match next_u16(rest) {
            Some((n, rest)) => Some((GamepadButton::Other(n), rest)),
            None => None,
        },
        _ => None,
    }
}

/// A reliable event on the wire: its index, then its fields in order.
#[verifier::opaque]
pub open spec fn event_bytes(event: ReliableEventView) -> Seq<u8> {
    match event {
        ReliableEventView::Enter { target_display_id, x, y } => be32(0) + text_bytes(target_display_id) + be_i32(x) + be_i32(y),
        ReliableEventView::Leave => be32(1),
        ReliableEventView::ReleaseAll { reason } => be32(2) + reason_bytes(reason),
        ReliableEventView::Key { keycode, state } => be32(3) + be32(keycode) + key_state_bytes(state),
        ReliableEventView::TextCommit { text } => be32(4) + text_bytes(text),
        ReliableEventView::MouseButton { button, state, x, y, realtime_anchor_sequence } => be32(5) + mouse_button_bytes(button) + button_state_bytes(state) + be_i32(x) + be_i32(y) + be64(realtime_anchor_sequence),
        ReliableEventView::Wheel { delta_x, delta_y } => be32(6) + be_i32(delta_x) + be_i32(delta_y),
        ReliableEventView::GamepadConnected { gamepad_id, name, vendor_id, product_id } => be32(7) + seq![gamepad_id] + text_bytes(name) + option_u16_bytes(vendor_id) + option_u16_bytes(product_id),
        ReliableEventView::GamepadDisconnected { gamepad_id } => be32(8) + seq![gamepad_id],
        ReliableEventView::GamepadButton { gamepad_id, button, pressed } => be32(9) + seq![gamepad_id] + gamepad_button_bytes(button) + flag_bytes(pressed),
    }
}
/// The fields of a `Enter` event, and what follows them.
#[verifier::opaque]
pub open spec fn take_enter(rest: Seq<u8>) -> Option<(ReliableEventView, Seq<u8>)> {
    match take_text(rest) {
        None => None,
        Some((target_display_id, rest)) => match take_i32(rest) {
            None => None,
            Some((x, rest)) => match take_i32(rest) {
                None => None,
                Some((y, rest)) => Some((ReliableEventView::Enter { target_display_id, x, y }, rest)),
            },
        },
    }
}

proof fn lemma_enter(target_display_id: Seq<char>, x: i32, y: i32, tail: Seq<u8>)
    requires
        encode_utf8(target_display_id).len() <= u64::MAX,
    ensures
        take_enter(text_bytes(target_display_id) + be_i32(x) + be_i32(y) + tail) == Some((ReliableEventView::Enter { target_display_id, x, y }, tail)),
{
    reveal(take_enter);
    assert(text_bytes(target_display_id) + be_i32(x) + be_i32(y) + tail =~= (text_bytes(target_display_id) + (be_i32(x) + (be_i32(y) + tail))));
    lemma_text(target_display_id, (be_i32(x) + (be_i32(y) + tail)));
    lemma_i32(x, (be_i32(y) + tail));
    lemma_i32(y, tail);
}

proof fn lemma_take_enter(rest: Seq<u8>)
    ensures
        take_enter(rest) matches Some((event, tail)) ==> (event matches ReliableEventView::Enter { target_display_id, x, y }
            && rest == text_bytes(target_display_id) + be_i32(x) + be_i32(y) + tail),
{
    reveal(take_enter);
    lemma_take_text(rest);
    if let Some((target_display_id, r0)) = take_text(rest) {
        lemma_take_i32(r0);
        if let Some((x, r1)) = take_i32(r0) {
            lemma_take_i32(r1);
            if let Some((y, r2)) = take_i32(r1) {
                assert(rest =~= text_bytes(target_display_id) + be_i32(x) + be_i32(y) + r2);
            }
        }
    }
}

fn next_enter(rest: &[u8]) -> (read: Option<(ReliableInputEvent, &[u8])>)
    requires
        rest@.len() <= 4096,
    ensures
        match read {
            Some((event, tail)) => take_enter(rest@) == Some((event@, tail@)),
            None => take_enter(rest@) is None,
        },
{
    proof {
        reveal(take_enter);
    }
    match next_text(rest) {
        None => None,
        Some((target_display_id, rest)) => match next_i32(rest) {
            None => None,
            Some((x, rest)) => match next_i32(rest) {
                None => None,
                Some((y, rest)) => Some((ReliableInputEvent::Enter { target_display_id, x, y }, rest)),
            },
        },
    }
}
/// The fields of a `ReleaseAll` event, and what follows them.
#[verifier::opaque]
pub open spec fn take_release_all(rest: Seq<u8>) -> Option<(ReliableEventView, Seq<u8>)> {
    match take_reason(rest) {
        None => None,
        Some((reason, rest)) => Some((ReliableEventView::ReleaseAll { reason }, rest)),
    }
}

proof fn lemma_release_all(reason: ReleaseAllReason, tail: Seq<u8>)
    ensures
        take_release_all(reason_bytes(reason) + tail) == Some((ReliableEventView::ReleaseAll { reason }, tail)),
{
    reveal(take_release_all);
    lemma_reason(reason, tail);
}

proof fn lemma_take_release_all(rest: Seq<u8>)
    ensures
        take_release_all(rest) matches Some((event, tail)) ==> (event matches ReliableEventView::ReleaseAll { reason }
            && rest == reason_bytes(reason) + tail),
{
    reveal(take_release_all);
    lemma_take_reason(rest);
    if let Some((reason, r0)) = take_reason(rest) {
        assert(rest =~= reason_bytes(reason) + r0);
    }
}

fn next_release_all(rest: &[u8]) -> (read: Option<(ReliableInputEvent, &[u8])>)
    ensures
        match read {
            Some((event, tail)) => take_release_all(rest@) == Some((event@, tail@)),
            None => take_release_all(rest@) is None,
        },
{
    proof {
        reveal(take_release_all);
    }
    match next_reason(rest) {
        None => None,
        Some((reason, rest)) => Some((ReliableInputEvent::ReleaseAll { reason }, rest)),
    }
}
/// The fields of a `Key` event, and what follows them.
#[verifier::opaque]
pub open spec fn take_key(rest: Seq<u8>) -> Option<(ReliableEventView, Seq<u8>)> {
    match take_u32(rest) {
        None => None,
        Some((keycode, rest)) => match take_key_state(rest) {
            None => None,
            Some((state, rest)) => Some((ReliableEventView::Key { keycode, state }, rest)),
        },
    }
}

proof fn lemma_key(keycode: u32, state: KeyState, tail: Seq<u8>)
    ensures
        take_key(be32(keycode) + key_state_bytes(state) + tail) == Some((ReliableEventView::Key { keycode, state }, tail)),
{
    reveal(take_key);
    assert(be32(keycode) + key_state_bytes(state) + tail =~= (be32(keycode) + (key_state_bytes(state) + tail)));
    lemma_u32(keycode, (key_state_bytes(state) + tail));
    lemma_key_state(state, tail);
}

proof fn lemma_take_key(rest: Seq<u8>)
    ensures
        take_key(rest) matches Some((event, tail)) ==> (event matches ReliableEventView::Key { keycode, state }
            && rest == be32(keycode) + key_state_bytes(state) + tail),
{
    reveal(take_key);
    lemma_take_u32(rest);
    if let Some((keycode, r0)) = take_u32(rest) {
        lemma_take_key_state(r0);
        if let Some((state, r1)) = take_key_state(r0) {
            assert(rest =~= be32(keycode) + key_state_bytes(state) + r1);
        }
    }
}

fn next_key(rest: &[u8]) -> (read: Option<(ReliableInputEvent, &[u8])>)
    ensures
        match read {
            Some((event, tail)) => take_key(rest@) == Some((event@, tail@)),
            None => take_key(rest@) is None,
        },
{
    proof {
        reveal(take_key);
    }
    match next_u32(rest) {
        None => None,
        Some((keycode, rest)) => match next_key_state(rest) {
            None => None,
            Some((state, rest)) => Some((ReliableInputEvent::Key { keycode, state }, rest)),
        },
    }
}
/// The fields of a `TextCommit` event, and what follows them.
#[verifier::opaque]
pub open spec fn take_text_commit(rest: Seq<u8>) -> Option<(ReliableEventView, Seq<u8>)> {
    match take_text(rest) {
        None => None,
        Some((text, rest)) => Some((ReliableEventView::TextCommit { text }, rest)),
    }
}

proof fn lemma_text_commit(text: Seq<char>, tail: Seq<u8>)
    requires
        encode_utf8(text).len() <= u64::MAX,
    ensures
        take_text_commit(text_bytes(text) + tail) == Some((ReliableEventView::TextCommit { text }, tail)),
{
    reveal(take_text_commit);
    lemma_text(text, tail);
}

proof fn lemma_take_text_commit(rest: Seq<u8>)
    ensures
        take_text_commit(rest) matches Some((event, tail)) ==> (event matches ReliableEventView::TextCommit { text }
            && rest == text_bytes(text) + tail),
{
    reveal(take_text_commit);
    lemma_take_text(rest);
    if let Some((text, r0)) = take_text(rest) {
        assert(rest =~= text_bytes(text) + r0);
    }
}

fn next_text_commit(rest: &[u8]) -> (read: Option<(ReliableInputEvent, &[u8])>)
    requires
        rest@.len() <= 4096,
    ensures
        match read {
            Some((event, tail)) => take_text_commit(rest@) == Some((event@, tail@)),
            None => take_text_commit(rest@) is None,
        },
{
    proof {
        reveal(take_text_commit);
    }
    match next_text(rest) {
        None => None,
        Some((text, rest)) => Some((ReliableInputEvent::TextCommit { text }, rest)),
    }
}
/// The fields of a `MouseButton` event, and what follows them.
#[verifier::opaque]
pub open spec fn take_mouse_button_event(rest: Seq<u8>) -> Option<(ReliableEventView, Seq<u8>)> {
    match take_mouse_button(rest) {
        None => None,
        Some((button, rest)) => match take_button_state(rest) {
            None => None,
            Some((state, rest)) => match take_i32(rest) {
                None => None,
                Some((x, rest)) => match take_i32(rest) {
                    None => None,
                    Some((y, rest)) => match take_u64(rest) {
                        None => None,
                        Some((realtime_anchor_sequence, rest)) => Some((ReliableEventView::MouseButton { button, state, x, y, realtime_anchor_sequence }, rest)),
                    },
                },
            },
        },
    }
}

proof fn lemma_mouse_button_event(button: MouseButton, state: ButtonState, x: i32, y: i32, realtime_anchor_sequence: u64, tail: Seq<u8>)
    ensures
        take_mouse_button_event(mouse_button_bytes(button) + button_state_bytes(state) + be_i32(x) + be_i32(y) + be64(realtime_anchor_sequence) + tail) == Some((ReliableEventView::MouseButton { button, state, x, y, realtime_anchor_sequence }, tail)),
{
    reveal(take_mouse_button_event);
    assert(mouse_button_bytes(button) + button_state_bytes(state) + be_i32(x) + be_i32(y) + be64(realtime_anchor_sequence) + tail =~= (mouse_button_bytes(button) + (button_state_bytes(state) + (be_i32(x) + (be_i32(y) + (be64(realtime_anchor_sequence) + tail))))));
    lemma_mouse_button(button, (button_state_bytes(state) + (be_i32(x) + (be_i32(y) + (be64(realtime_anchor_sequence) + tail)))));
    lemma_button_state(state, (be_i32(x) + (be_i32(y) + (be64(realtime_anchor_sequence) + tail))));
    lemma_i32(x, (be_i32(y) + (be64(realtime_anchor_sequence) + tail)));
    lemma_i32(y, (be64(realtime_anchor_sequence) + tail));
    lemma_u64(realtime_anchor_sequence, tail);
}

proof fn lemma_take_mouse_button_event(rest: Seq<u8>)
    ensures
        take_mouse_button_event(rest) matches Some((event, tail)) ==> (event matches ReliableEventView::MouseButton { button, state, x, y, realtime_anchor_sequence }
            && rest == mouse_button_bytes(button) + button_state_bytes(state) + be_i32(x) + be_i32(y) + be64(realtime_anchor_sequence) + tail),
{
    reveal(take_mouse_button_event);
    lemma_take_mouse_button(rest);
    if let Some((button, r0)) = take_mouse_button(rest) {
        lemma_take_button_state(r0);
        if let Some((state, r1)) = take_button_state(r0) {
            lemma_take_i32(r1);
            if let Some((x, r2)) = take_i32(r1) {
                lemma_take_i32(r2);
                if let Some((y, r3)) = take_i32(r2) {
                    lemma_take_u64(r3);
                    if let Some((realtime_anchor_sequence, r4)) = take_u64(r3) {
                        assert(rest =~= mouse_button_bytes(button) + button_state_bytes(state) + be_i32(x) + be_i32(y) + be64(realtime_anchor_sequence) + r4);
                    }
                }
            }
        }
    }
}

fn next_mouse_button_event(rest: &[u8]) -> (read: Option<(ReliableInputEvent, &[u8])>)
    ensures
        match read {
            Some((event, tail)) => take_mouse_button_event(rest@) == Some((event@, tail@)),
            None => take_mouse_button_event(rest@) is None,
        },
{
    proof {
        reveal(take_mouse_button_event);
    }
    match next_mouse_button(rest) {
        None => None,
        Some((button, rest)) => match next_button_state(rest) {
            None => None,
            Some((state, rest)) => match next_i32(rest) {
                None => None,
                Some((x, rest)) => match next_i32(rest) {
                    None => None,
                    Some((y, rest)) => match next_u64(rest) {
                        None => None,
                        Some((realtime_anchor_sequence, rest)) => Some((ReliableInputEvent::MouseButton { button, state, x, y, realtime_anchor_sequence }, rest)),
                    },
                },
            },
        },
    }
}
/// The fields of a `Wheel` event, and what follows them.
#[verifier::opaque]
pub open spec fn take_wheel(rest: Seq<u8>) -> Option<(ReliableEventView, Seq<u8>)> {
    match take_i32(rest) {
        None => None,
        Some((delta_x, rest)) => match take_i32(rest) {
            None => None,
            Some((delta_y, rest)) => Some((ReliableEventView::Wheel { delta_x, delta_y }, rest)),
        },
    }
}

proof fn lemma_wheel(delta_x: i32, delta_y: i32, tail: Seq<u8>)
    ensures
        take_wheel(be_i32(delta_x) + be_i32(delta_y) + tail) == Some((ReliableEventView::Wheel { delta_x, delta_y }, tail)),
{
    reveal(take_wheel);
    assert(be_i32(delta_x) + be_i32(delta_y) + tail =~= (be_i32(delta_x) + (be_i32(delta_y) + tail)));
    lemma_i32(delta_x, (be_i32(delta_y) + tail));
    lemma_i32(delta_y, tail);
}

proof fn lemma_take_wheel(rest: Seq<u8>)
    ensures
        take_wheel(rest) matches Some((event, tail)) ==> (event matches ReliableEventView::Wheel { delta_x, delta_y }
            && rest == be_i32(delta_x) + be_i32(delta_y) + tail),
{
    reveal(take_wheel);
    lemma_take_i32(rest);
    if let Some((delta_x, r0)) = take_i32(rest) {
        lemma_take_i32(r0);
        if let Some((delta_y, r1)) = take_i32(r0) {
            assert(rest =~= be_i32(delta_x) + be_i32(delta_y) + r1);
        }
    }
}

fn next_wheel(rest: &[u8]) -> (read: Option<(ReliableInputEvent, &[u8])>)
    ensures
        match read {
            Some((event, tail)) => take_wheel(rest@) == Some((event@, tail@)),
            None => take_wheel(rest@) is None,
        },
{
    proof {
        reveal(take_wheel);
    }
    match next_i32(rest) {
        None => None,
        Some((delta_x, rest)) => match next_i32(rest) {
            None => None,
            Some((delta_y, rest)) => Some((ReliableInputEvent::Wheel { delta_x, delta_y }, rest)),
        },
    }
}
/// The fields of a `GamepadConnected` event, and what follows them.
#[verifier::opaque]
pub open spec fn take_gamepad_connected(rest: Seq<u8>) -> Option<(ReliableEventView, Seq<u8>)> {
    match take_u8(rest) {
        None => None,
        Some((gamepad_id, rest)) => match take_text(rest) {
            None => None,
            Some((name, rest)) => match take_option_u16(rest) {
                None => None,
                Some((vendor_id, rest)) => match take_option_u16(rest) {
                    None => None,
                    Some((product_id, rest)) => Some((ReliableEventView::GamepadConnected { gamepad_id, name, vendor_id, product_id }, rest)),
                },
            },
        },
    }
}

proof fn lemma_gamepad_connected(gamepad_id: u8, name: Seq<char>, vendor_id: Option<u16>, product_id: Option<u16>, tail: Seq<u8>)
    requires
        encode_utf8(name).len() <= u64::MAX,
    ensures
        take_gamepad_connected(seq![gamepad_id] + text_bytes(name) + option_u16_bytes(vendor_id) + option_u16_bytes(product_id) + tail) == Some((ReliableEventView::GamepadConnected { gamepad_id, name, vendor_id, product_id }, tail)),
{
    reveal(take_gamepad_connected);
    assert(seq![gamepad_id] + text_bytes(name) + option_u16_bytes(vendor_id) + option_u16_bytes(product_id) + tail =~= (seq![gamepad_id] + (text_bytes(name) + (option_u16_bytes(vendor_id) + (option_u16_bytes(product_id) + tail)))));
    lemma_u8(gamepad_id, (text_bytes(name) + (option_u16_bytes(vendor_id) + (option_u16_bytes(product_id) + tail))));
    lemma_text(name, (option_u16_bytes(vendor_id) + (option_u16_bytes(product_id) + tail)));
    lemma_option_u16(vendor_id, (option_u16_bytes(product_id) + tail));
    lemma_option_u16(product_id, tail);
}

proof fn lemma_regroup(a: Seq<u8>, b: Seq<u8>, c: Seq<u8>, d: Seq<u8>, e: Seq<u8>)
    ensures
        a + (b + (c + (d + e))) == a + b + c + d + e,
{
    assert(a + (b + (c + (d + e))) =~= a + b + c + d + e);
}

proof fn lemma_take_gamepad_connected(rest: Seq<u8>)
    ensures
        take_gamepad_connected(rest) matches Some((event, tail)) ==> (event matches ReliableEventView::GamepadConnected { gamepad_id, name, vendor_id, product_id }
            && rest == seq![gamepad_id] + text_bytes(name) + option_u16_bytes(vendor_id) + option_u16_bytes(product_id) + tail),
{
    reveal(take_gamepad_connected);
    lemma_take_u8(rest);
    if let Some((gamepad_id, r0)) = take_u8(rest) {
        lemma_take_text(r0);
        if let Some((name, r1)) = take_text(r0) {
            lemma_take_option_u16(r1);
            if let Some((vendor_id, r2)) = take_option_u16(r1) {
                lemma_take_option_u16(r2);
                if let Some((product_id, r3)) = take_option_u16(r2) {
                    lemma_regroup(seq![gamepad_id], text_bytes(name), option_u16_bytes(vendor_id), option_u16_bytes(product_id), r3);
                }
            }
        }
    }
}

fn next_gamepad_connected(rest: &[u8]) -> (read: Option<(ReliableInputEvent, &[u8])>)
    requires
        rest@.len() <= 4096,
    ensures
        match read {
            Some((event, tail)) => take_gamepad_connected(rest@) == Some((event@, tail@)),
            None => take_gamepad_connected(rest@) is None,
        },
{
    proof {
        reveal(take_gamepad_connected);
    }
    match next_u8(rest) {
        None => None,
        Some((gamepad_id, rest)) => match next_text(rest) {
            None => None,
            Some((name, rest)) => match next_option_u16(rest) {
                None => None,
                Some((vendor_id, rest)) => match next_option_u16(rest) {
                    None => None,
                    Some((product_id, rest)) => Some((ReliableInputEvent::GamepadConnected { info: GamepadDeviceInfo { gamepad_id, name, vendor_id, product_id } }, rest)),
                },
            },
        },
    }
}
/// The fields of a `GamepadDisconnected` event, and what follows them.
#[verifier::opaque]
pub open spec fn take_gamepad_disconnected(rest: Seq<u8>) -> Option<(ReliableEventView, Seq<u8>)> {
    match take_u8(rest) {
        None => None,
        Some((gamepad_id, rest)) => Some((ReliableEventView::GamepadDisconnected { gamepad_id }, rest)),
    }
}

proof fn lemma_gamepad_disconnected(gamepad_id: u8, tail: Seq<u8>)
    ensures
        take_gamepad_disconnected(seq![gamepad_id] + tail) == Some((ReliableEventView::GamepadDisconnected { gamepad_id }, tail)),
{
    reveal(take_gamepad_disconnected);
    lemma_u8(gamepad_id, tail);
}

proof fn lemma_take_gamepad_disconnected(rest: Seq<u8>)
    ensures
        take_gamepad_disconnected(rest) matches Some((event, tail)) ==> (event matches ReliableEventView::GamepadDisconnected { gamepad_id }
            && rest == seq![gamepad_id] + tail),
{
    reveal(take_gamepad_disconnected);
    lemma_take_u8(rest);
    if let Some((gamepad_id, r0)) = take_u8(rest) {
        assert(rest =~= seq![gamepad_id] + r0);
    }
}

fn next_gamepad_disconnected(rest: &[u8]) -> (read: Option<(ReliableInputEvent, &[u8])>)
    ensures
        match read {
            Some((event, tail)) => take_gamepad_disconnected(rest@) == Some((event@, tail@)),
            None => take_gamepad_disconnected(rest@) is None,
        },
{
    proof {
        reveal(take_gamepad_disconnected);
    }
    match next_u8(rest) {
        None => None,
        Some((gamepad_id, rest)) => Some((ReliableInputEvent::GamepadDisconnected { gamepad_id }, rest)),
    }
}
/// The fields of a `GamepadButton` event, and what follows them.
#[verifier::opaque]
pub open spec fn take_gamepad_button_event(rest: Seq<u8>) -> Option<(ReliableEventView, Seq<u8>)> {
    match take_u8(rest) {
        None => None,
        Some((gamepad_id, rest)) => match take_gamepad_button(rest) {
            None => None,
            Some((button, rest)) => match take_flag(rest) {
                None => None,
                Some((pressed, rest)) => Some((ReliableEventView::GamepadButton { gamepad_id, button, pressed }, rest)),
            },
        },
    }
}

proof fn lemma_gamepad_button_event(gamepad_id: u8, button: GamepadButton, pressed: bool, tail: Seq<u8>)
    ensures
        take_gamepad_button_event(seq![gamepad_id] + gamepad_button_bytes(button) + flag_bytes(pressed) + tail) == Some((ReliableEventView::GamepadButton { gamepad_id, button, pressed }, tail)),
{
    reveal(take_gamepad_button_event);
    assert(seq![gamepad_id] + gamepad_button_bytes(button) + flag_bytes(pressed) + tail =~= (seq![gamepad_id] + (gamepad_button_bytes(button) + (flag_bytes(pressed) + tail))));
    lemma_u8(gamepad_id, (gamepad_button_bytes(button) + (flag_bytes(pressed) + tail)));
    lemma_gamepad_button(button, (flag_bytes(pressed) + tail));
    lemma_flag(pressed, tail);
}

proof fn lemma_take_gamepad_button_event(rest: Seq<u8>)
    ensures
        take_gamepad_button_event(rest) matches Some((event, tail)) ==> (event matches ReliableEventView::GamepadButton { gamepad_id, button, pressed }
            && rest == seq![gamepad_id] + gamepad_button_bytes(button) + flag_bytes(pressed) + tail),
{
    reveal(take_gamepad_button_event);
    lemma_take_u8(rest);
    if let Some((gamepad_id, r0)) = take_u8(rest) {
        lemma_take_gamepad_button(r0);
        if let Some((button, r1)) = take_gamepad_button(r0) {
            lemma_take_flag(r1);
            if let Some((pressed, r2)) = take_flag(r1) {
                assert(rest =~= seq![gamepad_id] + gamepad_button_bytes(button) + flag_bytes(pressed) + r2);
            }
        }
    }
}

fn next_gamepad_button_event(rest: &[u8]) -> (read: Option<(ReliableInputEvent, &[u8])>)
    ensures
        match read {
            Some((event, tail)) => take_gamepad_button_event(rest@) == Some((event@, tail@)),
            None => take_gamepad_button_event(rest@) is None,
        },
{
    proof {
        reveal(take_gamepad_button_event);
    }
    match next_u8(rest) {
        None => None,
        Some((gamepad_id, rest)) => match next_gamepad_button(rest) {
            None => None,
            Some((button, rest)) => match next_flag(rest) {
                None => None,
                Some((pressed, rest)) => Some((ReliableInputEvent::GamepadButton { gamepad_id, button, pressed }, rest)),
            },
        },
    }
}
/// A reliable event, and what follows it.
#[verifier::opaque]
pub open spec fn take_event(s: Seq<u8>) -> Option<(ReliableEventView, Seq<u8>)> {
    match take_u32(s) {
        None => None,
        Some((index, rest)) => if index == 0 {
            take_enter(rest)
        } else if index == 1 {
            Some((ReliableEventView::Leave, rest))
        } else if index == 2 {
            take_release_all(rest)
        } else if index == 3 {
            take_key(rest)
        } else if index == 4 {
            take_text_commit(rest)
        } else if index == 5 {
            take_mouse_button_event(rest)
        } else if index == 6 {
            take_wheel(rest)
        } else if index == 7 {
            take_gamepad_connected(rest)
        } else if index == 8 {
            take_gamepad_disconnected(rest)
        } else if index == 9 {
            take_gamepad_button_event(rest)
        } else {
            None
        },
    }
}

proof fn lemma_event(event: ReliableEventView, tail: Seq<u8>)
    requires
        event_bytes(event).len() <= u64::MAX,
    ensures
        take_event(event_bytes(event) + tail) == Some((event, tail)),
{
    reveal(take_event);
    reveal(event_bytes);
    match event {
        ReliableEventView::Enter { target_display_id, x, y } => {
            let fields = text_bytes(target_display_id) + be_i32(x) + be_i32(y);
            assert(event_bytes(event) + tail =~= be32(0) + (fields + tail));
            lemma_u32(0, fields + tail);
            lemma_enter(target_display_id, x, y, tail);
        },
        ReliableEventView::Leave => {
            lemma_u32(1, tail);
        },
        ReliableEventView::ReleaseAll { reason } => {
            let fields = reason_bytes(reason);
            assert(event_bytes(event) + tail =~= be32(2) + (fields + tail));
            lemma_u32(2, fields + tail);
            lemma_release_all(reason, tail);
        },
        ReliableEventView::Key { keycode, state } => {
            let fields = be32(keycode) + key_state_bytes(state);
            assert(event_bytes(event) + tail =~= be32(3) + (fields + tail));
            lemma_u32(3, fields + tail);
            lemma_key(keycode, state, tail);
        },
        ReliableEventView::TextCommit { text } => {
            let fields = text_bytes(text);
            assert(event_bytes(event) + tail =~= be32(4) + (fields + tail));
            lemma_u32(4, fields + tail);
            lemma_text_commit(text, tail);
        },
        ReliableEventView::MouseButton { button, state, x, y, realtime_anchor_sequence } => {
            let fields = mouse_button_bytes(button) + button_state_bytes(state) + be_i32(x) + be_i32(y) + be64(realtime_anchor_sequence);
            assert(event_bytes(event) + tail =~= be32(5) + (fields + tail));
            lemma_u32(5, fields + tail);
            lemma_mouse_button_event(button, state, x, y, realtime_anchor_sequence, tail);
        },
        ReliableEventView::Wheel { delta_x, delta_y } => {
            let fields = be_i32(delta_x) + be_i32(delta_y);
            assert(event_bytes(event) + tail =~= be32(6) + (fields + tail));
            lemma_u32(6, fields + tail);
            lemma_wheel(delta_x, delta_y, tail);
        },
        ReliableEventView::GamepadConnected { gamepad_id, name, vendor_id, product_id } => {
            let fields = seq![gamepad_id] + text_bytes(name) + option_u16_bytes(vendor_id) + option_u16_bytes(product_id);
            assert(event_bytes(event) + tail =~= be32(7) + (fields + tail));
            lemma_u32(7, fields + tail);
            lemma_gamepad_connected(gamepad_id, name, vendor_id, product_id, tail);
        },
        ReliableEventView::GamepadDisconnected { gamepad_id } => {
            let fields = seq![gamepad_id];
            assert(event_bytes(event) + tail =~= be32(8) + (fields + tail));
            lemma_u32(8, fields + tail);
            lemma_gamepad_disconnected(gamepad_id, tail);
        },
        ReliableEventView::GamepadButton { gamepad_id, button, pressed } => {
            let fields = seq![gamepad_id] + gamepad_button_bytes(button) + flag_bytes(pressed);
            assert(event_bytes(event) + tail =~= be32(9) + (fields + tail));
            lemma_u32(9, fields + tail);
            lemma_gamepad_button_event(gamepad_id, button, pressed, tail);
        },
    }
}

proof fn lemma_take_event(s: Seq<u8>)
    ensures
        take_event(s) matches Some((event, tail)) ==> s == event_bytes(event) + tail,
{
    reveal(take_event);
    reveal(event_bytes);
    lemma_take_u32(s);
    if let Some((index, rest)) = take_u32(s) {
        if index == 0 {
            lemma_take_enter(rest);
            if let Some((ReliableEventView::Enter { target_display_id, x, y }, tail)) = take_enter(rest) {
                assert(s =~= be32(0) + text_bytes(target_display_id) + be_i32(x) + be_i32(y) + tail);
            }
        }
        if index == 2 {
            lemma_take_release_all(rest);
            if let Some((ReliableEventView::ReleaseAll { reason }, tail)) = take_release_all(rest) {
                assert(s =~= be32(2) + reason_bytes(reason) + tail);
            }
        }
        if index == 3 {
            lemma_take_key(rest);
            if let Some((ReliableEventView::Key { keycode, state }, tail)) = take_key(rest) {
                assert(s =~= be32(3) + be32(keycode) + key_state_bytes(state) + tail);
            }
        }
        if index == 4 {
            lemma_take_text_commit(rest);
            if let Some((ReliableEventView::TextCommit { text }, tail)) = take_text_commit(rest) {
                assert(s =~= be32(4) + text_bytes(text) + tail);
            }
        }
        if index == 5 {
            lemma_take_mouse_button_event(rest);
            if let Some((ReliableEventView::MouseButton { button, state, x, y, realtime_anchor_sequence }, tail)) = take_mouse_button_event(rest) {
                assert(s =~= be32(5) + mouse_button_bytes(button) + button_state_bytes(state) + be_i32(x) + be_i32(y) + be64(realtime_anchor_sequence) + tail);
            }
        }
        if index == 6 {
            lemma_take_wheel(rest);
            if let Some((ReliableEventView::Wheel { delta_x, delta_y }, tail)) = take_wheel(rest) {
                assert(s =~= be32(6) + be_i32(delta_x) + be_i32(delta_y) + tail);
            }
        }
        if index == 7 {
            lemma_take_gamepad_connected(rest);
            if let Some((ReliableEventView::GamepadConnected { gamepad_id, name, vendor_id, product_id }, tail)) = take_gamepad_connected(rest) {
                assert(s =~= be32(7) + seq![gamepad_id] + text_bytes(name) + option_u16_bytes(vendor_id) + option_u16_bytes(product_id) + tail);
            }
        }
        if index == 8 {
            lemma_take_gamepad_disconnected(rest);
            if let Some((ReliableEventView::GamepadDisconnected { gamepad_id }, tail)) = take_gamepad_disconnected(rest) {
                assert(s =~= be32(8) + seq![gamepad_id] + tail);
            }
        }
        if index == 9 {
            lemma_take_gamepad_button_event(rest);
            if let Some((ReliableEventView::GamepadButton { gamepad_id, button, pressed }, tail)) = take_gamepad_button_event(rest) {
                assert(s =~= be32(9) + seq![gamepad_id] + gamepad_button_bytes(button) + flag_bytes(pressed) + tail);
            }
        }
    }
}

/// Appends a reliable event.
fn push_event(out: &mut Vec<u8>, event: &ReliableInputEvent)
    ensures
        final(out)@ == old(out)@ + event_bytes(event@),
{
    proof {
        reveal(event_bytes);
    }
    match event {
        ReliableInputEvent::Enter { target_display_id, x, y } => {
            push_u32(out, 0);
            push_text(out, target_display_id.as_str());
            push_i32(out, *x);
            push_i32(out, *y);
        },
        ReliableInputEvent::Leave => {
            push_u32(out, 1);
        },
        ReliableInputEvent::ReleaseAll { reason } => {
            push_u32(out, 2);
            push_reason(out, *reason);
        },
        ReliableInputEvent::Key { keycode, state } => {
            push_u32(out, 3);
            push_u32(out, *keycode);
            push_key_state(out, *state);
        },
        ReliableInputEvent::TextCommit { text } => {
            push_u32(out, 4);
            push_text(out, text.as_str());
        },
        ReliableInputEvent::MouseButton { button, state, x, y, realtime_anchor_sequence } => {
            push_u32(out, 5);
            push_mouse_button(out, *button);
            push_button_state(out, *state);
            push_i32(out, *x);
            push_i32(out, *y);
            push_u64(out, *realtime_anchor_sequence);
        },
        ReliableInputEvent::Wheel { delta_x, delta_y } => {
            push_u32(out, 6);
            push_i32(out, *delta_x);
            push_i32(out, *delta_y);
        },
        ReliableInputEvent::GamepadConnected { info } => {
            push_u32(out, 7);
            push_u8(out, info.gamepad_id);
            push_text(out, info.name.as_str());
            push_option_u16(out, info.vendor_id);
            push_option_u16(out, info.product_id);
        },
        ReliableInputEvent::GamepadDisconnected { gamepad_id } => {
            push_u32(out, 8);
            push_u8(out, *gamepad_id);
        },
        ReliableInputEvent::GamepadButton { gamepad_id, button, pressed } => {
            push_u32(out, 9);
            push_u8(out, *gamepad_id);
            push_gamepad_button(out, *button);
            push_flag(out, *pressed);
        },
    }
    assert(out@ =~= old(out)@ + event_bytes(event@));
}

/// Reads a reliable event off the front.
fn next_event(data: &[u8]) -> (read: Option<(ReliableInputEvent, &[u8])>)
    requires
        data@.len() <= 4096,
    ensures
        match read {
            Some((event, tail)) => take_event(data@) == Some((event@, tail@)),
            None => take_event(data@) is None,
        },
{
    proof {
        reveal(take_event);
    }
    match next_u32(data) {
        Some((0, rest)) => next_enter(rest),
        Some((1, rest)) => Some((ReliableInputEvent::Leave, rest)),
        Some((2, rest)) => next_release_all(rest),
        Some((3, rest)) => next_key(rest),
        Some((4, rest)) => next_text_commit(rest),
        Some((5, rest)) => next_mouse_button_event(rest),
        Some((6, rest)) => next_wheel(rest),
        Some((7, rest)) => next_gamepad_connected(rest),
        Some((8, rest)) => next_gamepad_disconnected(rest),
        Some((9, rest)) => next_gamepad_button_event(rest),
        _ => None,
    }
}

/// The body of a reliable frame: version, epoch, sequence and stamp, then the event.
pub open spec fn body_bytes(frame: ReliableFrameView) -> Seq<u8> {
    be16(frame.protocol_version) + be64(frame.session_epoch.0) + be64(frame.sequence) + be64(
        frame.captured_at.domain.0,
    ) + be64(frame.captured_at.value_us) + event_bytes(frame.event)
}

/// A reliable frame, and what follows it.
pub open spec fn take_body(s: Seq<u8>) -> Option<(ReliableFrameView, Seq<u8>)> {
    match take_u16(s) {
        None => None,
        Some((protocol_version, s)) => match take_u64(s) {
            None => None,
            Some((epoch, s)) => match take_u64(s) {
                None => None,
                Some((sequence, s)) => match take_u64(s) {
                    None => None,
                    Some((domain, s)) => match take_u64(s) {
                        None => None,
                        Some((value_us, s)) => match take_event(s) {
                            None => None,
                            Some((event, s)) => Some(
                                (
                                    ReliableFrameView {
                                        protocol_version,
                                        session_epoch: SessionEpoch(epoch),
                                        sequence,
                                        captured_at: MonotonicStamp {
                                            domain: ClockDomainId(domain),
                                            value_us,
                                        },
                                        event,
                                    },
                                    s,
                                ),
                            ),
                        },
                    },
                },
            },
        },
    }
}

/// A frame that was written is read back, whatever follows it.
pub proof fn written_body_is_read_back(frame: ReliableFrameView, tail: Seq<u8>)
    requires
        body_bytes(frame).len() <= u64::MAX,
    ensures
        take_body(body_bytes(frame) + tail) == Some((frame, tail)),
{
    let r5 = event_bytes(frame.event) + tail;
    let r4 = be64(frame.captured_at.value_us) + r5;
    let r3 = be64(frame.captured_at.domain.0) + r4;
    let r2 = be64(frame.sequence) + r3;
    let r1 = be64(frame.session_epoch.0) + r2;
    assert(body_bytes(frame) + tail =~= be16(frame.protocol_version) + r1);
    lemma_u16(frame.protocol_version, r1);
    lemma_u64(frame.session_epoch.0, r2);
    lemma_u64(frame.sequence, r3);
    lemma_u64(frame.captured_at.domain.0, r4);
    lemma_u64(frame.captured_at.value_us, r5);
    lemma_event(frame.event, tail);
}

/// What is read as a frame is what writing that frame produces: no frame has two forms.
pub proof fn read_body_was_written(s: Seq<u8>)
    ensures
        take_body(s) matches Some((frame, tail)) ==> s == body_bytes(frame) + tail,
{
    lemma_take_u16(s);
    if let Some((protocol_version, s1)) = take_u16(s) {
        lemma_take_u64(s1);
        if let Some((epoch, s2)) = take_u64(s1) {
            lemma_take_u64(s2);
            if let Some((sequence, s3)) = take_u64(s2) {
                lemma_take_u64(s3);
                if let Some((domain, s4)) = take_u64(s3) {
                    lemma_take_u64(s4);
                    if let Some((value_us, s5)) = take_u64(s4) {
                        lemma_take_event(s5);
                        if let Some((event, s6)) = take_event(s5) {
                            assert(s =~= be16(protocol_version) + be64(epoch) + be64(sequence)
                                + be64(domain) + be64(value_us) + event_bytes(event) + s6);
                        }
                    }
                }
            }
        }
    }
}

/// Writes the body of a frame.
pub(crate) fn write_body(frame: &ReliableInputFrame) -> (body: Vec<u8>)
    ensures
        body@ == body_bytes(frame@),
{
    let mut body: Vec<u8> = Vec::new();
    push_u16(&mut body, frame.protocol_version);
    push_u64(&mut body, frame.session_epoch.0);
    push_u64(&mut body, frame.sequence);
    push_u64(&mut body, frame.captured_at.domain.0);
    push_u64(&mut body, frame.captured_at.value_us);
    push_event(&mut body, &frame.event);
    assert(body@ =~= body_bytes(frame@));
    body
}

/// Reads the body of a frame off the front.
pub(crate) fn read_body(data: &[u8]) -> (read: Option<(ReliableInputFrame, &[u8])>)
    requires
        data@.len() <= 4096,
    ensures
        match read {
            Some((frame, rest)) => take_body(data@) == Some((frame@, rest@)),
            None => take_body(data@) is None,
        },
{
    let (protocol_version, data) = match next_u16(data) {
        Some(read) => read,
        None => {
            return None;
        },
    };
    let (epoch, data) = match next_u64(data) {
        Some(read) => read,
        None => {
            return None;
        },
    };
    let (sequence, data) = match next_u64(data) {
        Some(read) => read,
        None => {
            return None;
        },
    };
    let (domain, data) = match next_u64(data) {
        Some(read) => read,
        None => {
            return None;
        },
    };
    let (value_us, data) = match next_u64(data) {
        Some(read) => read,
        None => {
            return None;
        },
    };
    match next_event(data) {
        Some((event, rest)) => Some(
            (
                ReliableInputFrame {
                    protocol_version,
                    session_epoch: SessionEpoch(epoch),
                    sequence,
                    captured_at: MonotonicStamp::new(ClockDomainId(domain), value_us),
                    event,
                },
                rest,
            ),
        ),
        None => None,
    }
}

/// Where the fields of a reliable frame stand in its body: the version in two bytes, then the
/// epoch, the sequence number, the clock and the time in eight bytes each, then the event.
pub proof fn reliable_bodies_have_a_fixed_layout(frame: ReliableFrameView)
    ensures
        ({
            let body = body_bytes(frame);
            &&& body.len() == 34 + event_bytes(frame.event).len()
            &&& wire::number(body.subrange(0, 2)) == frame.protocol_version
            &&& wire::number(body.subrange(2, 10)) == frame.session_epoch.0
            &&& wire::number(body.subrange(10, 18)) == frame.sequence
            &&& wire::number(body.subrange(18, 26)) == frame.captured_at.domain.0
            &&& wire::number(body.subrange(26, 34)) == frame.captured_at.value_us
            &&& body.skip(34) == event_bytes(frame.event)
        }),
{
    let body = body_bytes(frame);
    assert(body.subrange(0, 2) =~= be16(frame.protocol_version));
    assert(body.subrange(2, 10) =~= be64(frame.session_epoch.0));
    assert(body.subrange(10, 18) =~= be64(frame.sequence));
    assert(body.subrange(18, 26) =~= be64(frame.captured_at.domain.0));
    assert(body.subrange(26, 34) =~= be64(frame.captured_at.value_us));
    assert(body.skip(34) =~= event_bytes(frame.event));
    wire::numbers_are_spelled_by_their_bytes(frame.protocol_version, 0, frame.session_epoch.0);
    wire::numbers_are_spelled_by_their_bytes(0, 0, frame.sequence);
    wire::numbers_are_spelled_by_their_bytes(0, 0, frame.captured_at.domain.0);
    wire::numbers_are_spelled_by_their_bytes(0, 0, frame.captured_at.value_us);
}

/// Every event starts with the number of its kind, in four bytes.
pub proof fn events_start_with_their_kind(event: ReliableEventView)
    ensures
        event_bytes(event).len() >= 4,
        wire::number(event_bytes(event).take(4)) == match event {
            ReliableEventView::Enter { .. } => 0nat,
            ReliableEventView::Leave => 1,
            ReliableEventView::ReleaseAll { .. } => 2,
            ReliableEventView::Key { .. } => 3,
            ReliableEventView::TextCommit { .. } => 4,
            ReliableEventView::MouseButton { .. } => 5,
            ReliableEventView::Wheel { .. } => 6,
            ReliableEventView::GamepadConnected { .. } => 7,
            ReliableEventView::GamepadDisconnected { .. } => 8,
            ReliableEventView::GamepadButton { .. } => 9,
        },
{
    reveal(event_bytes);
    let kind: u32 = match event {
        ReliableEventView::Enter { .. } => 0,
        ReliableEventView::Leave => 1,
        ReliableEventView::ReleaseAll { .. } => 2,
        ReliableEventView::Key { .. } => 3,
        ReliableEventView::TextCommit { .. } => 4,
        ReliableEventView::MouseButton { .. } => 5,
        ReliableEventView::Wheel { .. } => 6,
        ReliableEventView::GamepadConnected { .. } => 7,
        ReliableEventView::GamepadDisconnected { .. } => 8,
        ReliableEventView::GamepadButton { .. } => 9,
    };
    assert(event_bytes(event).take(4) =~= be32(kind));
    wire::numbers_are_spelled_by_their_bytes(0, kind, 0);
}

/// What stands behind the kind of an event: its fields in order, numbers spelled by their bytes,
/// a text with the number of its bytes in front.
pub proof fn events_carry_their_fields_in_order(event: ReliableEventView)
    ensures
        ({
            let fields = event_bytes(event).skip(4);
            match event {
                ReliableEventView::Enter { target_display_id, x, y } => encode_utf8(
                    target_display_id,
                ).len() <= u64::MAX ==> {
                    let text = encode_utf8(target_display_id);
                    let n = text.len() as int;
                    &&& fields.len() == 16 + n
                    &&& wire::number(fields.take(8)) == n
                    &&& fields.subrange(8, 8 + n) == text
                    &&& wire::number(fields.subrange(8 + n, 12 + n)) == x as u32
                    &&& wire::number(fields.subrange(12 + n, 16 + n)) == y as u32
                },
                ReliableEventView::Leave => fields.len() == 0,
                ReliableEventView::ReleaseAll { reason } => fields.len() == 4 && wire::number(
                    fields,
                ) == match reason {
                    ReleaseAllReason::SessionEnded => 0nat,
                    ReleaseAllReason::OwnershipTransfer => 1,
                    ReleaseAllReason::Timeout => 2,
                    ReleaseAllReason::BackendFailure => 3,
                },
                ReliableEventView::Key { keycode, state } => {
                    &&& fields.len() == 8
                    &&& wire::number(fields.take(4)) == keycode
                    &&& wire::number(fields.skip(4)) == if state == KeyState::Pressed {
                        0nat
                    } else {
                        1
                    }
                },
                ReliableEventView::TextCommit { text } => encode_utf8(text).len() <= u64::MAX
                    ==> wire::number(fields.take(8)) == encode_utf8(text).len() && fields.skip(8)
                    == encode_utf8(text),
                ReliableEventView::Wheel { delta_x, delta_y } => {
                    &&& fields.len() == 8
                    &&& wire::number(fields.take(4)) == delta_x as u32
                    &&& wire::number(fields.skip(4)) == delta_y as u32
                },
                ReliableEventView::GamepadDisconnected { gamepad_id } => fields == seq![gamepad_id],
                ReliableEventView::GamepadButton { gamepad_id, pressed, .. } => fields[0]
                    == gamepad_id && fields.last() == (if pressed {
                    1u8
                } else {
                    0u8
                }),
                ReliableEventView::GamepadConnected { gamepad_id, .. } => fields[0] == gamepad_id,
                ReliableEventView::MouseButton { x, y, realtime_anchor_sequence, .. } => {
                    let n = fields.len() as int;
                    &&& n >= 24
                    &&& wire::number(fields.subrange(n - 16, n - 12)) == x as u32
                    &&& wire::number(fields.subrange(n - 12, n - 8)) == y as u32
                    &&& wire::number(fields.skip(n - 8)) == realtime_anchor_sequence
                },
            }
        }),
{
    reveal(event_bytes);
    let fields = event_bytes(event).skip(4);
    match event {
        ReliableEventView::Enter { target_display_id, x, y } => {
            let text = encode_utf8(target_display_id);
            let n = text.len() as int;
            assert(fields.take(8) =~= be64(text.len() as u64));
            assert(fields.subrange(8, 8 + n) =~= text);
            assert(fields.subrange(8 + n, 12 + n) =~= be_i32(x));
            assert(fields.subrange(12 + n, 16 + n) =~= be_i32(y));
            wire::numbers_are_spelled_by_their_bytes(0, x as u32, text.len() as u64);
            wire::numbers_are_spelled_by_their_bytes(0, y as u32, 0);
        },
        ReliableEventView::Leave => {},
        ReliableEventView::ReleaseAll { reason } => {
            assert(fields =~= be32(reason_index(reason)));
            wire::numbers_are_spelled_by_their_bytes(0, reason_index(reason), 0);
        },
        ReliableEventView::Key { keycode, state } => {
            assert(fields.take(4) =~= be32(keycode));
            assert(fields.skip(4) =~= be32(key_state_index(state)));
            wire::numbers_are_spelled_by_their_bytes(0, keycode, 0);
            wire::numbers_are_spelled_by_their_bytes(0, key_state_index(state), 0);
        },
        ReliableEventView::TextCommit { text } => {
            assert(fields.take(8) =~= be64(encode_utf8(text).len() as u64));
            assert(fields.skip(8) =~= encode_utf8(text));
            wire::numbers_are_spelled_by_their_bytes(0, 0, encode_utf8(text).len() as u64);
        },
        ReliableEventView::Wheel { delta_x, delta_y } => {
            assert(fields.take(4) =~= be_i32(delta_x));
            assert(fields.skip(4) =~= be_i32(delta_y));
            wire::numbers_are_spelled_by_their_bytes(0, delta_x as u32, 0);
            wire::numbers_are_spelled_by_their_bytes(0, delta_y as u32, 0);
        },
        ReliableEventView::GamepadDisconnected { gamepad_id } => {
            assert(fields =~= seq![gamepad_id]);
        },
        ReliableEventView::GamepadButton { .. } => {},
        ReliableEventView::GamepadConnected { .. } => {},
        ReliableEventView::MouseButton { x, y, realtime_anchor_sequence, .. } => {
            let n = fields.len() as int;
            assert(fields.subrange(n - 16, n - 12) =~= be_i32(x));
            assert(fields.subrange(n - 12, n - 8) =~= be_i32(y));
            assert(fields.skip(n - 8) =~= be64(realtime_anchor_sequence));
            wire::numbers_are_spelled_by_their_bytes(0, x as u32, realtime_anchor_sequence);
            wire::numbers_are_spelled_by_their_bytes(0, y as u32, 0);
        },
    }
}

/// A button is named by its number, in four bytes; one without a number of its own carries the
/// one that its device gives it behind that.
pub proof fn buttons_are_named_by_their_number(
    mouse: MouseButton,
    gamepad: GamepadButton,
    state: ButtonState,
)
    ensures
        wire::number(mouse_button_bytes(mouse).take(4)) == match mouse {
            MouseButton::Left => 0nat,
            MouseButton::Middle => 1,
            MouseButton::Right => 2,
            MouseButton::Back => 3,
            MouseButton::Forward => 4,
            MouseButton::Other(_) => 5,
        },
        match mouse {
            MouseButton::Other(n) => mouse_button_bytes(mouse).skip(4) == seq![n],
            _ => mouse_button_bytes(mouse).len() == 4,
        },
        wire::number(gamepad_button_bytes(gamepad).take(4)) == match gamepad {
            GamepadButton::South => 0nat,
            GamepadButton::East => 1,
            GamepadButton::West => 2,
            GamepadButton::North => 3,
            GamepadButton::Select => 4,
            GamepadButton::Start => 5,
            GamepadButton::Other(_) => 6,
        },
        match gamepad {
            GamepadButton::Other(n) => gamepad_button_bytes(gamepad).len() == 6 && wire::number(
                gamepad_button_bytes(gamepad).skip(4),
            ) == n,
            _ => gamepad_button_bytes(gamepad).len() == 4,
        },
        wire::number(button_state_bytes(state)) == if state == ButtonState::Pressed {
            0nat
        } else {
            1
        },
{
    assert(mouse_button_bytes(mouse).take(4) =~= be32(mouse_button_index(mouse)));
    assert(gamepad_button_bytes(gamepad).take(4) =~= be32(gamepad_button_index(gamepad)));
    wire::numbers_are_spelled_by_their_bytes(0, mouse_button_index(mouse), 0);
    wire::numbers_are_spelled_by_their_bytes(0, gamepad_button_index(gamepad), 0);
    wire::numbers_are_spelled_by_their_bytes(0, button_state_index(state), 0);
    if let MouseButton::Other(n) = mouse {
        assert(mouse_button_bytes(mouse).skip(4) =~= seq![n]);
    }
    if let GamepadButton::Other(n) = gamepad {
        assert(gamepad_button_bytes(gamepad).skip(4) =~= be16(n));
        wire::numbers_are_spelled_by_their_bytes(n, 0, 0);
    }
}

} // verus!
