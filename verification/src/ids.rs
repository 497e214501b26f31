//! Identifiers as text.

use vstd::prelude::*;
use vstd::utf8::{encode_utf8, is_ascii_chars, is_ascii_chars_encode_utf8};

use crate::encryption::hex_digit;
use crate::table::strictly_ascending;
use crate::text::{before, lemma_before_asymmetric, text_before};
use crate::types::DeviceId;

verus! {

/// The hexadecimal digit at `place` of an identifier, counted from the left.
pub open spec fn nibble(value: u128, place: int) -> u8 {
    ((value >> ((124 - 4 * place) as u128)) & 15) as u8
}

/// An identifier as text: 32 digits in groups of 8, 4, 4, 4 and 12.
pub open spec fn uuid_text(value: u128) -> Seq<char> {
    Seq::new(
        36,
        |i: int|
            if i < 8 {
                hex_digit(nibble(value, i))
            } else if i == 8 || i == 13 || i == 18 || i == 23 {
                '-'
            } else if i < 13 {
                hex_digit(nibble(value, i - 1))
            } else if i < 18 {
                hex_digit(nibble(value, i - 2))
            } else if i < 23 {
                hex_digit(nibble(value, i - 3))
            } else {
                hex_digit(nibble(value, i - 4))
            },
    )
}

/// What `uuid::Uuid::parse_str` reads in a text.
pub uninterp spec fn uuid_reading(text: Seq<char>) -> Option<u128>;

/// `uuid::Uuid::hyphenated`, as text. The claim is that the form is the one of `uuid_text`:
/// lower-case digits, the most significant first, in five groups.
#[verifier::external_body]
fn hyphenated(value: u128) -> (text: String)
    ensures
        text@ == uuid_text(value),
{
    uuid::Uuid::from_u128(value).hyphenated().to_string()
}

/// `uuid::Uuid::parse_str`. It reads other forms too; the claim is that it depends on the
/// text alone and gives the identifier back from its hyphenated form.
#[verifier::external_body]
fn parse(text: &str) -> (value: Option<u128>)
    ensures
        value == uuid_reading(text@),
        forall|v: u128| text@ == #[trigger] uuid_text(v) ==> value == Some(v),
{
    uuid::Uuid::parse_str(text).ok().map(|id| id.as_u128())
}

/// A device's identifier as text.
pub fn device_text(id: DeviceId) -> (text: String)
    ensures
        text@ == uuid_text(id.0),
{
    hyphenated(id.0)
}

/// Whether a text is the hyphenated form of some identifier.
pub fn is_canonical_uuid(text: &str) -> (canonical: bool)
    ensures
        canonical == exists|v: u128| text@ == #[trigger] uuid_text(v),
{
    match parse(text) {
        Some(value) => {
            let again = hyphenated(value);
            if text.to_owned() == again {
                assert(text@ == uuid_text(value));
                true
            } else {
                false
            }
        },
        None => false,
    }
}

/// Where the digit at `place` of an identifier stands in its text.
spec fn position(place: int) -> int {
    if place < 8 {
        place
    } else if place < 12 {
        place + 1
    } else if place < 16 {
        place + 2
    } else if place < 20 {
        place + 3
    } else {
        place + 4
    }
}

/// What is left of an identifier down to the digit at `place`.
spec fn upper(value: u128, place: int) -> u128 {
    value >> ((124 - 4 * place) as u128)
}

proof fn lemma_upper(value: u128, place: int)
    requires
        0 <= place < 32,
    ensures
        nibble(value, place) < 16,
        place == 0 ==> upper(value, place) == nibble(value, place),
        place > 0 ==> upper(value, place) == upper(value, place - 1) * 16 + nibble(value, place),
{
    let s = (124 - 4 * place) as u128;
    assert((value >> s) & 15 < 16) by (bit_vector);
    if place == 0 {
        assert((value >> 124) & 15 == value >> 124) by (bit_vector);
    } else {
        let t = (128 - 4 * place) as u128;
        assert(value >> s == (value >> t) * 16 + ((value >> s) & 15)) by (bit_vector)
            requires
                s <= 120,
                t == s + 4,
        ;
    }
}

proof fn lemma_same_upper(a: u128, b: u128, place: int)
    requires
        0 <= place < 32,
        forall|k: int| 0 <= k <= place ==> nibble(a, k) == nibble(b, k),
    ensures
        upper(a, place) == upper(b, place),
    decreases place,
{
    lemma_upper(a, place);
    lemma_upper(b, place);
    if place > 0 {
        lemma_same_upper(a, b, place - 1);
    }
}

/// The first place at or behind `from` where two identifiers have different digits.
proof fn first_difference(a: u128, b: u128, from: int) -> (place: int)
    requires
        a != b,
        0 <= from <= 32,
        forall|k: int| 0 <= k < from ==> nibble(a, k) == nibble(b, k),
    ensures
        from <= place < 32,
        nibble(a, place) != nibble(b, place),
        forall|k: int| 0 <= k < place ==> nibble(a, k) == nibble(b, k),
    decreases 32 - from,
{
    if from == 32 {
        lemma_same_upper(a, b, 31);
        assert(a >> 0 == a) by (bit_vector);
        assert(b >> 0 == b) by (bit_vector);
        from
    } else if nibble(a, from) != nibble(b, from) {
        from
    } else {
        first_difference(a, b, from + 1)
    }
}

proof fn lemma_uuid_bytes(value: u128)
    ensures
        encode_utf8(uuid_text(value)).len() == 36,
        forall|i: int|
            0 <= i < 36 ==> #[trigger] encode_utf8(uuid_text(value))[i] == uuid_text(value)[i] as u8,
{
    let text = uuid_text(value);
    assert forall|i: int| 0 <= i < text.len() implies (#[trigger] text[i] as nat) < 128 by {
        let place = if i < 8 {
            i
        } else if i < 13 {
            i - 1
        } else if i < 18 {
            i - 2
        } else if i < 23 {
            i - 3
        } else {
            i - 4
        };
        lemma_upper(value, place);
    }
    assert(is_ascii_chars(text));
    is_ascii_chars_encode_utf8(text);
}

proof fn lemma_before_at(a: Seq<u8>, b: Seq<u8>, at: int)
    requires
        0 <= at < a.len(),
        at < b.len(),
        forall|k: int| 0 <= k < at ==> a[k] == b[k],
        a[at] < b[at],
    ensures
        before(a, b),
    decreases at,
{
    if at > 0 {
        lemma_before_at(a.skip(1), b.skip(1), at - 1);
    }
}

proof fn lemma_smaller_comes_first(a: u128, b: u128)
    requires
        a < b,
    ensures
        text_before(uuid_text(a), uuid_text(b)),
{
    let place = first_difference(a, b, 0);
    let s = (124 - 4 * place) as u128;
    assert(a >> s <= b >> s) by (bit_vector)
        requires
            a < b,
    ;
    lemma_upper(a, place);
    lemma_upper(b, place);
    if place > 0 {
        lemma_same_upper(a, b, place - 1);
    }
    assert(nibble(a, place) < nibble(b, place));
    let at = position(place);
    let x = encode_utf8(uuid_text(a));
    let y = encode_utf8(uuid_text(b));
    lemma_uuid_bytes(a);
    lemma_uuid_bytes(b);
    assert(uuid_text(a)[at] == hex_digit(nibble(a, place)));
    assert(uuid_text(b)[at] == hex_digit(nibble(b, place)));
    assert(x[at] < y[at]);
    assert forall|k: int| 0 <= k < at implies x[k] == y[k] by {
        assert(uuid_text(a)[k] == uuid_text(b)[k]);
    }
    lemma_before_at(x, y, at);
}

/// Identifiers have the same order as numbers and as text.
pub proof fn identifiers_are_ordered_as_their_texts(a: u128, b: u128)
    ensures
        a < b <==> text_before(uuid_text(a), uuid_text(b)),
{
    let x = encode_utf8(uuid_text(a));
    let y = encode_utf8(uuid_text(b));
    if a < b {
        lemma_smaller_comes_first(a, b);
    } else {
        if b < a {
            lemma_smaller_comes_first(b, a);
        }
        if before(x, y) {
            lemma_before_asymmetric(x, y);
        }
    }
}

/// Whether devices stand in the order of their identifiers' texts, none of them twice.
pub open spec fn ascending_by_text(ids: Seq<DeviceId>) -> bool {
    forall|i: int, j: int|
        0 <= i < j < ids.len() ==> text_before(
            uuid_text((#[trigger] ids[i]).0),
            uuid_text((#[trigger] ids[j]).0),
        )
}

/// Devices in ascending order stand in the order of their identifiers' texts, and the other
/// way round.
pub proof fn devices_are_ordered_as_their_texts(ids: Seq<DeviceId>)
    ensures
        strictly_ascending(ids) <==> ascending_by_text(ids),
{
    assert forall|i: int, j: int| 0 <= i < j < ids.len() implies (ids[i].0 < ids[j].0
        <==> text_before(uuid_text((#[trigger] ids[i]).0), uuid_text((#[trigger] ids[j]).0))) by {
        identifiers_are_ordered_as_their_texts(ids[i].0, ids[j].0);
    }
}

} // verus!
