//! Numbers as text, and the order of texts.

use vstd::prelude::*;
use vstd::utf8::encode_utf8;

use crate::encryption::{hex_digit, hex_text};

verus! {

/// A number in decimal, without leading zeros.
pub open spec fn decimal(n: nat) -> Seq<char>
    decreases n,
{
    if n < 10 {
        seq![hex_digit(n as u8)]
    } else {
        decimal(n / 10).push(hex_digit((n % 10) as u8))
    }
}

/// Different numbers look different in decimal.
pub proof fn lemma_decimal_injective(a: nat, b: nat)
    requires
        decimal(a) == decimal(b),
    ensures
        a == b,
    decreases a,
{
    let x = decimal(a);
    let y = decimal(b);
    lemma_decimal_length(a);
    lemma_decimal_length(b);
    assert(x.last() == y.last());
    if a >= 10 {
        lemma_decimal_length(a / 10);
        lemma_decimal_length(b / 10);
        assert(x.drop_last() =~= decimal(a / 10));
        assert(b >= 10);
        assert(y.drop_last() =~= decimal(b / 10));
        lemma_decimal_injective(a / 10, b / 10);
    }
}

proof fn lemma_decimal_length(n: nat)
    ensures
        decimal(n).len() >= 1,
        n >= 10 ==> decimal(n).len() >= 2,
        decimal(n).last() == hex_digit((n % 10) as u8),
        n < 10 ==> decimal(n).len() == 1,
    decreases n,
{
    if n >= 10 {
        lemma_decimal_length(n / 10);
    }
}

/// Writes a number in decimal.
pub fn write_decimal(n: u64) -> (text: String)
    ensures
        text@ == decimal(n as nat),
    decreases n,
{
    if n < 10 {
        return hex_text(n as u8).to_owned();
    }
    let mut text = write_decimal(n / 10);
    let digit: u8 = (n % 10) as u8;
    text.append(hex_text(digit));
    assert(text@ =~= decimal((n / 10) as nat).push(hex_digit(digit)));
    text
}

/// Whether bytes come before others in dictionary order.
pub open spec fn before(a: Seq<u8>, b: Seq<u8>) -> bool
    decreases a.len(),
{
    if b.len() == 0 {
        false
    } else if a.len() == 0 {
        true
    } else if a[0] != b[0] {
        a[0] < b[0]
    } else {
        before(a.skip(1), b.skip(1))
    }
}

/// Whether a text comes before another, by their bytes.
pub open spec fn text_before(a: Seq<char>, b: Seq<char>) -> bool {
    before(encode_utf8(a), encode_utf8(b))
}

/// Whether a text comes before another, by their bytes.
pub fn comes_before(a: &str, b: &str) -> (earlier: bool)
    ensures
        earlier == text_before(a@, b@),
{
    let x = a.as_bytes();
    let y = b.as_bytes();
    let mut i: usize = 0;
    assert(x@.skip(0) =~= x@);
    assert(y@.skip(0) =~= y@);
    while i < x.len() && i < y.len() && x[i] == y[i]
        invariant
            i <= x@.len(),
            i <= y@.len(),
            before(x@, y@) == before(x@.skip(i as int), y@.skip(i as int)),
        decreases x@.len() - i,
    {
        assert(x@.skip(i as int).skip(1) =~= x@.skip(i + 1));
        assert(y@.skip(i as int).skip(1) =~= y@.skip(i + 1));
        i += 1;
    }
    if i == y.len() {
        false
    } else if i == x.len() {
        true
    } else {
        x[i] < y[i]
    }
}

/// No two texts come before each other.
pub proof fn lemma_before_asymmetric(a: Seq<u8>, b: Seq<u8>)
    requires
        before(a, b),
    ensures
        !before(b, a),
    decreases a.len(),
{
    if a.len() > 0 && a[0] == b[0] {
        lemma_before_asymmetric(a.skip(1), b.skip(1));
    }
}

/// What comes before an earlier text comes before a later one.
pub proof fn lemma_before_transitive(a: Seq<u8>, b: Seq<u8>, c: Seq<u8>)
    requires
        before(a, b),
        before(b, c),
    ensures
        before(a, c),
    decreases a.len(),
{
    if a.len() > 0 && a[0] == b[0] && b[0] == c[0] {
        lemma_before_transitive(a.skip(1), b.skip(1), c.skip(1));
    }
}

/// Of two different texts, one comes before the other.
pub proof fn lemma_before_total(a: Seq<u8>, b: Seq<u8>)
    requires
        !before(a, b),
        !before(b, a),
    ensures
        a == b,
    decreases a.len(),
{
    if a.len() > 0 && b.len() > 0 {
        lemma_before_total(a.skip(1), b.skip(1));
        assert(a =~= seq![a[0]] + a.skip(1));
        assert(b =~= seq![b[0]] + b.skip(1));
    } else {
        assert(a =~= b);
    }
}

/// What comes before a text comes before every text that does not come before that one.
pub proof fn lemma_before_negative_transitive(a: Seq<u8>, b: Seq<u8>, c: Seq<u8>)
    requires
        before(a, b),
        !before(c, b),
    ensures
        before(a, c),
{
    if before(b, c) {
        lemma_before_transitive(a, b, c);
    } else {
        lemma_before_total(b, c);
    }
}

/// Two texts that stand together.
pub type TextPair = (Seq<char>, Seq<char>);

/// What pairs of strings say.
pub open spec fn pairs_view(pairs: Seq<(String, String)>) -> Seq<TextPair> {
    pairs.map_values(|pair: (String, String)| (pair.0@, pair.1@))
}

/// Whether a pair comes before another: by its first text, then by its second.
pub open spec fn pair_before(a: TextPair, b: TextPair) -> bool {
    text_before(a.0, b.0) || (!text_before(b.0, a.0) && text_before(a.1, b.1))
}

/// Whether no pair comes before one that stands further left.
pub open spec fn pairs_sorted(pairs: Seq<TextPair>) -> bool {
    forall|i: int, j: int| 0 <= i < j < pairs.len() ==> !pair_before(pairs[j], pairs[i])
}

proof fn lemma_pair_before_asymmetric(a: TextPair, b: TextPair)
    requires
        pair_before(a, b),
    ensures
        !pair_before(b, a),
{
    if text_before(a.0, b.0) {
        lemma_before_asymmetric(encode_utf8(a.0), encode_utf8(b.0));
    } else {
        lemma_before_asymmetric(encode_utf8(a.1), encode_utf8(b.1));
    }
}

proof fn lemma_pair_before_transitive(a: TextPair, b: TextPair, c: TextPair)
    requires
        pair_before(a, b),
        pair_before(b, c),
    ensures
        pair_before(a, c),
{
    let (a0, b0, c0) = (encode_utf8(a.0), encode_utf8(b.0), encode_utf8(c.0));
    if before(a0, b0) && before(b0, c0) {
        lemma_before_transitive(a0, b0, c0);
    } else if before(a0, b0) {
        lemma_before_total(b0, c0);
    } else if before(b0, c0) {
        lemma_before_total(a0, b0);
    } else {
        lemma_before_total(a0, b0);
        lemma_before_total(b0, c0);
        lemma_before_transitive(encode_utf8(a.1), encode_utf8(b.1), encode_utf8(c.1));
    }
}

pub proof fn lemma_insert_multiset<A>(s: Seq<A>, at: int, x: A)
    requires
        0 <= at <= s.len(),
    ensures
        s.insert(at, x).to_multiset() == s.to_multiset().insert(x),
{
    broadcast use vstd::seq_lib::group_to_multiset_ensures;

    let t = s.insert(at, x);
    assert(t.remove(at) =~= s);
    assert(t.contains(t[at]));
    assert(t.to_multiset() =~= s.to_multiset().insert(x));
}

fn pair_comes_before(a: &(String, String), b: &(String, String)) -> (earlier: bool)
    ensures
        earlier == pair_before((a.0@, a.1@), (b.0@, b.1@)),
{
    comes_before(a.0.as_str(), b.0.as_str()) || (!comes_before(b.0.as_str(), a.0.as_str())
        && comes_before(a.1.as_str(), b.1.as_str()))
}

/// Puts pairs in order.
pub fn sort_pairs(pairs: Vec<(String, String)>) -> (sorted: Vec<(String, String)>)
    ensures
        pairs_sorted(pairs_view(sorted@)),
        pairs_view(sorted@).to_multiset() == pairs_view(pairs@).to_multiset(),
{
    let mut rest = pairs;
    let mut sorted: Vec<(String, String)> = Vec::new();
    let ghost all = pairs_view(rest@).to_multiset();
    proof {
        broadcast use vstd::seq_lib::group_to_multiset_ensures;

        assert(pairs_view(sorted@) =~= Seq::<TextPair>::empty());
        assert(pairs_view(sorted@).to_multiset() =~= vstd::multiset::Multiset::empty());
        assert(pairs_view(sorted@).to_multiset().add(pairs_view(rest@).to_multiset()) =~= all);
    }
    while rest.len() > 0
        invariant
            pairs_sorted(pairs_view(sorted@)),
            pairs_view(sorted@).to_multiset().add(pairs_view(rest@).to_multiset()) == all,
        decreases rest@.len(),
    {
        let ghost rest_before = rest@;
        let ghost order = pairs_view(sorted@);
        if let Some(pair) = rest.pop() {
            let ghost key = (pair.0@, pair.1@);
            let mut at: usize = 0;
            while at < sorted.len() && !pair_comes_before(&pair, &sorted[at])
                invariant
                    at <= sorted@.len(),
                    order == pairs_view(sorted@),
                    key == (pair.0@, pair.1@),
                    forall|k: int| 0 <= k < at ==> !pair_before(key, #[trigger] order[k]),
                decreases sorted@.len() - at,
            {
                assert(order[at as int] == (sorted@[at as int].0@, sorted@[at as int].1@));
                at += 1;
            }
            proof {
                if at < order.len() {
                    assert(order[at as int] == (sorted@[at as int].0@, sorted@[at as int].1@));
                    assert(pair_before(key, order[at as int]));
                }
            }
            sorted.insert(at, pair);
            proof {
                let now = pairs_view(sorted@);
                assert(now =~= order.insert(at as int, key));
                assert forall|i: int, j: int| 0 <= i < j < now.len() implies !pair_before(
                    now[j],
                    now[i],
                ) by {
                    if i == at {
                        assert(now[j] == order[j - 1]);
                        lemma_pair_before_asymmetric(key, order[at as int]);
                        if at < j - 1 && pair_before(order[j - 1], key) {
                            lemma_pair_before_transitive(
                                order[j - 1],
                                key,
                                order[at as int],
                            );
                        }
                    } else if j == at {
                        assert(now[i] == order[i]);
                    } else {
                        let x = if i < at {
                            i
                        } else {
                            i - 1
                        };
                        let y = if j < at {
                            j
                        } else {
                            j - 1
                        };
                        assert(now[i] == order[x]);
                        assert(now[j] == order[y]);
                    }
                }
                lemma_insert_multiset(order, at as int, key);
                assert(pairs_view(rest_before) =~= pairs_view(rest@).push(key));
                vstd::seq_lib::to_multiset_build(pairs_view(rest@), key);
                assert(now.to_multiset().add(pairs_view(rest@).to_multiset()) =~= all);
            }
        }
    }
    proof {
        broadcast use vstd::seq_lib::group_to_multiset_ensures;

        assert(pairs_view(rest@) =~= Seq::<TextPair>::empty());
        assert(pairs_view(rest@).to_multiset() =~= vstd::multiset::Multiset::empty());
        assert(pairs_view(sorted@).to_multiset() =~= all);
    }
    sorted
}

/// The number that decimal digits spell.
pub open spec fn decimal_value(digits: Seq<char>) -> nat
    decreases digits.len(),
{
    if digits.len() == 0 {
        0
    } else {
        decimal_value(digits.drop_last()) * 10 + (digits.last() as nat - '0' as nat) as nat
    }
}

/// A number in decimal is made of digits, spells that number, and does not start with a zero
/// unless it is nothing else.
pub proof fn decimals_spell_their_number(n: nat)
    ensures
        decimal_value(decimal(n)) == n,
        decimal(n).len() > 0,
        decimal(n).len() > 1 ==> decimal(n)[0] != '0',
        n > 0 ==> decimal(n)[0] != '0',
        forall|i: int| 0 <= i < decimal(n).len() ==> '0' <= #[trigger] decimal(n)[i] <= '9',
    decreases n,
{
    let text = decimal(n);
    if n < 10 {
        assert(text.drop_last().len() == 0);
        assert(decimal_value(text.drop_last()) == 0);
    } else {
        decimals_spell_their_number(n / 10);
        assert(text.drop_last() =~= decimal(n / 10));
    }
}

/// A text comes before another by the first byte in which they differ, and before every text
/// that only goes on behind it.
pub proof fn the_first_difference_decides(
    common: Seq<u8>,
    smaller: u8,
    larger: u8,
    a: Seq<u8>,
    b: Seq<u8>,
)
    requires
        smaller < larger,
    ensures
        before(common + seq![smaller] + a, common + seq![larger] + b),
        !before(common + seq![larger] + b, common + seq![smaller] + a),
        before(common, common + seq![larger] + b),
        !before(common, common),
    decreases common.len(),
{
    let left = common + seq![smaller] + a;
    let right = common + seq![larger] + b;
    if common.len() > 0 {
        let rest = common.skip(1);
        the_first_difference_decides(rest, smaller, larger, a, b);
        assert(left.skip(1) =~= rest + seq![smaller] + a);
        assert(right.skip(1) =~= rest + seq![larger] + b);
        assert(left[0] == common[0] && right[0] == common[0]);
    } else {
        assert(left[0] == smaller && right[0] == larger);
    }
}

/// Pairs are ordered by their first texts; their second texts decide where the first are the
/// same.
pub proof fn pairs_are_ordered_by_their_first_texts(
    a: TextPair,
    b: TextPair,
)
    ensures
        text_before(a.0, b.0) ==> pair_before(a, b) && !pair_before(b, a),
        a.0 == b.0 ==> (pair_before(a, b) <==> text_before(a.1, b.1)),
{
    if text_before(a.0, b.0) {
        lemma_before_asymmetric(encode_utf8(a.0), encode_utf8(b.0));
    }
    if a.0 == b.0 && text_before(a.0, b.0) {
        lemma_before_asymmetric(encode_utf8(a.0), encode_utf8(b.0));
    }
}

} // verus!
