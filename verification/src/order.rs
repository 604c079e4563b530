//! The order of texts: lexicographic, character by character, by code
//! point. Strings are compared byte by byte; that this gives the same
//! order is shown here, from the way UTF-8 encodes a character.

use crate::text::{lemma_utf8_concat, lemma_utf8_injective, lemma_utf8_single, utf8};
use vstd::prelude::*;
use vstd::utf8::{
    encode_scalar, has_width_1_encoding, has_width_2_encoding, has_width_3_encoding,
    has_width_4_encoding, last_continuation_byte, leading_byte_width_1, leading_byte_width_2,
    leading_byte_width_3, leading_byte_width_4, second_last_continuation_byte,
    third_last_continuation_byte,
};

verus! {

/// `a` and `b` agree on their first `k` members, and there `a` ends while
/// `b` goes on, or `a` has the smaller member.
pub open spec fn parts_before(a: Seq<int>, b: Seq<int>, k: int) -> bool {
    &&& 0 <= k <= a.len()
    &&& k < b.len()
    &&& forall|i: int| 0 <= i < k ==> a[i] == b[i]
    &&& (k == a.len() || a[k] < b[k])
}

/// `a` comes strictly before `b` in the lexicographic order.
#[verifier::opaque]
pub open spec fn lex_before(a: Seq<int>, b: Seq<int>) -> bool {
    exists|k: int| parts_before(a, b, k)
}

/// The code points of a text.
pub open spec fn code_points(s: Seq<char>) -> Seq<int> {
    Seq::new(s.len(), |i: int| (s[i] as u32) as int)
}

/// The values of a byte string.
pub open spec fn byte_values(s: Seq<u8>) -> Seq<int> {
    Seq::new(s.len(), |i: int| s[i] as int)
}

/// The text `a` comes strictly before the text `b`: at the first place
/// where they differ, `a` ends or has the character with the smaller code
/// point.
pub open spec fn text_before(a: Seq<char>, b: Seq<char>) -> bool {
    lex_before(code_points(a), code_points(b))
}

/// The byte string `a` comes strictly before the byte string `b`.
pub open spec fn bytes_before(a: Seq<u8>, b: Seq<u8>) -> bool {
    lex_before(byte_values(a), byte_values(b))
}

/// Sequences that part at `k` as [`parts_before`] says are in order.
pub proof fn lemma_parts_before(a: Seq<int>, b: Seq<int>, k: int)
    requires
        parts_before(a, b, k),
    ensures
        lex_before(a, b),
{
    reveal(lex_before);
}

/// Nothing comes before itself.
pub proof fn lemma_lex_irreflexive(a: Seq<int>)
    ensures
        !lex_before(a, a),
{
    reveal(lex_before);
}

/// The lexicographic order is transitive.
pub proof fn lemma_lex_transitive(a: Seq<int>, b: Seq<int>, c: Seq<int>)
    requires
        lex_before(a, b),
        lex_before(b, c),
    ensures
        lex_before(a, c),
{
    reveal(lex_before);
    let k1 = choose|k: int| parts_before(a, b, k);
    let k2 = choose|k: int| parts_before(b, c, k);
    let k = if k1 <= k2 {
        k1
    } else {
        k2
    };
    assert(parts_before(a, c, k));
}

/// Of two sequences at most one comes before the other.
pub proof fn lemma_lex_asymmetric(a: Seq<int>, b: Seq<int>)
    requires
        lex_before(a, b),
    ensures
        !lex_before(b, a),
        a != b,
{
    if lex_before(b, a) {
        lemma_lex_transitive(a, b, a);
    }
    lemma_lex_irreflexive(a);
}

/// The first place from `from` on at which two different sequences, equal
/// before `from`, part.
proof fn lemma_first_difference(x: Seq<int>, y: Seq<int>, from: int) -> (k: int)
    requires
        x != y,
        0 <= from <= x.len(),
        from <= y.len(),
        forall|i: int| 0 <= i < from ==> x[i] == y[i],
    ensures
        from <= k <= x.len(),
        k <= y.len(),
        forall|i: int| 0 <= i < k ==> x[i] == y[i],
        k < x.len() || k < y.len(),
        k < x.len() && k < y.len() ==> x[k] != y[k],
    decreases x.len() - from,
{
    if from == x.len() || from == y.len() {
        if from == x.len() && from == y.len() {
            assert(x =~= y);
        }
        from
    } else if x[from] != y[from] {
        from
    } else {
        lemma_first_difference(x, y, from + 1)
    }
}

/// Of two different sequences one comes before the other.
pub proof fn lemma_lex_total(a: Seq<int>, b: Seq<int>)
    requires
        a != b,
    ensures
        lex_before(a, b) || lex_before(b, a),
{
    let k = lemma_first_difference(a, b, 0);
    if k == a.len() {
        lemma_parts_before(a, b, k);
    } else if k == b.len() {
        lemma_parts_before(b, a, k);
    } else if a[k] < b[k] {
        lemma_parts_before(a, b, k);
    } else {
        lemma_parts_before(b, a, k);
    }
}

/// What stands before both of two sequences does not change their order.
proof fn lemma_lex_common_start(p: Seq<int>, x: Seq<int>, y: Seq<int>)
    requires
        lex_before(x, y),
    ensures
        lex_before(p + x, p + y),
{
    reveal(lex_before);
    let k = choose|k: int| parts_before(x, y, k);
    assert forall|i: int| 0 <= i < p.len() + k implies (p + x)[i] == (p + y)[i] by {
        if i >= p.len() {
            assert((p + x)[i] == x[i - p.len()]);
            assert((p + y)[i] == y[i - p.len()]);
        }
    }
    if k < x.len() {
        assert((p + x)[p.len() + k] == x[k]);
    }
    assert((p + y)[p.len() + k] == y[k]);
    assert(parts_before(p + x, p + y, p.len() + k));
}

/// Sequences whose beginnings differ at `m`, the first with the smaller
/// member, are in order, whatever follows the beginnings.
proof fn lemma_lex_differing_starts(
    x: Seq<int>,
    y: Seq<int>,
    after_x: Seq<int>,
    after_y: Seq<int>,
    m: int,
)
    requires
        0 <= m < x.len(),
        m < y.len(),
        forall|i: int| 0 <= i < m ==> x[i] == y[i],
        x[m] < y[m],
    ensures
        lex_before(x + after_x, y + after_y),
{
    reveal(lex_before);
    assert forall|i: int| 0 <= i < m implies (x + after_x)[i] == (y + after_y)[i] by {
        assert((x + after_x)[i] == x[i]);
        assert((y + after_y)[i] == y[i]);
    }
    assert((x + after_x)[m] == x[m]);
    assert((y + after_y)[m] == y[m]);
    assert(parts_before(x + after_x, y + after_y, m));
}

/// Texts with the same code points are the same text.
pub proof fn lemma_code_points_injective(a: Seq<char>, b: Seq<char>)
    requires
        code_points(a) == code_points(b),
    ensures
        a == b,
{
    assert(a.len() == code_points(a).len());
    assert(b.len() == code_points(b).len());
    assert forall|i: int| 0 <= i < a.len() implies a[i] == b[i] by {
        assert(code_points(a)[i] == (a[i] as u32) as int);
        assert(code_points(b)[i] == (b[i] as u32) as int);
        let u = a[i] as u32;
        vstd::utf8::char_u32_cast(a[i], u);
        vstd::utf8::char_u32_cast(b[i], u);
    }
    assert(a =~= b);
}

/// No text comes before itself.
pub proof fn lemma_text_before_irreflexive(a: Seq<char>)
    ensures
        !text_before(a, a),
{
    lemma_lex_irreflexive(code_points(a));
}

/// The order of texts is transitive.
pub proof fn lemma_text_before_transitive(a: Seq<char>, b: Seq<char>, c: Seq<char>)
    requires
        text_before(a, b),
        text_before(b, c),
    ensures
        text_before(a, c),
{
    lemma_lex_transitive(code_points(a), code_points(b), code_points(c));
}

/// Of two texts at most one comes before the other.
pub proof fn lemma_text_before_asymmetric(a: Seq<char>, b: Seq<char>)
    requires
        text_before(a, b),
    ensures
        !text_before(b, a),
        a != b,
{
    lemma_lex_asymmetric(code_points(a), code_points(b));
}

/// Of two different texts one comes before the other.
pub proof fn lemma_text_before_total(a: Seq<char>, b: Seq<char>)
    requires
        a != b,
    ensures
        text_before(a, b) || text_before(b, a),
{
    if code_points(a) == code_points(b) {
        lemma_code_points_injective(a, b);
    }
    lemma_lex_total(code_points(a), code_points(b));
}

/// The first byte of an encoding tells its width: the more bytes, the
/// greater the first.
proof fn lemma_leading_bytes(c: u32)
    by (bit_vector)
    ensures
        has_width_1_encoding(c) ==> leading_byte_width_1(c) <= 0x7F,
        has_width_2_encoding(c) ==> 0xC0 <= leading_byte_width_2(c) <= 0xDF,
        has_width_3_encoding(c) ==> 0xE0 <= leading_byte_width_3(c) <= 0xEF,
        has_width_4_encoding(c) ==> 0xF0 <= leading_byte_width_4(c) <= 0xF7,
{
}

/// Of two scalars of one byte the smaller has the smaller byte.
proof fn lemma_order_width_1(c: u32, d: u32)
    by (bit_vector)
    requires
        has_width_1_encoding(c),
        has_width_1_encoding(d),
        c < d,
    ensures
        leading_byte_width_1(c) < leading_byte_width_1(d),
{
}

/// Of two scalars of two bytes the smaller has the smaller first byte, or
/// the same and the smaller second.
proof fn lemma_order_width_2(c: u32, d: u32)
    by (bit_vector)
    requires
        has_width_2_encoding(c),
        has_width_2_encoding(d),
        c < d,
    ensures
        leading_byte_width_2(c) < leading_byte_width_2(d) || (leading_byte_width_2(c)
            == leading_byte_width_2(d) && last_continuation_byte(c) < last_continuation_byte(d)),
{
}

/// Of two scalars of three bytes the smaller has the smaller byte where
/// the two encodings first differ.
proof fn lemma_order_width_3(c: u32, d: u32)
    by (bit_vector)
    requires
        has_width_3_encoding(c),
        has_width_3_encoding(d),
        c < d,
    ensures
        leading_byte_width_3(c) < leading_byte_width_3(d) || (leading_byte_width_3(c)
            == leading_byte_width_3(d) && (second_last_continuation_byte(c)
            < second_last_continuation_byte(d) || (second_last_continuation_byte(c)
            == second_last_continuation_byte(d) && last_continuation_byte(c)
            < last_continuation_byte(d)))),
{
}

/// Of two scalars of four bytes the smaller has the smaller byte where the
/// two encodings first differ.
proof fn lemma_order_width_4(c: u32, d: u32)
    by (bit_vector)
    requires
        has_width_4_encoding(c),
        has_width_4_encoding(d),
        c < d,
    ensures
        leading_byte_width_4(c) < leading_byte_width_4(d) || (leading_byte_width_4(c)
            == leading_byte_width_4(d) && (third_last_continuation_byte(c)
            < third_last_continuation_byte(d) || (third_last_continuation_byte(c)
            == third_last_continuation_byte(d) && (second_last_continuation_byte(c)
            < second_last_continuation_byte(d) || (second_last_continuation_byte(c)
            == second_last_continuation_byte(d) && last_continuation_byte(c)
            < last_continuation_byte(d)))))),
{
}

/// The values of the bytes that encode a character.
pub open spec fn char_bytes(c: char) -> Seq<int> {
    byte_values(encode_scalar(c as u32))
}

/// UTF-8 keeps the order of characters: the encodings of two characters
/// differ at a place that both have, and there the character with the
/// smaller code point has the smaller byte.
proof fn lemma_encodings_in_order(c: char, d: char) -> (m: int)
    requires
        (c as u32) < (d as u32),
    ensures
        0 <= m < char_bytes(c).len(),
        m < char_bytes(d).len(),
        forall|i: int| 0 <= i < m ==> (#[trigger] char_bytes(c)[i]) == char_bytes(d)[i],
        char_bytes(c)[m] < char_bytes(d)[m],
{
    let (u, v) = (c as u32, d as u32);
    vstd::utf8::char_is_scalar(c);
    vstd::utf8::char_is_scalar(d);
    lemma_leading_bytes(u);
    lemma_leading_bytes(v);
    let (x, y) = (encode_scalar(u), encode_scalar(v));
    if has_width_1_encoding(v) {
        lemma_order_width_1(u, v);
        0
    } else if has_width_2_encoding(v) {
        if has_width_2_encoding(u) {
            lemma_order_width_2(u, v);
            if x[0] < y[0] {
                0
            } else {
                1
            }
        } else {
            0
        }
    } else if has_width_3_encoding(v) {
        if has_width_3_encoding(u) {
            lemma_order_width_3(u, v);
            if x[0] < y[0] {
                0
            } else if x[1] < y[1] {
                1
            } else {
                2
            }
        } else {
            0
        }
    } else {
        if has_width_4_encoding(u) {
            lemma_order_width_4(u, v);
            if x[0] < y[0] {
                0
            } else if x[1] < y[1] {
                1
            } else if x[2] < y[2] {
                2
            } else {
                3
            }
        } else {
            0
        }
    }
}

/// The values of two byte strings in a row are the values of the one and
/// of the other in a row.
proof fn lemma_byte_values_concat(x: Seq<u8>, y: Seq<u8>)
    ensures
        byte_values(x + y) == byte_values(x) + byte_values(y),
{
    assert(byte_values(x + y) =~= byte_values(x) + byte_values(y));
}

/// The encodings of texts that part at `k` are in order.
proof fn lemma_bytes_follow_code_points(a: Seq<char>, b: Seq<char>, k: int)
    requires
        parts_before(code_points(a), code_points(b), k),
    ensures
        bytes_before(utf8(a), utf8(b)),
{
    assert(a.len() == code_points(a).len());
    assert(b.len() == code_points(b).len());
    let start = a.take(k);
    assert(start =~= b.take(k)) by {
        assert forall|i: int| 0 <= i < k implies a[i] == b[i] by {
            assert(code_points(a)[i] == (a[i] as u32) as int);
            assert(code_points(b)[i] == (b[i] as u32) as int);
            let u = a[i] as u32;
            vstd::utf8::char_u32_cast(a[i], u);
            vstd::utf8::char_u32_cast(b[i], u);
        }
    }
    let (rest_a, rest_b) = (a.skip(k), b.skip(k));
    assert(a =~= start + rest_a);
    assert(b =~= start + rest_b);
    lemma_utf8_concat(start, rest_a);
    lemma_utf8_concat(start, rest_b);
    lemma_byte_values_concat(utf8(start), utf8(rest_a));
    lemma_byte_values_concat(utf8(start), utf8(rest_b));

    let d = b[k];
    let after_b = rest_b.drop_first();
    assert(rest_b =~= seq![d] + after_b);
    lemma_utf8_concat(seq![d], after_b);
    lemma_utf8_single(d);
    lemma_byte_values_concat(utf8(seq![d]), utf8(after_b));
    let y = byte_values(utf8(seq![d]));
    if k == a.len() {
        assert(rest_a =~= Seq::<char>::empty());
        assert(byte_values(utf8(rest_a)) =~= Seq::<int>::empty());
        assert(parts_before(byte_values(utf8(rest_a)), y + byte_values(utf8(after_b)), 0));
        lemma_parts_before(byte_values(utf8(rest_a)), y + byte_values(utf8(after_b)), 0);
    } else {
        let c = a[k];
        assert(code_points(a)[k] == (c as u32) as int);
        assert(code_points(b)[k] == (d as u32) as int);
        let after_a = rest_a.drop_first();
        assert(rest_a =~= seq![c] + after_a);
        lemma_utf8_concat(seq![c], after_a);
        lemma_utf8_single(c);
        lemma_byte_values_concat(utf8(seq![c]), utf8(after_a));
        let m = lemma_encodings_in_order(c, d);
        lemma_lex_differing_starts(
            byte_values(utf8(seq![c])),
            y,
            byte_values(utf8(after_a)),
            byte_values(utf8(after_b)),
            m,
        );
    }
    lemma_lex_common_start(
        byte_values(utf8(start)),
        byte_values(utf8(rest_a)),
        byte_values(utf8(rest_b)),
    );
}

/// Texts stand in the order in which their UTF-8 encodings stand as byte
/// strings.
pub proof fn lemma_text_order_is_byte_order(a: Seq<char>, b: Seq<char>)
    ensures
        text_before(a, b) <==> bytes_before(utf8(a), utf8(b)),
{
    if text_before(a, b) {
        reveal(lex_before);
        let k = choose|k: int| parts_before(code_points(a), code_points(b), k);
        lemma_bytes_follow_code_points(a, b, k);
    }
    if bytes_before(utf8(a), utf8(b)) && !text_before(a, b) {
        lemma_lex_asymmetric(byte_values(utf8(a)), byte_values(utf8(b)));
        if a != b {
            lemma_text_before_total(a, b);
            reveal(lex_before);
            let k = choose|k: int| parts_before(code_points(b), code_points(a), k);
            lemma_bytes_follow_code_points(b, a, k);
        }
    }
}

/// How one text stands to another in the order of texts.
#[derive(Clone, Copy, Debug, PartialEq, Eq)]
pub enum TextOrder {
    Before,
    Same,
    After,
}

/// Where `a` stands with regard to `b` in the order of texts.
pub fn text_order(a: &str, b: &str) -> (r: TextOrder)
    ensures
        r is Before <==> text_before(a@, b@),
        r is Same <==> a@ == b@,
        r is After <==> text_before(b@, a@),
{
    let x = a.as_bytes();
    let y = b.as_bytes();
    proof {
        lemma_text_order_is_byte_order(a@, b@);
        lemma_text_order_is_byte_order(b@, a@);
    }
    let mut i: usize = 0;
    while i < x.len() && i < y.len()
        invariant
            i <= x.len(),
            i <= y.len(),
            x@ == utf8(a@),
            y@ == utf8(b@),
            text_before(a@, b@) <==> bytes_before(x@, y@),
            text_before(b@, a@) <==> bytes_before(y@, x@),
            forall|k: int| 0 <= k < i ==> x@[k] == y@[k],
        decreases x.len() - i,
    {
        if x[i] < y[i] {
            proof {
                lemma_parts_before(byte_values(x@), byte_values(y@), i as int);
                lemma_text_before_asymmetric(a@, b@);
            }
            return TextOrder::Before;
        }
        if x[i] > y[i] {
            proof {
                lemma_parts_before(byte_values(y@), byte_values(x@), i as int);
                lemma_text_before_asymmetric(b@, a@);
            }
            return TextOrder::After;
        }
        i += 1;
    }
    if i < y.len() {
        proof {
            lemma_parts_before(byte_values(x@), byte_values(y@), i as int);
            lemma_text_before_asymmetric(a@, b@);
        }
        TextOrder::Before
    } else if i < x.len() {
        proof {
            lemma_parts_before(byte_values(y@), byte_values(x@), i as int);
            lemma_text_before_asymmetric(b@, a@);
        }
        TextOrder::After
    } else {
        proof {
            assert(x@ =~= y@);
            lemma_utf8_injective(a@, b@);
            lemma_text_before_irreflexive(a@);
        }
        TextOrder::Same
    }
}

} // verus!
