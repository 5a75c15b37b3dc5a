//! Ordering of firmware version strings.

use vstd::prelude::*;
use vstd::std_specs::iter::IteratorSpec;
use vstd::string::StringSliceAdditionalSpecFns;
use vstd::utf8::{
    char_is_scalar, encode_scalar, encode_utf8, has_width_1_encoding, has_width_2_encoding,
    has_width_3_encoding, has_width_4_encoding, is_scalar, last_continuation_byte,
    leading_byte_width_1, leading_byte_width_2, leading_byte_width_3, leading_byte_width_4,
    second_last_continuation_byte, third_last_continuation_byte,
};

verus! {

/// Three-way lexicographic comparison of two character sequences by code point:
/// `-1` where `a` sorts before `b`, `0` where they are equal, `1` otherwise.
pub open spec fn lex_compare(a: Seq<char>, b: Seq<char>) -> int
    decreases a.len(),
{
    if a.len() == 0 && b.len() == 0 {
        0
    } else if a.len() == 0 {
        -1
    } else if b.len() == 0 {
        1
    } else if a[0] < b[0] {
        -1
    } else if a[0] > b[0] {
        1
    } else {
        lex_compare(a.drop_first(), b.drop_first())
    }
}

/// Walks the two texts character by character up to the first difference.
fn compare_chars(a: &str, b: &str) -> (r: i8)
    ensures
        r as int == lex_compare(a@, b@),
{
    broadcast use vstd::string::group_string_axioms;
    let mut left = a.chars();
    let mut right = b.chars();
    loop
        invariant
            lex_compare(a@, b@) == lex_compare(left.remaining(), right.remaining()),
            left.decrease() is Some,
        decreases left.decrease()->0,
    {
        let x = left.next();
        let y = right.next();
        match (x, y) {
            (None, None) => { return 0; },
            (None, Some(_)) => { return -1; },
            (Some(_), None) => { return 1; },
            (Some(p), Some(q)) => {
                if p < q {
                    return -1;
                } else if p > q {
                    return 1;
                }
            },
        }
    }
}

/// Compares two version strings as plain text: by code point, which is also the
/// order of their bytes.
pub fn version_compare(a: &str, b: &str) -> (r: i8)
    ensures
        r as int == lex_compare(a@, b@),
        r as int == bytes_compare(a.spec_bytes(), b.spec_bytes()),
{
    proof {
        lemma_compare_is_byte_order(a@, b@);
    }
    compare_chars(a, b)
}

/// A comparison yields -1, 0 or 1.
pub proof fn lemma_compare_range(a: Seq<char>, b: Seq<char>)
    ensures
        -1 <= lex_compare(a, b) <= 1,
    decreases a.len(),
{
    if a.len() > 0 && b.len() > 0 && a[0] == b[0] {
        lemma_compare_range(a.drop_first(), b.drop_first());
    }
}

/// Two texts compare as equal exactly when they are the same text.
pub proof fn lemma_compare_equal(a: Seq<char>, b: Seq<char>)
    ensures
        lex_compare(a, b) == 0 <==> a == b,
    decreases a.len(),
{
    if a.len() == 0 || b.len() == 0 {
        if a.len() == 0 && b.len() == 0 {
            assert(a =~= b);
        }
    } else if a[0] == b[0] {
        lemma_compare_equal(a.drop_first(), b.drop_first());
        if a.drop_first() == b.drop_first() {
            assert(a =~= seq![a[0]] + a.drop_first());
            assert(b =~= seq![b[0]] + b.drop_first());
        }
    }
}

/// Swapping the two texts turns the comparison round.
pub proof fn lemma_compare_antisymmetric(a: Seq<char>, b: Seq<char>)
    ensures
        lex_compare(b, a) == -lex_compare(a, b),
    decreases a.len(),
{
    if a.len() > 0 && b.len() > 0 && a[0] == b[0] {
        lemma_compare_antisymmetric(a.drop_first(), b.drop_first());
    }
}

/// The order is transitive.
pub proof fn lemma_compare_transitive(a: Seq<char>, b: Seq<char>, c: Seq<char>)
    requires
        lex_compare(a, b) < 0,
        lex_compare(b, c) < 0,
    ensures
        lex_compare(a, c) < 0,
    decreases a.len(),
{
    if a.len() > 0 && b.len() > 0 && c.len() > 0 && a[0] == b[0] && b[0] == c[0] {
        lemma_compare_transitive(a.drop_first(), b.drop_first(), c.drop_first());
    }
}

/// `a` and `b` agree on their first `k` characters, and there `a` ends while `b`
/// goes on, or `a` has the smaller character.
pub open spec fn differs_below_at(a: Seq<char>, b: Seq<char>, k: int) -> bool {
    &&& 0 <= k <= a.len()
    &&& k <= b.len()
    &&& a.take(k) == b.take(k)
    &&& if k == a.len() {
        k < b.len()
    } else {
        k < b.len() && a[k] < b[k]
    }
}

/// A text sorts before another exactly when, at the first place where the two
/// differ, it has ended or has the smaller character.
pub proof fn lemma_compare_first_difference(a: Seq<char>, b: Seq<char>)
    ensures
        lex_compare(a, b) < 0 <==> exists|k: int| differs_below_at(a, b, k),
    decreases a.len(),
{
    if a.len() == 0 {
        if b.len() > 0 {
            assert(a.take(0) =~= b.take(0));
            assert(differs_below_at(a, b, 0));
        }
    } else if b.len() == 0 {
    } else if a[0] != b[0] {
        if a[0] < b[0] {
            assert(a.take(0) =~= b.take(0));
            assert(differs_below_at(a, b, 0));
        } else {
            assert forall|k: int| !differs_below_at(a, b, k) by {
                if differs_below_at(a, b, k) && k > 0 {
                    assert(a.take(k)[0] == b.take(k)[0]);
                }
            }
        }
    } else {
        let ta = a.drop_first();
        let tb = b.drop_first();
        lemma_compare_first_difference(ta, tb);
        if lex_compare(ta, tb) < 0 {
            let k = choose|k: int| differs_below_at(ta, tb, k);
            assert(a.take(k + 1) =~= seq![a[0]] + ta.take(k));
            assert(b.take(k + 1) =~= seq![b[0]] + tb.take(k));
            assert(differs_below_at(a, b, k + 1));
        } else {
            assert forall|k: int| !differs_below_at(a, b, k) by {
                if differs_below_at(a, b, k) {
                    assert(k > 0);
                    assert(ta.take(k - 1) =~= a.take(k).drop_first());
                    assert(tb.take(k - 1) =~= b.take(k).drop_first());
                    assert(differs_below_at(ta, tb, k - 1));
                }
            }
        }
    }
}

/// Three-way lexicographic comparison of two byte sequences.
pub open spec fn bytes_compare(a: Seq<u8>, b: Seq<u8>) -> int
    decreases a.len(),
{
    if a.len() == 0 && b.len() == 0 {
        0
    } else if a.len() == 0 {
        -1
    } else if b.len() == 0 {
        1
    } else if a[0] < b[0] {
        -1
    } else if a[0] > b[0] {
        1
    } else {
        bytes_compare(a.drop_first(), b.drop_first())
    }
}

/// `a` and `b` agree on their first `k` bytes and `a` has the smaller byte there.
spec fn smaller_at(a: Seq<u8>, b: Seq<u8>, k: int) -> bool {
    &&& 0 <= k < a.len()
    &&& k < b.len()
    &&& a.take(k) == b.take(k)
    &&& a[k] < b[k]
}

proof fn lemma_leading_bytes(c: u32)
    requires
        is_scalar(c),
    ensures
        has_width_1_encoding(c) ==> leading_byte_width_1(c) <= 0x7f,
        has_width_2_encoding(c) ==> 0xc0 <= leading_byte_width_2(c) <= 0xdf,
        has_width_3_encoding(c) ==> 0xe0 <= leading_byte_width_3(c) <= 0xef,
        has_width_4_encoding(c) ==> 0xf0 <= leading_byte_width_4(c) <= 0xf7,
{
    assert((c & 0x7f) as u8 <= 0x7f) by (bit_vector);
    assert(0xc0 <= 0xc0 | ((c >> 6) & 0x1f) as u8 <= 0xdf) by (bit_vector);
    assert(0xe0 <= 0xe0 | ((c >> 12) & 0x0f) as u8 <= 0xef) by (bit_vector);
    assert(0xf0 <= 0xf0 | ((c >> 18) & 0x7) as u8 <= 0xf7) by (bit_vector);
}

proof fn lemma_same_width_order(c: u32, d: u32)
    requires
        c < d,
    ensures
        has_width_1_encoding(c) && has_width_1_encoding(d) ==> leading_byte_width_1(c)
            < leading_byte_width_1(d),
        has_width_2_encoding(c) && has_width_2_encoding(d) ==> leading_byte_width_2(c)
            < leading_byte_width_2(d) || (leading_byte_width_2(c) == leading_byte_width_2(d)
            && last_continuation_byte(c) < last_continuation_byte(d)),
        has_width_3_encoding(c) && has_width_3_encoding(d) ==> leading_byte_width_3(c)
            < leading_byte_width_3(d) || (leading_byte_width_3(c) == leading_byte_width_3(d) && (
        second_last_continuation_byte(c) < second_last_continuation_byte(d) || (
        second_last_continuation_byte(c) == second_last_continuation_byte(d)
            && last_continuation_byte(c) < last_continuation_byte(d)))),
        has_width_4_encoding(c) && has_width_4_encoding(d) ==> leading_byte_width_4(c)
            < leading_byte_width_4(d) || (leading_byte_width_4(c) == leading_byte_width_4(d) && (
        third_last_continuation_byte(c) < third_last_continuation_byte(d) || (
        third_last_continuation_byte(c) == third_last_continuation_byte(d) && (
        second_last_continuation_byte(c) < second_last_continuation_byte(d) || (
        second_last_continuation_byte(c) == second_last_continuation_byte(d)
            && last_continuation_byte(c) < last_continuation_byte(d)))))),
{
    assert(c < d && c <= 0x7f && d <= 0x7f ==> ((c & 0x7f) as u8) < ((d & 0x7f) as u8))
        by (bit_vector);
    assert(c < d && 0x80 <= c <= 0x7ff && 0x80 <= d <= 0x7ff ==> (0xc0 | ((c >> 6) & 0x1f) as u8)
        < (0xc0 | ((d >> 6) & 0x1f) as u8) || ((0xc0 | ((c >> 6) & 0x1f) as u8) == (0xc0 | ((d >> 6)
        & 0x1f) as u8) && (0x80 | (c & 0x3f) as u8) < (0x80 | (d & 0x3f) as u8))) by (bit_vector);
    assert(c < d && 0x800 <= c <= 0xffff && 0x800 <= d <= 0xffff ==> (0xe0 | ((c >> 12)
        & 0x0f) as u8) < (0xe0 | ((d >> 12) & 0x0f) as u8) || ((0xe0 | ((c >> 12) & 0x0f) as u8) == (
    0xe0 | ((d >> 12) & 0x0f) as u8) && ((0x80 | ((c >> 6) & 0x3f) as u8) < (0x80 | ((d >> 6)
        & 0x3f) as u8) || ((0x80 | ((c >> 6) & 0x3f) as u8) == (0x80 | ((d >> 6) & 0x3f) as u8) && (
    0x80 | (c & 0x3f) as u8) < (0x80 | (d & 0x3f) as u8))))) by (bit_vector);
    assert(c < d && 0x10000 <= c <= 0x10ffff && 0x10000 <= d <= 0x10ffff ==> (0xf0 | ((c >> 18)
        & 0x7) as u8) < (0xf0 | ((d >> 18) & 0x7) as u8) || ((0xf0 | ((c >> 18) & 0x7) as u8) == (
    0xf0 | ((d >> 18) & 0x7) as u8) && ((0x80 | ((c >> 12) & 0x3f) as u8) < (0x80 | ((d >> 12)
        & 0x3f) as u8) || ((0x80 | ((c >> 12) & 0x3f) as u8) == (0x80 | ((d >> 12) & 0x3f) as u8)
        && ((0x80 | ((c >> 6) & 0x3f) as u8) < (0x80 | ((d >> 6) & 0x3f) as u8) || ((0x80 | ((c
        >> 6) & 0x3f) as u8) == (0x80 | ((d >> 6) & 0x3f) as u8) && (0x80 | (c & 0x3f) as u8) < (
    0x80 | (d & 0x3f) as u8))))))) by (bit_vector);
}

/// Of two scalars, the smaller has the encoding that is smaller at the first
/// byte in which the two encodings differ, and there both have a byte.
proof fn lemma_scalar_order(c: u32, d: u32)
    requires
        is_scalar(c),
        is_scalar(d),
        c < d,
    ensures
        exists|k: int| smaller_at(encode_scalar(c), encode_scalar(d), k),
{
    let x = encode_scalar(c);
    let y = encode_scalar(d);
    lemma_leading_bytes(c);
    lemma_leading_bytes(d);
    lemma_same_width_order(c, d);
    assert(x.take(0) =~= y.take(0));
    if x[0] < y[0] {
        assert(smaller_at(x, y, 0));
    } else {
        assert(x[0] == y[0]);
        assert(x.take(1) =~= y.take(1));
        if x[1] < y[1] {
            assert(smaller_at(x, y, 1));
        } else {
            assert(x.take(2) =~= y.take(2));
            if x[2] < y[2] {
                assert(smaller_at(x, y, 2));
            } else {
                assert(x.take(3) =~= y.take(3));
                assert(smaller_at(x, y, 3));
            }
        }
    }
}

proof fn lemma_bytes_differ(a: Seq<u8>, b: Seq<u8>, k: int)
    requires
        smaller_at(a, b, k),
    ensures
        bytes_compare(a, b) == -1,
        bytes_compare(b, a) == 1,
    decreases k,
{
    if k > 0 {
        assert(a.take(k)[0] == b.take(k)[0]);
        assert(a.drop_first().take(k - 1) =~= a.take(k).drop_first());
        assert(b.drop_first().take(k - 1) =~= b.take(k).drop_first());
        lemma_bytes_differ(a.drop_first(), b.drop_first(), k - 1);
    }
}

proof fn lemma_bytes_common_prefix(p: Seq<u8>, a: Seq<u8>, b: Seq<u8>)
    ensures
        bytes_compare(p + a, p + b) == bytes_compare(a, b),
    decreases p.len(),
{
    if p.len() == 0 {
        assert(p + a =~= a);
        assert(p + b =~= b);
    } else {
        assert((p + a).drop_first() =~= p.drop_first() + a);
        assert((p + b).drop_first() =~= p.drop_first() + b);
        lemma_bytes_common_prefix(p.drop_first(), a, b);
    }
}

proof fn lemma_char_value(c: char)
    ensures
        (c as u32) as int == c as int,
{
}

/// Texts sort by code point as their UTF-8 encodings sort by byte.
pub proof fn lemma_compare_is_byte_order(a: Seq<char>, b: Seq<char>)
    ensures
        lex_compare(a, b) == bytes_compare(encode_utf8(a), encode_utf8(b)),
    decreases a.len(),
{
    if a.len() == 0 || b.len() == 0 {
        if a.len() > 0 {
            char_is_scalar(a[0]);
            lemma_leading_bytes(a[0] as u32);
            assert(encode_utf8(a).len() > 0);
        }
        if b.len() > 0 {
            char_is_scalar(b[0]);
            lemma_leading_bytes(b[0] as u32);
            assert(encode_utf8(b).len() > 0);
        }
    } else {
        let c = a[0] as u32;
        let d = b[0] as u32;
        let ta = encode_utf8(a.drop_first());
        let tb = encode_utf8(b.drop_first());
        char_is_scalar(a[0]);
        char_is_scalar(b[0]);
        lemma_char_value(a[0]);
        lemma_char_value(b[0]);
        if a[0] == b[0] {
            lemma_compare_is_byte_order(a.drop_first(), b.drop_first());
            lemma_bytes_common_prefix(encode_scalar(c), ta, tb);
        } else if a[0] < b[0] {
            assert(c < d);
            lemma_scalar_order(c, d);
            let k = choose|k: int| smaller_at(encode_scalar(c), encode_scalar(d), k);
            assert((encode_scalar(c) + ta).take(k) =~= encode_scalar(c).take(k));
            assert((encode_scalar(d) + tb).take(k) =~= encode_scalar(d).take(k));
            assert(smaller_at(encode_scalar(c) + ta, encode_scalar(d) + tb, k));
            lemma_bytes_differ(encode_scalar(c) + ta, encode_scalar(d) + tb, k);
        } else {
            assert(d < c);
            lemma_scalar_order(d, c);
            let k = choose|k: int| smaller_at(encode_scalar(d), encode_scalar(c), k);
            assert((encode_scalar(c) + ta).take(k) =~= encode_scalar(c).take(k));
            assert((encode_scalar(d) + tb).take(k) =~= encode_scalar(d).take(k));
            assert(smaller_at(encode_scalar(d) + tb, encode_scalar(c) + ta, k));
            lemma_bytes_differ(encode_scalar(d) + tb, encode_scalar(c) + ta, k);
        }
    }
}

} // verus!
