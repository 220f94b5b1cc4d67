//! ASCII text helpers: the byte form of ASCII character sequences, and
//! verified decimal formatting of unsigned integers for derived tag text.

use vstd::prelude::*;
use vstd::utf8::{decode_utf8, encode_utf8, is_ascii_chars, valid_utf8};

verus! {

/// The bytes of an ASCII character sequence, one byte per character.
pub open spec fn ascii_of(s: Seq<char>) -> Seq<u8> {
    Seq::new(s.len(), |i: int| s[i] as u8)
}

/// The bytes of an ASCII character sequence are exactly its UTF-8 encoding,
/// which is valid and decodes back to the sequence.
pub proof fn lemma_ascii_encode(s: Seq<char>)
    requires
        is_ascii_chars(s),
    ensures
        encode_utf8(s) == ascii_of(s),
        valid_utf8(ascii_of(s)),
        decode_utf8(ascii_of(s)) == s,
        ascii_of(s).len() == s.len(),
{
    broadcast use vstd::utf8::is_ascii_chars_encode_utf8, vstd::utf8::encode_utf8_valid_utf8, vstd::utf8::encode_utf8_decode_utf8;

    assert(encode_utf8(s) =~= ascii_of(s));
}

/// UTF-8 encoding distributes over concatenation.
pub proof fn lemma_encode_utf8_concat(a: Seq<char>, b: Seq<char>)
    ensures
        encode_utf8(a + b) == encode_utf8(a) + encode_utf8(b),
    decreases a.len(),
{
    if a.len() == 0 {
        assert(a + b =~= b);
        assert(encode_utf8(a) + encode_utf8(b) =~= encode_utf8(b));
    } else {
        assert((a + b).drop_first() =~= a.drop_first() + b);
        lemma_encode_utf8_concat(a.drop_first(), b);
        assert((a + b)[0] == a[0]);
        assert(encode_utf8(a + b) =~= encode_utf8(a) + encode_utf8(b));
    }
}

/// The decimal digit character for `d`.
pub open spec fn digit_char(d: nat) -> char {
    if d == 0 {
        '0'
    } else if d == 1 {
        '1'
    } else if d == 2 {
        '2'
    } else if d == 3 {
        '3'
    } else if d == 4 {
        '4'
    } else if d == 5 {
        '5'
    } else if d == 6 {
        '6'
    } else if d == 7 {
        '7'
    } else if d == 8 {
        '8'
    } else {
        '9'
    }
}

/// The decimal digits of `n`, most significant first, without leading zeros
/// (a single `'0'` for zero).
pub open spec fn dec_chars(n: nat) -> Seq<char>
    decreases n,
{
    if n < 10 {
        seq![digit_char(n)]
    } else {
        dec_chars(n / 10).push(digit_char(n % 10))
    }
}

/// A digit character is ASCII, and its byte is the digit plus 48.
pub proof fn lemma_digit_char_ascii(d: nat)
    requires
        d < 10,
    ensures
        '\0' <= digit_char(d) <= '\u{7f}',
        digit_char(d) as u8 == 48 + d,
{
}

/// Every decimal digit sequence is ASCII.
pub proof fn lemma_dec_chars_ascii(n: nat)
    ensures
        is_ascii_chars(dec_chars(n)),
    decreases n,
{
    if n < 10 {
        assert forall|i| 0 <= i < dec_chars(n).len() implies '\0' <= #[trigger] dec_chars(
            n,
        )[i] <= '\u{7f}' by {
            assert(dec_chars(n)[i] == digit_char(n));
            lemma_digit_char_ascii(n);
        }
    } else {
        lemma_dec_chars_ascii(n / 10);
        assert forall|i| 0 <= i < dec_chars(n).len() implies '\0' <= #[trigger] dec_chars(
            n,
        )[i] <= '\u{7f}' by {
            if i < dec_chars(n / 10).len() {
                assert(dec_chars(n)[i] == dec_chars(n / 10)[i]);
            } else {
                assert(dec_chars(n)[i] == digit_char(n % 10));
                lemma_digit_char_ascii(n % 10);
            }
        }
    }
}

/// `10^k`.
pub open spec fn pow10(k: nat) -> nat
    decreases k,
{
    if k == 0 {
        1
    } else {
        10 * pow10((k - 1) as nat)
    }
}

/// A number below `10^k` has at most `k` decimal digits.
pub proof fn lemma_dec_chars_len(n: nat, k: nat)
    requires
        n < pow10(k),
        k >= 1,
    ensures
        1 <= dec_chars(n).len() <= k,
    decreases k,
{
    if n < 10 {
    } else {
        if k == 1 {
            reveal_with_fuel(pow10, 2);
            assert(pow10(1) == 10);
        }
        assert(pow10(k) == 10 * pow10((k - 1) as nat));
        assert(n / 10 < pow10((k - 1) as nat));
        lemma_dec_chars_len(n / 10, (k - 1) as nat);
    }
}

/// A `u64` value has at most 20 decimal digits.
pub proof fn lemma_dec_chars_len_u64(n: u64)
    ensures
        1 <= dec_chars(n as nat).len() <= 20,
{
    reveal_with_fuel(pow10, 21);
    assert(pow10(20) == 100000000000000000000);
    lemma_dec_chars_len(n as nat, 20);
}

/// Writes the decimal digits of `n`, most significant first, as ASCII bytes.
pub fn dec_bytes_of(n: u64) -> (r: Vec<u8>)
    ensures
        r@ == ascii_of(dec_chars(n as nat)),
        1 <= r@.len() <= 20,
{
    proof {
        lemma_dec_chars_len_u64(n);
    }
    let mut rev: Vec<u8> = Vec::new();
    let mut m: u64 = n;
    loop
        invariant_except_break
            rev@.len() == 0 ==> m == n,
            rev@.len() > 0 ==> m > 0,
            rev@.len() > 0 ==> (if m > 0 {
                ascii_of(dec_chars(m as nat))
            } else {
                Seq::<u8>::empty()
            }) + rev@.reverse() == ascii_of(dec_chars(n as nat)),
        ensures
            rev@.reverse() == ascii_of(dec_chars(n as nat)),
        decreases m,
    {
        let ghost m0 = m as nat;
        let ghost rev0 = rev@;
        let d: u8 = (m % 10) as u8;
        rev.push(48 + d);
        m = m / 10;
        proof {
            lemma_digit_char_ascii(m0 % 10);
            lemma_step(m0, rev0, n as nat, m as nat);
        }
        if m == 0 {
            proof {
                assert(Seq::<u8>::empty() + rev@.reverse() =~= rev@.reverse());
            }
            break;
        }
    }
    let mut r: Vec<u8> = Vec::new();
    let mut i: usize = rev.len();
    while i > 0
        invariant
            i <= rev@.len(),
            r@ == rev@.subrange(i as int, rev@.len() as int).reverse(),
        decreases i,
    {
        i = i - 1;
        let ghost r0 = r@;
        r.push(rev[i]);
        proof {
            let len = rev@.len() as int;
            assert forall|j: int| 0 <= j < len - i implies rev@.subrange(i as int, len).reverse()[j]
                == r0.push(rev@[i as int])[j] by {
                assert(rev@.subrange(i as int, len).reverse()[j] == rev@[len - 1 - j]);
                if j < len - i - 1 {
                    assert(r0[j] == rev@.subrange(i + 1, len)[len - i - 2 - j]);
                }
            }
            assert(rev@.subrange(i as int, len).reverse() =~= r0.push(rev@[i as int]));
        }
    }
    proof {
        assert(rev@.subrange(0, rev@.len() as int) =~= rev@);
        lemma_dec_chars_len_u64(n);
    }
    r
}

/// One step of digit extraction: pushing the digit of `m0 % 10` and dividing
/// by ten preserves the relation between the emitted digits and `dec_chars`.
proof fn lemma_step(m0: nat, rev0: Seq<u8>, n: nat, m1: nat)
    requires
        m1 == m0 / 10,
        rev0.len() == 0 ==> m0 == n,
        rev0.len() > 0 ==> (if m0 > 0 {
            ascii_of(dec_chars(m0))
        } else {
            Seq::<u8>::empty()
        }) + rev0.reverse() == ascii_of(dec_chars(n)),
        rev0.len() > 0 ==> m0 > 0,
    ensures
        (if m1 > 0 {
            ascii_of(dec_chars(m1))
        } else {
            Seq::<u8>::empty()
        }) + rev0.push((48 + m0 % 10) as u8).reverse() == ascii_of(dec_chars(n)),
{
    lemma_digit_char_ascii(m0 % 10);
    let rev1 = rev0.push((48 + m0 % 10) as u8);
    lemma_reverse_push(rev0, (48 + m0 % 10) as u8);
    if m0 < 10 {
        assert(ascii_of(dec_chars(m0)) =~= seq![(48 + m0) as u8]);
    } else {
        assert(ascii_of(dec_chars(m0)) =~= ascii_of(dec_chars(m1)) + seq![(48 + m0 % 10) as u8]);
    }
    if rev0.len() == 0 {
        if m0 < 10 {
            assert((Seq::<u8>::empty() + rev1.reverse()) =~= ascii_of(dec_chars(n)));
        } else {
            assert((ascii_of(dec_chars(m1)) + rev1.reverse()) =~= ascii_of(dec_chars(n)));
        }
    } else {
        if m0 < 10 {
            assert((Seq::<u8>::empty() + rev1.reverse()) =~= ascii_of(dec_chars(m0))
                + rev0.reverse());
        } else {
            assert((ascii_of(dec_chars(m1)) + rev1.reverse()) =~= ascii_of(dec_chars(m0))
                + rev0.reverse());
        }
    }
}

/// Reversing a sequence extended at the back puts the new element in front.
proof fn lemma_reverse_push<A>(s: Seq<A>, x: A)
    ensures
        s.push(x).reverse() == seq![x] + s.reverse(),
{
    let p = s.push(x);
    assert forall|j: int| 0 <= j < p.len() implies p.reverse()[j] == (seq![x] + s.reverse())[j] by {
        assert(p.reverse()[j] == p[p.len() - 1 - j]);
        if j == 0 {
            assert(p[p.len() - 1] == x);
        } else {
            assert(p[p.len() - 1 - j] == s[s.len() - 1 - (j - 1)]);
        }
    }
    assert(p.reverse() =~= seq![x] + s.reverse());
}

} // verus!
