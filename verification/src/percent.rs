//! Percent-encoding of byte sequences for a URL query component.
//!
//! Unreserved bytes stand for themselves; every other byte becomes a
//! `%XX` escape with uppercase hexadecimal digits. The encoding is
//! reversible: [`lemma_pct_decode_encode`] proves that decoding an
//! encoded sequence always recovers the input, and
//! [`lemma_pct_encode_query_safe`] proves that an encoded value never
//! holds a raw query delimiter.

use vstd::prelude::*;

verus! {

/// Bytes that percent-encoding leaves unchanged: the unreserved set
/// of ASCII letters, digits, `-`, `.`, `_` and `~`.
pub open spec fn is_unreserved(b: u8) -> bool {
    ||| 0x41 <= b <= 0x5a  // 'A'..='Z'
    ||| 0x61 <= b <= 0x7a  // 'a'..='z'
    ||| 0x30 <= b <= 0x39  // '0'..='9'
    ||| b == 0x2d  // '-'
    ||| b == 0x2e  // '.'
    ||| b == 0x5f  // '_'
    ||| b == 0x7e  // '~'
}

/// The ASCII byte for the uppercase hexadecimal digit of a value
/// below sixteen.
pub open spec fn hex_digit(n: u8) -> u8
    recommends
        n < 16,
{
    if n < 10 {
        (0x30 + n) as u8  // '0'..='9'
    } else {
        (0x37 + n) as u8  // 'A'..='F'
    }
}

/// ASCII bytes that count as one hexadecimal digit when decoding.
pub open spec fn is_hex_digit(b: u8) -> bool {
    ||| 0x30 <= b <= 0x39  // '0'..='9'
    ||| 0x41 <= b <= 0x46  // 'A'..='F'
    ||| 0x61 <= b <= 0x66  // 'a'..='f'
}

/// The value of one hexadecimal digit byte.
pub open spec fn hex_value(b: u8) -> u8
    recommends
        is_hex_digit(b),
{
    if 0x30 <= b <= 0x39 {
        (b - 0x30) as u8
    } else if 0x41 <= b <= 0x46 {
        (b - 0x37) as u8
    } else {
        (b - 0x57) as u8
    }
}

/// Percent-encoding of a single byte: an unreserved byte stands for
/// itself, every other byte becomes `%` followed by two uppercase
/// hexadecimal digits.
pub open spec fn encode_byte(b: u8) -> Seq<u8> {
    if is_unreserved(b) {
        seq![b]
    } else {
        seq![0x25u8, hex_digit(b / 16), hex_digit(b % 16)]  // 0x25 is '%'
    }
}

/// Percent-encoding of a byte sequence.
pub open spec fn pct_encode(s: Seq<u8>) -> Seq<u8>
    decreases s.len(),
{
    if s.len() == 0 {
        Seq::empty()
    } else {
        encode_byte(s[0]) + pct_encode(s.drop_first())
    }
}

/// Percent-decoding of a byte sequence: a `%` must introduce two
/// hexadecimal digits and yields the byte they spell; any other byte
/// stands for itself. `None` on a malformed escape.
pub open spec fn pct_decode(s: Seq<u8>) -> Option<Seq<u8>>
    decreases s.len(),
{
    if s.len() == 0 {
        Some(Seq::empty())
    } else if s[0] == 0x25 {
        if s.len() >= 3 && is_hex_digit(s[1]) && is_hex_digit(s[2]) {
            match pct_decode(s.subrange(3, s.len() as int)) {
                Some(rest) => Some(seq![(hex_value(s[1]) * 16 + hex_value(s[2])) as u8] + rest),
                None => None,
            }
        } else {
            None
        }
    } else {
        match pct_decode(s.drop_first()) {
            Some(rest) => Some(seq![s[0]] + rest),
            None => None,
        }
    }
}

/// Encoding one more byte at the end extends the encoded sequence by
/// that byte's encoding.
pub proof fn lemma_pct_encode_snoc(s: Seq<u8>, b: u8)
    ensures
        pct_encode(s.push(b)) == pct_encode(s) + encode_byte(b),
    decreases s.len(),
{
    if s.len() == 0 {
        assert(s.push(b)[0] == b);
        assert(s.push(b).drop_first() =~= Seq::<u8>::empty());
        assert(pct_encode(Seq::<u8>::empty()) == Seq::<u8>::empty());
        assert(pct_encode(s.push(b)) == encode_byte(b) + pct_encode(Seq::<u8>::empty()));
        assert(pct_encode(s.push(b)) =~= pct_encode(s) + encode_byte(b));
    } else {
        assert(s.push(b)[0] == s[0]);
        assert(s.push(b).drop_first() =~= s.drop_first().push(b));
        lemma_pct_encode_snoc(s.drop_first(), b);
        assert(pct_encode(s.push(b)) == encode_byte(s[0]) + pct_encode(s.drop_first().push(b)));
        assert(pct_encode(s.push(b)) == encode_byte(s[0]) + (pct_encode(s.drop_first())
            + encode_byte(b)));
        assert(pct_encode(s) == encode_byte(s[0]) + pct_encode(s.drop_first()));
        assert(pct_encode(s.push(b)) =~= pct_encode(s) + encode_byte(b));
    }
}

/// Reversibility: decoding a percent-encoded sequence always succeeds
/// and recovers the original bytes.
pub proof fn lemma_pct_decode_encode(s: Seq<u8>)
    ensures
        pct_decode(pct_encode(s)) == Some(s),
    decreases s.len(),
{
    if s.len() == 0 {
    } else {
        let b = s[0];
        let rest = s.drop_first();
        lemma_pct_decode_encode(rest);
        let e = pct_encode(s);
        if is_unreserved(b) {
            assert(e[0] == b);
            assert(b != 0x25);
            assert(e.drop_first() =~= pct_encode(rest));
            assert(seq![b] + rest =~= s);
        } else {
            let hi = hex_digit(b / 16);
            let lo = hex_digit(b % 16);
            assert(e[0] == 0x25);
            assert(e.len() >= 3);
            assert(e[1] == hi && e[2] == lo);
            assert(is_hex_digit(hi) && is_hex_digit(lo));
            assert(hex_value(hi) == b / 16 && hex_value(lo) == b % 16);
            assert((hex_value(hi) * 16 + hex_value(lo)) as u8 == b);
            assert(e.subrange(3, e.len() as int) =~= pct_encode(rest));
            assert(seq![b] + rest =~= s);
        }
    }
}

/// Every byte of a percent-encoded sequence is ASCII.
pub proof fn lemma_pct_encode_ascii(s: Seq<u8>)
    ensures
        forall|i: int| 0 <= i < pct_encode(s).len() ==> #[trigger] pct_encode(s)[i] < 0x80,
    decreases s.len(),
{
    if s.len() == 0 {
    } else {
        lemma_pct_encode_ascii(s.drop_first());
        assert forall|i: int| 0 <= i < pct_encode(s).len() implies #[trigger] pct_encode(s)[i]
            < 0x80 by {
            let e = encode_byte(s[0]);
            if i >= e.len() {
                assert(pct_encode(s)[i] == pct_encode(s.drop_first())[i - e.len()]);
            }
        }
    }
}

/// The four delimiters a query value must not hold in raw form:
/// `&`, `=`, `#` and `?`.
pub open spec fn is_query_delimiter(b: u8) -> bool {
    b == 0x26 || b == 0x3d || b == 0x23 || b == 0x3f
}

/// A byte sequence that is safe to splice into a URL query component:
/// no raw delimiter occurs, and `%` occurs only as the start of a
/// complete two-digit escape.
pub open spec fn query_value_safe(s: Seq<u8>) -> bool {
    &&& forall|i: int| 0 <= i < s.len() ==> !is_query_delimiter(#[trigger] s[i])
    &&& forall|i: int|
        0 <= i < s.len() && #[trigger] s[i] == 0x25 ==> i + 3 <= s.len() && is_hex_digit(
            s[i + 1],
        ) && is_hex_digit(s[i + 2])
}

proof fn lemma_query_value_safe_concat(a: Seq<u8>, b: Seq<u8>)
    requires
        query_value_safe(a),
        query_value_safe(b),
    ensures
        query_value_safe(a + b),
{
    let c = a + b;
    assert forall|i: int| 0 <= i < c.len() implies !is_query_delimiter(#[trigger] c[i]) by {
        if i < a.len() {
            assert(c[i] == a[i]);
        } else {
            assert(c[i] == b[i - a.len()]);
        }
    }
    assert forall|i: int| 0 <= i < c.len() && #[trigger] c[i] == 0x25 implies i + 3 <= c.len()
        && is_hex_digit(c[i + 1]) && is_hex_digit(c[i + 2]) by {
        if i < a.len() {
            assert(a[i] == 0x25);
            assert(c[i + 1] == a[i + 1] && c[i + 2] == a[i + 2]);
        } else {
            assert(c[i] == b[i - a.len()]);
            assert(c[i + 1] == b[i - a.len() + 1] && c[i + 2] == b[i - a.len() + 2]);
        }
    }
}

proof fn lemma_encode_byte_query_safe(b: u8)
    ensures
        query_value_safe(encode_byte(b)),
{
    let e = encode_byte(b);
    if is_unreserved(b) {
        assert(e[0] == b);
    } else {
        assert(e[0] == 0x25);
        assert(e[1] == hex_digit(b / 16) && e[2] == hex_digit(b % 16));
        assert(is_hex_digit(e[1]) && is_hex_digit(e[2]));
    }
}

/// Escaping: a percent-encoded value never holds a raw `&`, `=`, `#`
/// or `?`, and `%` occurs in it only as the start of a two-digit
/// escape.
pub proof fn lemma_pct_encode_query_safe(s: Seq<u8>)
    ensures
        query_value_safe(pct_encode(s)),
    decreases s.len(),
{
    if s.len() == 0 {
    } else {
        lemma_encode_byte_query_safe(s[0]);
        lemma_pct_encode_query_safe(s.drop_first());
        lemma_query_value_safe_concat(encode_byte(s[0]), pct_encode(s.drop_first()));
    }
}

/// True exactly on the bytes that percent-encoding leaves unchanged.
pub fn is_unreserved_byte(b: u8) -> (r: bool)
    ensures
        r == is_unreserved(b),
{
    (0x41 <= b && b <= 0x5a) || (0x61 <= b && b <= 0x7a) || (0x30 <= b && b <= 0x39) || b == 0x2d
        || b == 0x2e || b == 0x5f || b == 0x7e
}

fn hex_digit_byte(n: u8) -> (r: u8)
    requires
        n < 16,
    ensures
        r == hex_digit(n),
{
    if n < 10 {
        0x30 + n
    } else {
        0x37 + n
    }
}

/// Appends the percent-encoding of `input` to `out`.
pub fn pct_append(out: &mut Vec<u8>, input: &[u8])
    ensures
        final(out)@ == old(out)@ + pct_encode(input@),
{
    let n = input.len();
    let mut i: usize = 0;
    while i < n
        invariant
            n == input@.len(),
            i <= n,
            out@ == old(out)@ + pct_encode(input@.take(i as int)),
        decreases n - i,
    {
        let b = input[i];
        if is_unreserved_byte(b) {
            out.push(b);
        } else {
            out.push(0x25);
            out.push(hex_digit_byte(b / 16));
            out.push(hex_digit_byte(b % 16));
        }
        proof {
            lemma_pct_encode_snoc(input@.take(i as int), input@[i as int]);
            assert(input@.take(i + 1 as int) =~= input@.take(i as int).push(input@[i as int]));
            assert(out@ =~= old(out)@ + pct_encode(input@.take(i + 1 as int)));
        }
        i = i + 1;
    }
    proof {
        assert(input@.take(n as int) =~= input@);
    }
}

} // verus!
