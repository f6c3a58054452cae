//! Percent-encoding of raw bytes for use inside a query string.
//!
//! The scheme is pinned down exactly: a byte that is an ASCII letter, a
//! digit, or one of `-`, `.`, `_`, `~` stands for itself; every other byte
//! becomes `%XX` with two uppercase hexadecimal digits. Decoding is the
//! inverse, and the round trip is proved below.

use vstd::prelude::*;

verus! {

/// Bytes that stand for themselves in the encoded output (RFC 3986
/// "unreserved"): ASCII letters, digits, `-`, `.`, `_`, `~`.
pub open spec fn is_unreserved(b: u8) -> bool {
    (0x41 <= b && b <= 0x5a)  // 'A'..='Z'
    || (0x61 <= b && b <= 0x7a)  // 'a'..='z'
    || (0x30 <= b && b <= 0x39)  // '0'..='9'
    || b == 0x2d  // '-'
    || b == 0x2e  // '.'
    || b == 0x5f  // '_'
    || b == 0x7e  // '~'
}

/// The uppercase hexadecimal digit for a value below sixteen.
pub open spec fn hex_digit(n: u8) -> u8
    recommends
        n < 16,
{
    if n < 10 {
        (0x30 + n) as u8  // '0'..='9'
    } else {
        (0x41 + (n - 10)) as u8  // 'A'..='F'
    }
}

/// What one byte contributes to the encoded output.
pub open spec fn pct_byte(b: u8) -> Seq<u8> {
    if is_unreserved(b) {
        seq![b]
    } else {
        seq![0x25u8, hex_digit((b / 16) as u8), hex_digit((b % 16) as u8)]
    }
}

/// The percent-encoding of a byte sequence.
pub open spec fn pct_encode_spec(s: Seq<u8>) -> Seq<u8>
    decreases s.len(),
{
    if s.len() == 0 {
        Seq::empty()
    } else {
        pct_byte(s[0]) + pct_encode_spec(s.drop_first())
    }
}

pub open spec fn is_hex_digit(b: u8) -> bool {
    (0x30 <= b && b <= 0x39) || (0x41 <= b && b <= 0x46)
}

/// The value of an uppercase hexadecimal digit.
pub open spec fn hex_val(b: u8) -> u8
    recommends
        is_hex_digit(b),
{
    if b <= 0x39 {
        (b - 0x30) as u8
    } else {
        ((b - 0x41) + 10) as u8
    }
}

/// Percent-decoding: `%XX` with two uppercase hexadecimal digits becomes one
/// byte, any other byte stands for itself; a dangling or malformed escape
/// fails.
pub open spec fn pct_decode_spec(s: Seq<u8>) -> Option<Seq<u8>>
    decreases s.len(),
{
    if s.len() == 0 {
        Some(Seq::empty())
    } else if s[0] == 0x25 {
        if s.len() >= 3 && is_hex_digit(s[1]) && is_hex_digit(s[2]) {
            match pct_decode_spec(s.skip(3)) {
                Some(rest) => Some(seq![(hex_val(s[1]) * 16 + hex_val(s[2])) as u8] + rest),
                None => None,
            }
        } else {
            None
        }
    } else {
        match pct_decode_spec(s.drop_first()) {
            Some(rest) => Some(seq![s[0]] + rest),
            None => None,
        }
    }
}

/// Encoding distributes over concatenation.
pub proof fn lemma_pct_encode_append(a: Seq<u8>, b: Seq<u8>)
    ensures
        pct_encode_spec(a + b) == pct_encode_spec(a) + pct_encode_spec(b),
    decreases a.len(),
{
    if a.len() == 0 {
        assert(a + b =~= b);
        assert(pct_encode_spec(a) + pct_encode_spec(b) =~= pct_encode_spec(b));
    } else {
        assert((a + b).drop_first() =~= a.drop_first() + b);
        lemma_pct_encode_append(a.drop_first(), b);
        assert(pct_encode_spec(a + b) =~= pct_encode_spec(a) + pct_encode_spec(b));
    }
}

/// Reading an uppercase hexadecimal digit back gives the value it encodes.
proof fn lemma_hex_digit_val(n: u8)
    requires
        n < 16,
    ensures
        is_hex_digit(hex_digit(n)),
        hex_val(hex_digit(n)) == n,
{
}

/// Decoding undoes encoding: the round trip restores every byte sequence.
pub proof fn lemma_pct_round_trip(s: Seq<u8>)
    ensures
        pct_decode_spec(pct_encode_spec(s)) == Some(s),
    decreases s.len(),
{
    if s.len() == 0 {
        assert(pct_encode_spec(s) =~= Seq::<u8>::empty());
        assert(s =~= Seq::<u8>::empty());
    } else {
        let b = s[0];
        let rest = s.drop_first();
        lemma_pct_round_trip(rest);
        let e = pct_encode_spec(s);
        if is_unreserved(b) {
            assert(e =~= seq![b] + pct_encode_spec(rest));
            assert(e[0] == b && b != 0x25);
            assert(e.drop_first() =~= pct_encode_spec(rest));
            assert(seq![b] + rest =~= s);
        } else {
            let hi = (b / 16) as u8;
            let lo = (b % 16) as u8;
            lemma_hex_digit_val(hi);
            lemma_hex_digit_val(lo);
            assert(e =~= seq![0x25u8, hex_digit(hi), hex_digit(lo)] + pct_encode_spec(rest));
            assert(e.len() >= 3);
            assert(e[0] == 0x25 && e[1] == hex_digit(hi) && e[2] == hex_digit(lo));
            assert(e.skip(3) =~= pct_encode_spec(rest));
            assert(hex_val(e[1]) * 16 + hex_val(e[2]) == b);
            assert(seq![b] + rest =~= s);
        }
    }
}

/// The uppercase hexadecimal digit for a value below sixteen.
fn hex_digit_exec(n: u8) -> (r: u8)
    requires
        n < 16,
    ensures
        r == hex_digit(n),
{
    if n < 10 {
        0x30 + n
    } else {
        0x41 + (n - 10)
    }
}

/// Percent-encode a byte sequence; see the module head for the exact scheme.
pub fn pct_encode(s: &[u8]) -> (r: Vec<u8>)
    ensures
        r@ == pct_encode_spec(s@),
{
    let mut out: Vec<u8> = Vec::new();
    let mut i: usize = 0;
    while i < s.len()
        invariant
            i <= s@.len(),
            out@ == pct_encode_spec(s@.take(i as int)),
        decreases s@.len() - i,
    {
        let b = s[i];
        if (0x41 <= b && b <= 0x5a) || (0x61 <= b && b <= 0x7a) || (0x30 <= b && b <= 0x39)
            || b == 0x2d || b == 0x2e || b == 0x5f || b == 0x7e {
            out.push(b);
        } else {
            out.push(0x25);
            out.push(hex_digit_exec(b / 16));
            out.push(hex_digit_exec(b % 16));
        }
        proof {
            let pre = s@.take(i as int);
            let one = seq![s@[i as int]];
            assert(s@.take(i as int + 1) =~= pre + one);
            lemma_pct_encode_append(pre, one);
            assert(one.drop_first() =~= Seq::<u8>::empty());
            assert(pct_encode_spec(Seq::<u8>::empty()) =~= Seq::<u8>::empty());
            assert(pct_encode_spec(one) =~= pct_byte(s@[i as int]));
            assert(out@ =~= pct_encode_spec(pre) + pct_byte(s@[i as int]));
        }
        i += 1;
    }
    proof {
        assert(s@.take(s@.len() as int) =~= s@);
    }
    out
}

} // verus!
