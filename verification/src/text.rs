use vstd::prelude::*;
use vstd::string::{StrSliceExecFns, StringSliceAdditionalSpecFns};
use vstd::utf8::*;

verus! {

/// Decimal (base ten) ASCII rendering of a non-negative integer,
/// most significant digit first, with no sign and no leading zeros
/// (except for the single digit `0` itself).
pub open spec fn spec_decimal(n: int) -> Seq<u8>
    recommends
        n >= 0,
    decreases n,
{
    if n < 10 {
        seq![(48 + if 0 <= n < 10 { n } else { 0 }) as u8]
    } else {
        spec_decimal(n / 10) + seq![(48 + n % 10) as u8]
    }
}

/// Renders an unsigned integer as decimal ASCII digits.
pub fn decimal_bytes(n: u64) -> (r: Vec<u8>)
    ensures
        r@ == spec_decimal(n as int),
    decreases n,
{
    if n < 10 {
        let mut v: Vec<u8> = Vec::new();
        v.push((48 + n) as u8);
        proof {
            assert(v@ =~= spec_decimal(n as int));
        }
        v
    } else {
        let mut v = decimal_bytes(n / 10);
        v.push((48 + (n % 10)) as u8);
        proof {
            assert(v@ =~= spec_decimal(n as int));
        }
        v
    }
}

/// Ten raised to the `k`-th power.
pub open spec fn pow10(k: nat) -> int
    decreases k,
{
    if k == 0 {
        1
    } else {
        10 * pow10((k - 1) as nat)
    }
}

proof fn lemma_decimal_len(n: int, k: nat)
    requires
        0 <= n < pow10(k),
        k >= 1,
    ensures
        spec_decimal(n).len() <= k,
    decreases k,
{
    if n < 10 {
    } else {
        assert(pow10(k) == 10 * pow10((k - 1) as nat));
        assert(n / 10 < pow10((k - 1) as nat)) by (nonlinear_arith)
            requires
                n < 10 * pow10((k - 1) as nat),
                n >= 10,
        ;
        assert(k >= 2) by {
            if k == 1 {
                assert(pow10(1nat) == 10);
            }
        }
        lemma_decimal_len(n / 10, (k - 1) as nat);
    }
}

/// The decimal rendering of a value that fits in 64 bits takes at most
/// twenty digits.
pub proof fn lemma_decimal_len_u64(n: int)
    requires
        0 <= n <= u64::MAX,
    ensures
        spec_decimal(n).len() <= 20,
{
    assert(pow10(20nat) == 100000000000000000000) by {
        reveal_with_fuel(pow10, 21);
    }
    lemma_decimal_len(n, 20nat);
}

/// A scalar encodes to between one and four bytes, so a character
/// sequence encodes to at most four bytes per character.
pub proof fn lemma_encode_utf8_len(s: Seq<char>)
    ensures
        encode_utf8(s).len() <= 4 * s.len(),
    decreases s.len(),
{
    if s.len() == 0 {
    } else {
        char_is_scalar(s[0]);
        assert(encode_scalar(s[0] as u32).len() <= 4);
        lemma_encode_utf8_len(s.drop_first());
    }
}

/// Appends the bytes of `src` to `buf`.
pub fn push_bytes(buf: &mut Vec<u8>, src: &Vec<u8>)
    ensures
        final(buf)@ == old(buf)@ + src@,
{
    let n = src.len();
    let mut i: usize = 0;
    while i < n
        invariant
            i <= n,
            n == src@.len(),
            buf@ == old(buf)@ + src@.subrange(0, i as int),
        decreases n - i,
    {
        buf.push(src[i]);
        proof {
            assert(buf@ =~= old(buf)@ + src@.subrange(0, i + 1));
        }
        i = i + 1;
    }
    proof {
        assert(src@.subrange(0, n as int) =~= src@);
    }
}

/// ASCII uppercasing of a single byte: lowercase letters are shifted,
/// every other byte (including non-ASCII bytes) is left alone.
pub open spec fn spec_upper_byte(b: u8) -> u8 {
    if 97 <= b <= 122 {
        (b - 32) as u8
    } else {
        b
    }
}

/// Bytewise ASCII uppercasing of a byte sequence.
pub open spec fn spec_upper(s: Seq<u8>) -> Seq<u8> {
    Seq::new(s.len(), |i: int| spec_upper_byte(s[i]))
}

/// Uppercases the ASCII letters of a byte string, leaving all other
/// bytes (including multi-byte UTF-8 sequences) unchanged.
pub fn ascii_uppercase(v: &Vec<u8>) -> (r: Vec<u8>)
    ensures
        r@ == spec_upper(v@),
{
    let mut r: Vec<u8> = Vec::new();
    let n = v.len();
    let mut i: usize = 0;
    while i < n
        invariant
            i <= n,
            n == v@.len(),
            r@.len() == i,
            forall|j: int| 0 <= j < i ==> r@[j] == spec_upper_byte(v@[j]),
        decreases n - i,
    {
        let b = v[i];
        if 97 <= b && b <= 122 {
            r.push(b - 32);
        } else {
            r.push(b);
        }
        i = i + 1;
    }
    proof {
        assert(r@ =~= spec_upper(v@));
    }
    r
}

/// True when `p` is a prefix of `s`.
pub open spec fn spec_starts_with(s: Seq<u8>, p: Seq<u8>) -> bool {
    p.len() <= s.len() && s.subrange(0, p.len() as int) == p
}

/// Tests whether the byte string `v` begins with the UTF-8 bytes of `p`.
pub fn starts_with_str(v: &Vec<u8>, p: &str) -> (r: bool)
    ensures
        r == spec_starts_with(v@, p.spec_bytes()),
{
    let pb = p.as_bytes_vec();
    if pb.len() > v.len() {
        return false;
    }
    let n = pb.len();
    let mut i: usize = 0;
    while i < n
        invariant
            i <= n,
            n == pb@.len(),
            n <= v@.len(),
            pb@ == p.spec_bytes(),
            forall|j: int| 0 <= j < i ==> v@[j] == pb@[j],
        decreases n - i,
    {
        if v[i] != pb[i] {
            proof {
                assert(v@.subrange(0, n as int)[i as int] != pb@[i as int]);
            }
            return false;
        }
        i = i + 1;
    }
    proof {
        assert(v@.subrange(0, n as int) =~= pb@);
    }
    true
}

/// Equality of two string slices, decided by comparing their UTF-8 bytes.
pub fn str_eq(a: &str, b: &str) -> (r: bool)
    ensures
        r == (a@ == b@),
{
    proof {
        encode_utf8_decode_utf8(a@);
        encode_utf8_decode_utf8(b@);
    }
    let ab = a.as_bytes_vec();
    let bb = b.as_bytes_vec();
    if ab.len() != bb.len() {
        return false;
    }
    let n = ab.len();
    let mut i: usize = 0;
    while i < n
        invariant
            i <= n,
            n == ab@.len() == bb@.len(),
            ab@ == a.spec_bytes(),
            bb@ == b.spec_bytes(),
            decode_utf8(encode_utf8(a@)) == a@,
            decode_utf8(encode_utf8(b@)) == b@,
            forall|j: int| 0 <= j < i ==> ab@[j] == bb@[j],
        decreases n - i,
    {
        if ab[i] != bb[i] {
            return false;
        }
        i = i + 1;
    }
    proof {
        assert(ab@ =~= bb@);
    }
    true
}

/// Decides whether a byte sequence is a well-formed UTF-8 encoding,
/// exactly as `vstd::utf8::valid_utf8` defines it. This is the totality
/// gate of the attacker-facing decode path: it inspects every byte with
/// in-bounds reads only and never fails.
pub fn is_valid_utf8(v: &Vec<u8>) -> (r: bool)
    ensures
        r == valid_utf8(v@),
{
    let n = v.len();
    let mut i: usize = 0;
    while i < n
        invariant
            i <= n,
            n == v@.len(),
            partial_valid_utf8(v@, i as int),
        decreases n - i,
    {
        let ghost t = v@.subrange(i as int, n as int);
        proof {
            assert(t.len() == n - i);
            assert(forall|j: int| 0 <= j < t.len() ==> t[j] == v@[i + j]);
        }
        let b0 = v[i];
        if b0 < 0x80 {
            // one-byte scalar
            proof {
                assert(is_leading_byte_width_1(t[0]));
                assert(valid_first_scalar(t));
                assert(length_of_first_scalar(t) == 1);
                partial_valid_utf8_extend(v@, i as int);
            }
            i = i + 1;
        } else if 0xc0 <= b0 && b0 <= 0xdf {
            // two-byte scalar
            if n - i < 2 {
                proof {
                    assert(!valid_leading_and_continuation_bytes_first_codepoint(t));
                    assert(!valid_utf8(t));
                    partial_valid_partial_invalid_utf8(v@, i as int);
                }
                return false;
            }
            let b1 = v[i + 1];
            if !(0x80 <= b1 && b1 <= 0xbf) {
                proof {
                    assert(!valid_leading_and_continuation_bytes_first_codepoint(t));
                    assert(!valid_utf8(t));
                    partial_valid_partial_invalid_utf8(v@, i as int);
                }
                return false;
            }
            let cp: u32 = (((b0 & 0x1f) as u32) << 6u32) | ((b1 & 0x3f) as u32);
            proof {
                assert(t.len() >= 2 && t[0] == b0 && t[1] == b1);
                assert(decode_first_codepoint(t) == cp);
                assert(length_of_first_codepoint(t) == 2);
            }
            if cp < 0x80 || (0xd800 <= cp && cp <= 0xdfff) {
                proof {
                    assert(!valid_first_scalar(t));
                    assert(!valid_utf8(t));
                    partial_valid_partial_invalid_utf8(v@, i as int);
                }
                return false;
            }
            proof {
                assert(valid_first_scalar(t));
                partial_valid_utf8_extend(v@, i as int);
            }
            i = i + 2;
        } else if 0xe0 <= b0 && b0 <= 0xef {
            // three-byte scalar
            if n - i < 3 {
                proof {
                    assert(!valid_leading_and_continuation_bytes_first_codepoint(t));
                    assert(!valid_utf8(t));
                    partial_valid_partial_invalid_utf8(v@, i as int);
                }
                return false;
            }
            let b1 = v[i + 1];
            let b2 = v[i + 2];
            if !(0x80 <= b1 && b1 <= 0xbf) || !(0x80 <= b2 && b2 <= 0xbf) {
                proof {
                    assert(!valid_leading_and_continuation_bytes_first_codepoint(t));
                    assert(!valid_utf8(t));
                    partial_valid_partial_invalid_utf8(v@, i as int);
                }
                return false;
            }
            let cp: u32 = (((b0 & 0x0f) as u32) << 12u32) | (((b1 & 0x3f) as u32) << 6u32) | ((
            b2 & 0x3f) as u32);
            proof {
                assert(t.len() >= 3 && t[0] == b0 && t[1] == b1 && t[2] == b2);
                assert(decode_first_codepoint(t) == cp);
                assert(length_of_first_codepoint(t) == 3);
            }
            if cp < 0x800 || (0xd800 <= cp && cp <= 0xdfff) {
                proof {
                    assert(!valid_first_scalar(t));
                    assert(!valid_utf8(t));
                    partial_valid_partial_invalid_utf8(v@, i as int);
                }
                return false;
            }
            proof {
                assert(valid_first_scalar(t));
                partial_valid_utf8_extend(v@, i as int);
            }
            i = i + 3;
        } else if 0xf0 <= b0 && b0 <= 0xf7 {
            // four-byte scalar
            if n - i < 4 {
                proof {
                    assert(!valid_leading_and_continuation_bytes_first_codepoint(t));
                    assert(!valid_utf8(t));
                    partial_valid_partial_invalid_utf8(v@, i as int);
                }
                return false;
            }
            let b1 = v[i + 1];
            let b2 = v[i + 2];
            let b3 = v[i + 3];
            if !(0x80 <= b1 && b1 <= 0xbf) || !(0x80 <= b2 && b2 <= 0xbf) || !(0x80 <= b3 && b3
                <= 0xbf) {
                proof {
                    assert(!valid_leading_and_continuation_bytes_first_codepoint(t));
                    assert(!valid_utf8(t));
                    partial_valid_partial_invalid_utf8(v@, i as int);
                }
                return false;
            }
            let cp: u32 = (((b0 & 0x07) as u32) << 18u32) | (((b1 & 0x3f) as u32) << 12u32) | (((
            b2 & 0x3f) as u32) << 6u32) | ((b3 & 0x3f) as u32);
            proof {
                assert(t.len() >= 4 && t[0] == b0 && t[1] == b1 && t[2] == b2 && t[3] == b3);
                assert(decode_first_codepoint(t) == cp);
                assert(length_of_first_codepoint(t) == 4);
            }
            if cp < 0x10000 || cp > 0x10ffff || (0xd800 <= cp && cp <= 0xdfff) {
                proof {
                    assert(!valid_first_scalar(t));
                    assert(!valid_utf8(t));
                    partial_valid_partial_invalid_utf8(v@, i as int);
                }
                return false;
            }
            proof {
                assert(valid_first_scalar(t));
                partial_valid_utf8_extend(v@, i as int);
            }
            i = i + 4;
        } else {
            // a stray continuation byte (0x80..0xbf) or an impossible
            // leading byte (0xf8..0xff)
            proof {
                assert(!valid_leading_and_continuation_bytes_first_codepoint(t));
                assert(!valid_utf8(t));
                partial_valid_partial_invalid_utf8(v@, i as int);
            }
            return false;
        }
    }
    proof {
        assert(v@.subrange(0, n as int) =~= v@);
    }
    true
}

} // verus!
