//! Decoding of shared secrets written as unpadded RFC 4648 Base32.
//!
//! Secrets are stored in canonical form: upper-case letters `A`-`Z` and
//! digits `2`-`7`, with no `=` padding and no case folding.  Any other
//! character, or a length that no whole number of bytes encodes to, is
//! rejected.

use vstd::prelude::*;
use vstd::string::StrSliceExecFns;

verus! {

/// Error returned when a stored secret is not valid unpadded Base32.
#[derive(Debug, PartialEq, Eq, Structural)]
pub enum CodecError {
    InvalidEncoding,
}

/// Value of a character of the RFC 4648 Base32 alphabet (`A`-`Z` map to
/// 0-25, `2`-`7` map to 26-31), or -1 for a character outside it.
pub open spec fn b32_char_val(c: char) -> int {
    let u = c as int;
    if 65 <= u && u <= 90 {
        u - 65
    } else if 50 <= u && u <= 55 {
        u - 50 + 26
    } else {
        -1
    }
}

pub open spec fn is_b32_char(c: char) -> bool {
    b32_char_val(c) >= 0
}

/// A canonical unpadded Base32 text: every character is in the alphabet,
/// and the length is one that encoding whole bytes can produce (a length
/// of 1, 3 or 6 modulo 8 encodes a fractional byte and is rejected).
pub open spec fn valid_b32(s: Seq<char>) -> bool {
    &&& forall|i: int| 0 <= i < s.len() ==> is_b32_char(s[i])
    &&& s.len() % 8 != 1
    &&& s.len() % 8 != 3
    &&& s.len() % 8 != 6
}

/// The 5-bit group values of a Base32 text.
pub open spec fn b32_vals(s: Seq<char>) -> Seq<u8> {
    Seq::new(s.len(), |i: int| b32_char_val(s[i]) as u8)
}

/// Number of bytes that `n` Base32 characters decode to.
pub open spec fn decoded_len(n: int) -> int {
    (n * 5) / 8
}

/// Byte `j` of the decoded output, assembled from the 5-bit group values
/// `v` as RFC 4648 lays the groups out: each block of 8 groups carries 5
/// bytes, and byte `j` straddles the groups shown in its arm.
pub open spec fn b32_byte(v: Seq<u8>, j: int) -> u8 {
    let q = j / 5;
    let k = j % 5;
    if k == 0 {
        (v[8 * q] << 3) | (v[8 * q + 1] >> 2)
    } else if k == 1 {
        ((v[8 * q + 1] & 3) << 6) | (v[8 * q + 2] << 1) | (v[8 * q + 3] >> 4)
    } else if k == 2 {
        ((v[8 * q + 3] & 15) << 4) | (v[8 * q + 4] >> 1)
    } else if k == 3 {
        ((v[8 * q + 4] & 1) << 7) | (v[8 * q + 5] << 2) | (v[8 * q + 6] >> 3)
    } else {
        ((v[8 * q + 6] & 7) << 5) | v[8 * q + 7]
    }
}

/// The bytes that a valid Base32 text decodes to.
pub open spec fn b32_decode(s: Seq<char>) -> Seq<u8> {
    Seq::new(decoded_len(s.len() as int) as nat, |j: int| b32_byte(b32_vals(s), j))
}

/// Alphabet value of one character, or `None` outside the alphabet.
fn char_val(c: char) -> (r: Option<u8>)
    ensures
        match r {
            Some(v) => b32_char_val(c) == v,
            None => b32_char_val(c) == -1,
        },
{
    let u = c as u32;
    if 65 <= u && u <= 90 {
        Some((u - 65) as u8)
    } else if 50 <= u && u <= 55 {
        Some((u - 50 + 26) as u8)
    } else {
        None
    }
}

/// Decode an unpadded Base32 secret into raw key bytes.
///
/// Succeeds exactly on canonical unpadded Base32 text, and then returns
/// the bytes the text encodes.
pub fn decode(s: &str) -> (r: Result<Vec<u8>, CodecError>)
    ensures
        r is Ok <==> valid_b32(s@),
        r matches Ok(v) ==> v@ == b32_decode(s@),
{
    let n = s.unicode_len();
    let rem = n % 8;
    if rem == 1 || rem == 3 || rem == 6 {
        return Err(CodecError::InvalidEncoding);
    }
    let mut vals: Vec<u8> = Vec::new();
    let mut i: usize = 0;
    while i < n
        invariant
            i <= n,
            n == s@.len(),
            vals@.len() == i,
            forall|t: int| 0 <= t < i ==> is_b32_char(#[trigger] s@[t]),
            forall|t: int| 0 <= t < i ==> #[trigger] vals@[t] == b32_char_val(s@[t]),
        decreases n - i,
    {
        let c = s.get_char(i);
        match char_val(c) {
            Some(v) => {
                vals.push(v);
            },
            None => {
                assert(!is_b32_char(s@[i as int]));
                return Err(CodecError::InvalidEncoding);
            },
        }
        i += 1;
    }
    let full = n / 8;
    let extra: usize = if rem == 0 {
        0
    } else if rem == 2 {
        1
    } else if rem == 4 {
        2
    } else if rem == 5 {
        3
    } else {
        4
    };
    proof {
        assert(8 * full + rem == n);
        vstd::arithmetic::div_mod::lemma_fundamental_div_mod_converse(
            5 * n as int,
            8,
            5 * full as int + extra as int,
            5 * rem as int - 8 * extra as int,
        );
        assert(decoded_len(n as int) == 5 * full + extra);
    }
    let out_len = full * 5 + extra;
    let mut out: Vec<u8> = Vec::new();
    let mut j: usize = 0;
    let mut q: usize = 0;
    let mut k: usize = 0;
    while j < out_len
        invariant
            j == 5 * q + k,
            k < 5,
            j <= out_len,
            out_len == 5 * full + extra,
            out_len == decoded_len(n as int),
            full == n / 8,
            rem == n % 8,
            extra <= 4,
            rem == 0 ==> extra == 0,
            rem == 2 ==> extra == 1,
            rem == 4 ==> extra == 2,
            rem == 5 ==> extra == 3,
            rem == 7 ==> extra == 4,
            rem == 0 || rem == 2 || rem == 4 || rem == 5 || rem == 7,
            n == s@.len(),
            vals@.len() == n,
            forall|t: int| 0 <= t < n ==> is_b32_char(#[trigger] s@[t]),
            forall|t: int| 0 <= t < n ==> #[trigger] vals@[t] == b32_char_val(s@[t]),
            out@.len() == j,
            forall|t: int| 0 <= t < j ==> out@[t] == b32_byte(b32_vals(s@), t),
        decreases out_len - j,
    {
        proof {
            assert(q <= full);
            vstd::arithmetic::div_mod::lemma_fundamental_div_mod_converse(
                j as int,
                5,
                q as int,
                k as int,
            );
            assert(vals@ =~= b32_vals(s@));
        }
        let base = 8 * q;
        let b: u8 = if k == 0 {
            (vals[base] << 3u8) | (vals[base + 1] >> 2u8)
        } else if k == 1 {
            ((vals[base + 1] & 3) << 6u8) | (vals[base + 2] << 1u8) | (vals[base + 3] >> 4u8)
        } else if k == 2 {
            ((vals[base + 3] & 15) << 4u8) | (vals[base + 4] >> 1u8)
        } else if k == 3 {
            ((vals[base + 4] & 1) << 7u8) | (vals[base + 5] << 2u8) | (vals[base + 6] >> 3u8)
        } else {
            ((vals[base + 6] & 7) << 5u8) | vals[base + 7]
        };
        assert(b == b32_byte(b32_vals(s@), j as int));
        out.push(b);
        j += 1;
        if k == 4 {
            k = 0;
            q += 1;
        } else {
            k += 1;
        }
    }
    proof {
        assert(out@ =~= b32_decode(s@));
    }
    Ok(out)
}

} // verus!
