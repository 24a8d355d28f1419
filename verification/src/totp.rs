//! Time-based one-time passcodes (RFC 6238 over RFC 4226).
//!
//! The system-wide parameters are fixed: HMAC-SHA-1, 6 digits, a
//! 30-second time step, and epoch 0.  The HMAC digest itself comes from
//! an outside cryptography crate; everything around it — the time
//! counter, dynamic truncation, and digit formatting — is verified.

use vstd::prelude::*;
use vstd::string::StringExecFns;

verus! {

/// The HMAC-SHA-1 digest of `msg` keyed by `key`.  The digest is a pure
/// function of the two arguments; its value is not spelled out here.
pub uninterp spec fn hmac_sha1_of(key: Seq<u8>, msg: Seq<u8>) -> Seq<u8>;

/// Relies on `hmac::Hmac` instantiated at `sha1::Sha1`: the digest is a
/// function of key and message alone, 20 bytes long, and any key length
/// is accepted.
#[verifier::external_body]
fn hmac_sha1(key: &Vec<u8>, msg: &Vec<u8>) -> (r: Vec<u8>)
    ensures
        r@ == hmac_sha1_of(key@, msg@),
        r@.len() == 20,
{
    let mut m = <hmac::Hmac<sha1::Sha1> as hmac::KeyInit>::new_from_slice(key.as_slice())
        .expect("HMAC accepts keys of any length");
    hmac::Mac::update(&mut m, msg.as_slice());
    hmac::Mac::finalize(m).into_bytes().to_vec()
}

/// The 8-byte big-endian encoding of the time counter.
pub open spec fn counter_bytes_spec(t: u64) -> Seq<u8> {
    seq![
        (t >> 56) as u8,
        (t >> 48) as u8,
        (t >> 40) as u8,
        (t >> 32) as u8,
        (t >> 24) as u8,
        (t >> 16) as u8,
        (t >> 8) as u8,
        t as u8,
    ]
}

fn counter_bytes(t: u64) -> (r: Vec<u8>)
    ensures
        r@ == counter_bytes_spec(t),
{
    let mut v: Vec<u8> = Vec::new();
    v.push((t >> 56) as u8);
    v.push((t >> 48) as u8);
    v.push((t >> 40) as u8);
    v.push((t >> 32) as u8);
    v.push((t >> 24) as u8);
    v.push((t >> 16) as u8);
    v.push((t >> 8) as u8);
    v.push(t as u8);
    proof {
        assert(v@ =~= counter_bytes_spec(t));
    }
    v
}

/// RFC 4226 dynamic truncation of a 20-byte digest, reduced modulo 10^6:
/// the low 4 bits of the last byte give an offset, the 4 bytes there are
/// read as a big-endian 31-bit integer, and the 6 low decimal digits of
/// that integer are the passcode value.
pub open spec fn truncated_value(d: Seq<u8>) -> int {
    let o = (d[19] & 0x0f) as int;
    ((d[o] & 0x7f) as int) * 0x1000000 + (d[o + 1] as int) * 0x10000 + (d[o + 2] as int) * 0x100
        + (d[o + 3] as int)
}

pub open spec fn code_value(d: Seq<u8>) -> int {
    truncated_value(d) % 1000000
}

/// Extract the 6-digit passcode value from an HMAC digest.
pub fn truncate_digest(d: &Vec<u8>) -> (r: u32)
    requires
        d@.len() == 20,
    ensures
        r == code_value(d@),
        r < 1000000,
{
    let last = d[19];
    assert(last & 0x0f <= 0x0f) by (bit_vector);
    let o = (last & 0x0f) as usize;
    let x0 = d[o];
    assert(x0 & 0x7f <= 0x7f) by (bit_vector);
    let b0 = x0 & 0x7f;
    let bin: u32 = (b0 as u32) * 0x1000000 + (d[o + 1] as u32) * 0x10000 + (d[o + 2] as u32)
        * 0x100 + (d[o + 3] as u32);
    bin % 1000000
}

/// The character for one decimal digit.
pub open spec fn digit_char(d: int) -> char {
    if d == 0 {
        '0'
    } else if d == 1 {
        '1'
    } else if d == 2 {
        '2'
    } else if d == 3 {
        '3'
    } else if d == 4 {
        '4'
    } else if d == 5 {
        '5'
    } else if d == 6 {
        '6'
    } else if d == 7 {
        '7'
    } else if d == 8 {
        '8'
    } else {
        '9'
    }
}

pub open spec fn is_ascii_digit(c: char) -> bool {
    48 <= c as int <= 57
}

/// The six decimal digits of `v`, most significant first, zero-padded.
pub open spec fn code_chars(v: int) -> Seq<char> {
    seq![
        digit_char(v / 100000 % 10),
        digit_char(v / 10000 % 10),
        digit_char(v / 1000 % 10),
        digit_char(v / 100 % 10),
        digit_char(v / 10 % 10),
        digit_char(v % 10),
    ]
}

pub proof fn lemma_digit_char_ascii(d: int)
    requires
        0 <= d < 10,
    ensures
        is_ascii_digit(digit_char(d)),
{
}

fn digit_str(d: u32) -> (r: &'static str)
    requires
        d < 10,
    ensures
        r@ =~= seq![digit_char(d as int)],
{
    proof {
        reveal_strlit("0");
        reveal_strlit("1");
        reveal_strlit("2");
        reveal_strlit("3");
        reveal_strlit("4");
        reveal_strlit("5");
        reveal_strlit("6");
        reveal_strlit("7");
        reveal_strlit("8");
        reveal_strlit("9");
    }
    if d == 0 {
        "0"
    } else if d == 1 {
        "1"
    } else if d == 2 {
        "2"
    } else if d == 3 {
        "3"
    } else if d == 4 {
        "4"
    } else if d == 5 {
        "5"
    } else if d == 6 {
        "6"
    } else if d == 7 {
        "7"
    } else if d == 8 {
        "8"
    } else {
        "9"
    }
}

/// Left-pad the passcode value with zeros to exactly six digits.
pub fn format_code(v: u32) -> (r: String)
    requires
        v < 1000000,
    ensures
        r@ == code_chars(v as int),
{
    let mut s = String::new();
    s.append(digit_str(v / 100000 % 10));
    s.append(digit_str(v / 10000 % 10));
    s.append(digit_str(v / 1000 % 10));
    s.append(digit_str(v / 100 % 10));
    s.append(digit_str(v / 10 % 10));
    s.append(digit_str(v % 10));
    proof {
        assert(s@ =~= code_chars(v as int));
    }
    s
}

/// The passcode that key `key` yields at time `now`.
pub open spec fn totp_code(key: Seq<u8>, now: u64) -> Seq<char> {
    code_chars(code_value(hmac_sha1_of(key, counter_bytes_spec((now / 30) as u64))))
}

/// Seconds of the current 30-second window that are still to come.
pub open spec fn spec_remaining(now: u64) -> int {
    30 - now as int % 30
}

/// Seconds left in the current 30-second time step.
///
/// A timestamp that falls exactly on a step boundary starts a fresh
/// window, so the whole 30 seconds remain.
pub fn remaining_seconds(now: u64) -> (r: u64)
    ensures
        r == spec_remaining(now),
        1 <= r <= 30,
        now % 30 == 0 ==> r == 30,
{
    30 - now % 30
}

/// Generate the current passcode and the seconds left in its window.
///
/// The code is always exactly six ASCII digits, for every key and every
/// timestamp.
pub fn generate(key: &Vec<u8>, now: u64) -> (r: (String, u64))
    ensures
        r.0@ == totp_code(key@, now),
        r.0@.len() == 6,
        forall|i: int| 0 <= i < 6 ==> is_ascii_digit(#[trigger] r.0@[i]),
        r.1 == spec_remaining(now),
        1 <= r.1 <= 30,
        now % 30 == 0 ==> r.1 == 30,
{
    let t = now / 30;
    let msg = counter_bytes(t);
    let digest = hmac_sha1(key, &msg);
    let v = truncate_digest(&digest);
    let code = format_code(v);
    let rem = remaining_seconds(now);
    proof {
        assert forall|i: int| 0 <= i < 6 implies is_ascii_digit(#[trigger] code@[i]) by {
            let cv = code_value(digest@);
            lemma_digit_char_ascii(cv / 100000 % 10);
            lemma_digit_char_ascii(cv / 10000 % 10);
            lemma_digit_char_ascii(cv / 1000 % 10);
            lemma_digit_char_ascii(cv / 100 % 10);
            lemma_digit_char_ascii(cv / 10 % 10);
            lemma_digit_char_ascii(cv % 10);
        }
    }
    (code, rem)
}

/// Generating twice from the same key and timestamp yields the same
/// code and the same remaining time: the outcome is a function of the
/// two inputs and of nothing else.
pub proof fn lemma_generate_deterministic(
    key: Seq<u8>,
    now: u64,
    code1: Seq<char>,
    rem1: int,
    code2: Seq<char>,
    rem2: int,
)
    requires
        code1 == totp_code(key, now),
        rem1 == spec_remaining(now),
        code2 == totp_code(key, now),
        rem2 == spec_remaining(now),
    ensures
        code1 == code2,
        rem1 == rem2,
{
}

} // verus!
