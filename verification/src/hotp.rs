//! The HOTP primitive (RFC 4226): an HMAC-SHA-1 digest of a big-endian
//! counter, dynamically truncated to a 31-bit integer and formatted as a
//! zero-padded decimal string.

use vstd::prelude::*;
use vstd::string::*;
use crate::TotpError;

verus! {

/// 10 to the power `n`.
pub open spec fn pow10(n: nat) -> nat
    decreases n,
{
    if n == 0 {
        1
    } else {
        10 * pow10((n - 1) as nat)
    }
}

pub proof fn lemma_pow10_pos(n: nat)
    ensures
        pow10(n) >= 1,
    decreases n,
{
    if n > 0 {
        lemma_pow10_pos((n - 1) as nat);
    }
}

pub proof fn lemma_pow10_mono(i: nat, j: nat)
    requires
        i <= j,
    ensures
        pow10(i) <= pow10(j),
    decreases j,
{
    if i < j {
        lemma_pow10_mono(i, (j - 1) as nat);
        lemma_pow10_pos((j - 1) as nat);
    }
}

/// The eight bytes of `c`, most significant first.
pub open spec fn be64_bytes(c: u64) -> Seq<u8> {
    seq![
        (c >> 56) as u8,
        (c >> 48) as u8,
        (c >> 40) as u8,
        (c >> 32) as u8,
        (c >> 24) as u8,
        (c >> 16) as u8,
        (c >> 8) as u8,
        c as u8,
    ]
}

/// Encodes the counter as its eight big-endian bytes.
pub fn counter_bytes(counter: u64) -> (r: Vec<u8>)
    ensures
        r@ == be64_bytes(counter),
{
    let mut v: Vec<u8> = Vec::new();
    v.push((counter >> 56) as u8);
    v.push((counter >> 48) as u8);
    v.push((counter >> 40) as u8);
    v.push((counter >> 32) as u8);
    v.push((counter >> 24) as u8);
    v.push((counter >> 16) as u8);
    v.push((counter >> 8) as u8);
    v.push(counter as u8);
    proof {
        assert(v@ =~= be64_bytes(counter));
    }
    v
}

/// Computes 10 to the power `n` exactly.
pub fn pow10_u64(n: usize) -> (r: u64)
    requires
        n <= 10,
    ensures
        r == pow10(n as nat),
        r >= 1,
{
    let mut r: u64 = 1;
    let mut i: usize = 0;
    while i < n
        invariant
            i <= n,
            n <= 10,
            r == pow10(i as nat),
        decreases n - i,
    {
        proof {
            lemma_pow10_mono(i as nat, 9);
            assert(pow10(9) == 1000000000) by {
                reveal_with_fuel(pow10, 10);
            }
        }
        r = r * 10;
        i = i + 1;
    }
    proof {
        lemma_pow10_pos(n as nat);
    }
    r
}

/// The dynamic-truncation offset: the low four bits of the digest's last
/// byte.
pub open spec fn dt_offset(digest: Seq<u8>) -> int {
    (digest[digest.len() - 1] & 0x0f) as int
}

/// Dynamic truncation (RFC 4226): the four bytes at the offset, read
/// big-endian with the top bit masked off.
pub open spec fn truncated31(digest: Seq<u8>) -> u32
    recommends
        digest.len() == 20,
{
    let o = dt_offset(digest);
    (((digest[o] & 0x7f) as u32) << 24) | ((digest[o + 1] as u32) << 16) | ((digest[o + 2]
        as u32) << 8) | (digest[o + 3] as u32)
}

proof fn lemma_low_nibble_bound(b: u8)
    ensures
        (b & 0x0f) < 16,
{
    assert((b & 0x0f) < 16) by (bit_vector);
}

proof fn lemma_truncated_fields_bound(b0: u8, b1: u8, b2: u8, b3: u8)
    ensures
        ((((b0 & 0x7f) as u32) << 24) | ((b1 as u32) << 16) | ((b2 as u32) << 8) | (b3
            as u32)) < 0x80000000,
{
    assert(((((b0 & 0x7f) as u32) << 24) | ((b1 as u32) << 16) | ((b2 as u32) << 8) | (b3
        as u32)) < 0x80000000) by (bit_vector);
}

/// Applies dynamic truncation to a 20-byte digest.
pub fn truncate_digest(digest: &Vec<u8>) -> (r: u32)
    requires
        digest@.len() == 20,
    ensures
        r == truncated31(digest@),
        r < 0x80000000,
{
    let last: u8 = digest[19];
    let offset: usize = (last & 0x0f) as usize;
    proof {
        lemma_low_nibble_bound(last);
    }
    let b0: u8 = digest[offset];
    let b1: u8 = digest[offset + 1];
    let b2: u8 = digest[offset + 2];
    let b3: u8 = digest[offset + 3];
    let r: u32 = (((b0 & 0x7f) as u32) << 24) | ((b1 as u32) << 16) | ((b2 as u32) << 8) | (b3
        as u32);
    proof {
        lemma_truncated_fields_bound(b0, b1, b2, b3);
    }
    r
}

/// The character for one decimal digit.
pub open spec fn digit_char(d: int) -> char {
    if d == 0 {
        '0'
    } else if d == 1 {
        '1'
    } else if d == 2 {
        '2'
    } else if d == 3 {
        '3'
    } else if d == 4 {
        '4'
    } else if d == 5 {
        '5'
    } else if d == 6 {
        '6'
    } else if d == 7 {
        '7'
    } else if d == 8 {
        '8'
    } else {
        '9'
    }
}

/// True of the ten decimal digit characters.
pub open spec fn is_digit_char(c: char) -> bool {
    c == '0' || c == '1' || c == '2' || c == '3' || c == '4' || c == '5' || c == '6' || c == '7'
        || c == '8' || c == '9'
}

/// The last `n` decimal digits of `v`, most significant first.
pub open spec fn dec_string(v: nat, n: nat) -> Seq<char>
    decreases n,
{
    if n == 0 {
        Seq::empty()
    } else {
        dec_string(v / 10, (n - 1) as nat).push(digit_char((v % 10) as int))
    }
}

pub proof fn lemma_dec_string_len(v: nat, n: nat)
    ensures
        dec_string(v, n).len() == n,
    decreases n,
{
    if n > 0 {
        lemma_dec_string_len(v / 10, (n - 1) as nat);
    }
}

pub proof fn lemma_dec_string_digits(v: nat, n: nat)
    ensures
        forall|i: int| 0 <= i < dec_string(v, n).len() ==> is_digit_char(#[trigger] dec_string(
            v,
            n,
        )[i]),
    decreases n,
{
    if n > 0 {
        lemma_dec_string_digits(v / 10, (n - 1) as nat);
        lemma_dec_string_len(v / 10, (n - 1) as nat);
    }
}

/// Peeling a digit off the front: the `n + 1`-digit rendering of `v` is the
/// digit of weight `pow10(n)` followed by the `n`-digit rendering.
proof fn lemma_dec_string_prepend(v: nat, n: nat)
    ensures
        dec_string(v, n + 1) =~= seq![digit_char(((v / pow10(n)) % 10) as int)] + dec_string(
            v,
            n,
        ),
    decreases n,
{
    if n == 0 {
        reveal_with_fuel(dec_string, 3);
        assert(pow10(0) == 1);
        assert(v / 1 == v);
        assert(dec_string(v, 1) =~= seq![digit_char((v % 10) as int)]);
    } else {
        let m = (n - 1) as nat;
        lemma_dec_string_prepend(v / 10, m);
        assert(pow10(n) == 10 * pow10(m));
        assert(v / 10 / pow10(m) == v / pow10(n)) by {
            lemma_pow10_pos(m);
            vstd::arithmetic::div_mod::lemma_div_denominator(v as int, 10, pow10(m) as int);
        }
        assert(dec_string(v, n + 1) == dec_string(v / 10, n).push(digit_char((v % 10) as int)));
        assert(dec_string(v / 10, n) =~= seq![digit_char(((v / pow10(n)) % 10) as int)]
            + dec_string(v / 10, m));
        assert(dec_string(v, n) == dec_string(v / 10, m).push(digit_char((v % 10) as int)));
        assert((seq![digit_char(((v / pow10(n)) % 10) as int)] + dec_string(v / 10, m)).push(
            digit_char((v % 10) as int),
        ) =~= seq![digit_char(((v / pow10(n)) % 10) as int)] + dec_string(v / 10, m).push(
            digit_char((v % 10) as int),
        ));
    }
}

/// The one-character string for one decimal digit.
fn digit_str(d: u64) -> (r: &'static str)
    requires
        d < 10,
    ensures
        r@ == seq![digit_char(d as int)],
{
    proof {
        reveal_strlit("0");
        reveal_strlit("1");
        reveal_strlit("2");
        reveal_strlit("3");
        reveal_strlit("4");
        reveal_strlit("5");
        reveal_strlit("6");
        reveal_strlit("7");
        reveal_strlit("8");
        reveal_strlit("9");
    }
    match d {
        0 => "0",
        1 => "1",
        2 => "2",
        3 => "3",
        4 => "4",
        5 => "5",
        6 => "6",
        7 => "7",
        8 => "8",
        _ => "9",
    }
}

/// Renders `value` as exactly `digits` decimal characters, left-padded with
/// zeros.
pub fn format_code(value: u64, digits: usize) -> (r: String)
    requires
        digits <= 10,
    ensures
        r@ == dec_string(value as nat, digits as nat),
{
    let mut s: String = String::new();
    let mut p: u64 = 1;
    let mut i: usize = 0;
    while i < digits
        invariant
            i <= digits,
            digits <= 10,
            p == pow10(i as nat),
            s@ == dec_string(value as nat, i as nat),
        decreases digits - i,
    {
        proof {
            lemma_pow10_pos(i as nat);
            lemma_pow10_mono(i as nat, 9);
            assert(pow10(9) == 1000000000) by {
                reveal_with_fuel(pow10, 10);
            }
        }
        let d: u64 = (value / p) % 10;
        let ds: &str = digit_str(d);
        let t: String = String::from_str(ds);
        s = t.concat(s.as_str());
        proof {
            lemma_dec_string_prepend(value as nat, i as nat);
        }
        p = p * 10;
        i = i + 1;
    }
    s
}

/// A name for what the keyed digest returns: HMAC-SHA-1 depends on the key
/// and the message alone.
pub uninterp spec fn hmac_sha1_of(key: Seq<u8>, message: Seq<u8>) -> Seq<u8>;

/// Relies on hmac's `Hmac` instantiated at sha1's `Sha1`: the HMAC-SHA-1 tag
/// of the message under the key, always 20 bytes (SHA-1's output size), and a
/// pure function of the two arguments. `new_from_slice` accepts keys of any
/// length for HMAC.
#[verifier::external_body]
fn hmac_sha1(key: &[u8], message: &[u8]) -> (r: Vec<u8>)
    ensures
        r@ == hmac_sha1_of(key@, message@),
        r@.len() == 20,
{
    let mut mac = <hmac::Hmac<sha1::Sha1> as hmac::KeyInit>::new_from_slice(key)
        .expect("HMAC accepts keys of any length");
    hmac::Mac::update(&mut mac, message);
    hmac::Mac::finalize(mac).into_bytes().to_vec()
}

/// The truncated 31-bit value of the digest for `key` and `counter`, reduced
/// modulo `10^digits`.
pub open spec fn hotp_value(key: Seq<u8>, counter: u64, digits: nat) -> nat {
    (truncated31(hmac_sha1_of(key, be64_bytes(counter))) as nat) % pow10(digits)
}

/// The HOTP code for `key` and `counter`: `digits` decimal characters.
pub open spec fn hotp_string(key: Seq<u8>, counter: u64, digits: nat) -> Seq<char> {
    dec_string(hotp_value(key, counter, digits), digits)
}

/// Produces the HOTP code for the given key and counter.
pub fn hotp_code(secret: &[u8], counter: u64, digit_count: usize) -> (r: Result<
    String,
    TotpError,
>)
    ensures
        (digit_count == 0 || digit_count > 10) ==> r == Err::<String, TotpError>(
            TotpError::InvalidParameters,
        ),
        (1 <= digit_count <= 10 && secret@.len() == 0) ==> r == Err::<String, TotpError>(
            TotpError::InvalidSecret,
        ),
        (1 <= digit_count <= 10 && secret@.len() > 0) ==> r is Ok && r->Ok_0@ == hotp_string(
            secret@,
            counter,
            digit_count as nat,
        ),
{
    if digit_count == 0 || digit_count > 10 {
        return Err(TotpError::InvalidParameters);
    }
    if secret.len() == 0 {
        return Err(TotpError::InvalidSecret);
    }
    let message: Vec<u8> = counter_bytes(counter);
    let digest: Vec<u8> = hmac_sha1(secret, message.as_slice());
    let truncated: u32 = truncate_digest(&digest);
    let modulus: u64 = pow10_u64(digit_count);
    let value: u64 = (truncated as u64) % modulus;
    let code: String = format_code(value, digit_count);
    Ok(code)
}

} // verus!
