//! The time layer (RFC 6238): an instant is bucketed into a counter by the
//! time step, and the counter drives the HOTP primitive.

use vstd::prelude::*;
use vstd::string::*;
use crate::TotpError;
use crate::hotp::{
    hotp_code, hotp_string, hotp_value, dec_string, is_digit_char, lemma_dec_string_digits,
    lemma_dec_string_len,
};

verus! {

/// The code for the bucket that `now_seconds` falls in: the HOTP code of the
/// counter `now_seconds / step_seconds`.
pub open spec fn totp_string(key: Seq<u8>, now_seconds: u64, step_seconds: u64, digits: nat) -> Seq<
    char,
>
    recommends
        step_seconds > 0,
{
    hotp_string(key, (now_seconds as int / step_seconds as int) as u64, digits)
}

/// Relies on std::time's `SystemTime::now` and `duration_since`: the seconds
/// elapsed since the Unix epoch, or `None` when the clock reads earlier than
/// the epoch. Nothing is promised of the value: the clock may move.
#[verifier::external_body]
fn unix_now_seconds() -> (r: Option<u64>) {
    match std::time::SystemTime::now().duration_since(std::time::UNIX_EPOCH) {
        Ok(elapsed) => Some(elapsed.as_secs()),
        Err(_) => None,
    }
}

/// Produces the code for the given secret and instant.
///
/// `skew_steps` is carried for parameter-set compatibility with
/// verification-window semantics; generating the current code does not scan
/// a window, so it does not influence the result.
pub fn generate_code(
    digit_count: usize,
    skew_steps: u8,
    time_step_seconds: u64,
    secret: &[u8],
    now_seconds: u64,
) -> (r: Result<String, TotpError>)
    ensures
        (digit_count == 0 || digit_count > 10 || time_step_seconds == 0) ==> r == Err::<
            String,
            TotpError,
        >(TotpError::InvalidParameters),
        (1 <= digit_count <= 10 && time_step_seconds > 0 && secret@.len() == 0) ==> r == Err::<
            String,
            TotpError,
        >(TotpError::InvalidSecret),
        (1 <= digit_count <= 10 && time_step_seconds > 0 && secret@.len() > 0) ==> r is Ok
            && r->Ok_0@ == totp_string(secret@, now_seconds, time_step_seconds, digit_count as nat),
{
    if time_step_seconds == 0 {
        return Err(TotpError::InvalidParameters);
    }
    let counter: u64 = now_seconds / time_step_seconds;
    hotp_code(secret, counter, digit_count)
}

/// Produces the code for the current instant. The secret arrives as text and
/// is keyed by its UTF-8 bytes.
///
/// `time_threshold` is the skew tolerance and `time_expiry` the time step,
/// in seconds; generating the current code does not use the tolerance.
pub fn get_pin_number(otp_digit: usize, time_threshold: u8, time_expiry: u64, secret: String) -> (r:
    Result<String, TotpError>)
    ensures
        (otp_digit == 0 || otp_digit > 10 || time_expiry == 0) ==> r == Err::<String, TotpError>(
            TotpError::InvalidParameters,
        ),
        (1 <= otp_digit <= 10 && time_expiry > 0 && vstd::utf8::encode_utf8(secret@).len() == 0)
            ==> r == Err::<String, TotpError>(TotpError::InvalidSecret),
        (1 <= otp_digit <= 10 && time_expiry > 0 && vstd::utf8::encode_utf8(secret@).len() > 0)
            ==> r == Err::<String, TotpError>(TotpError::ClockUnavailable) || (r is Ok && exists|
            t: u64,
        | r->Ok_0@ == totp_string(
            vstd::utf8::encode_utf8(secret@),
            t,
            time_expiry,
            otp_digit as nat,
        )),
{
    if otp_digit == 0 || otp_digit > 10 || time_expiry == 0 {
        return Err(TotpError::InvalidParameters);
    }
    let key: Vec<u8> = secret.as_str().as_bytes_vec();
    if key.len() == 0 {
        return Err(TotpError::InvalidSecret);
    }
    match unix_now_seconds() {
        None => Err(TotpError::ClockUnavailable),
        Some(now) => {
            let r = generate_code(otp_digit, time_threshold, time_expiry, key.as_slice(), now);
            proof {
                assert(r->Ok_0@ == totp_string(
                    vstd::utf8::encode_utf8(secret@),
                    now,
                    time_expiry,
                    otp_digit as nat,
                ));
            }
            r
        },
    }
}

/// Determinism: two instants that fall in the same time bucket yield the
/// identical code, for the same secret, digit count and time step.
pub proof fn lemma_same_bucket_same_code(
    key: Seq<u8>,
    t1: u64,
    t2: u64,
    step_seconds: u64,
    digits: nat,
)
    requires
        step_seconds > 0,
        t1 as int / step_seconds as int == t2 as int / step_seconds as int,
    ensures
        totp_string(key, t1, step_seconds, digits) == totp_string(key, t2, step_seconds, digits),
{
}

/// Length: the code always has exactly `digits` characters, leading zeros
/// included.
pub proof fn lemma_code_length(key: Seq<u8>, now_seconds: u64, step_seconds: u64, digits: nat)
    requires
        step_seconds > 0,
    ensures
        totp_string(key, now_seconds, step_seconds, digits).len() == digits,
{
    let counter = (now_seconds as int / step_seconds as int) as u64;
    lemma_dec_string_len(hotp_value(key, counter, digits), digits);
}

/// Digits only: every character of the code is one of '0' through '9'.
pub proof fn lemma_code_digits_only(key: Seq<u8>, now_seconds: u64, step_seconds: u64, digits: nat)
    requires
        step_seconds > 0,
    ensures
        forall|i: int|
            0 <= i < totp_string(key, now_seconds, step_seconds, digits).len()
                ==> is_digit_char(#[trigger] totp_string(key, now_seconds, step_seconds, digits)[i]),
{
    let counter = (now_seconds as int / step_seconds as int) as u64;
    lemma_dec_string_digits(hotp_value(key, counter, digits), digits);
}

/// With a 30-second step, the first and the last second of one bucket yield
/// the same code: seconds `30 * bucket` and `30 * bucket + 29` agree.
pub proof fn lemma_bucket_endpoints(key: Seq<u8>, bucket: u64, digits: nat)
    requires
        30 * bucket + 29 <= u64::MAX,
    ensures
        totp_string(key, (30 * bucket) as u64, 30, digits) == totp_string(
            key,
            (30 * bucket + 29) as u64,
            30,
            digits,
        ),
{
    vstd::arithmetic::div_mod::lemma_div_multiples_vanish_fancy(bucket as int, 0, 30);
    vstd::arithmetic::div_mod::lemma_div_multiples_vanish_fancy(bucket as int, 29, 30);
    lemma_same_bucket_same_code(key, (30 * bucket) as u64, (30 * bucket + 29) as u64, 30, digits);
}

} // verus!
