//! Time-derived identifier generation: an identifier is a 64-digit
//! hexadecimal encoding of the current time in nanoseconds since the Unix
//! epoch, and its companion version marker is a fixed prefix followed by a
//! narrower encoding of the same timestamp.
//!
//! Two calls landing on the same clock tick produce colliding identifiers:
//! uniqueness is best effort, never guaranteed.

use vstd::prelude::*;
use vstd::arithmetic::div_mod::lemma_multiply_divide_lt;
use vstd::string::StringExecFns;
use crate::hex::{hex_seq, hex_digits, hex_encode, lemma_hex_seq_len};

verus! {

/// Powers of sixteen.
pub open spec fn pow16(k: nat) -> nat
    decreases k,
{
    if k == 0 {
        1
    } else {
        16 * pow16((k - 1) as nat)
    }
}

/// The identifier derived from timestamp `t`: its hexadecimal encoding,
/// zero-padded to 64 digits.
pub open spec fn id_seq(t: u128) -> Seq<char> {
    hex_seq(t as nat, 64)
}

/// The version marker derived from timestamp `t`: the fixed prefix
/// `commit_`, then the hexadecimal encoding of `t` zero-padded to 16 digits.
pub open spec fn marker_seq(t: u128) -> Seq<char> {
    "commit_"@ + hex_seq(t as nat, 16)
}

/// A value below `pow16(k)` needs at most `k` hexadecimal digits.
proof fn lemma_hex_digits_bound(v: nat, k: nat)
    requires
        1 <= k,
        v < pow16(k),
    ensures
        hex_digits(v) <= k,
    decreases k,
{
    if v < 16 {
    } else {
        assert(pow16(k) == 16 * pow16((k - 1) as nat));
        if k == 1 {
            assert(pow16(0) == 1);
            assert(false);
        }
        lemma_multiply_divide_lt(v as int, 16, pow16((k - 1) as nat) as int);
        lemma_hex_digits_bound(v / 16, (k - 1) as nat);
    }
}

/// `pow16` turns addition of exponents into multiplication.
proof fn lemma_pow16_adds(a: nat, b: nat)
    ensures
        pow16(a + b) == pow16(a) * pow16(b),
    decreases a,
{
    if a == 0 {
        assert(pow16(a) == 1);
        assert(a + b == b);
        assert(pow16(a + b) == pow16(b));
    } else {
        lemma_pow16_adds((a - 1) as nat, b);
        assert(((a - 1) as nat) + b == (a + b - 1) as nat);
        assert(pow16((a + b - 1) as nat) == pow16((a - 1) as nat) * pow16(b));
        assert(pow16(a + b) == 16 * pow16((a + b - 1) as nat));
        assert(pow16(a) == 16 * pow16((a - 1) as nat));
        assert((16 * pow16((a - 1) as nat)) * pow16(b) == 16 * (pow16((a - 1) as nat)
            * pow16(b))) by (nonlinear_arith);
        assert(pow16(a + b) == pow16(a) * pow16(b));
    }
}

/// Every 128-bit value fits in 32 hexadecimal digits.
proof fn lemma_pow16_32_exceeds_u128()
    ensures
        u128::MAX < pow16(32),
{
    assert(pow16(1) == 16 * pow16(0));
    assert(pow16(2) == 16 * pow16(1));
    assert(pow16(3) == 16 * pow16(2));
    assert(pow16(4) == 16 * pow16(3));
    assert(pow16(4) == 0x10000);
    lemma_pow16_adds(4, 4);
    assert(pow16(8) == 0x100000000);
    lemma_pow16_adds(8, 8);
    assert(pow16(16) == 0x10000000000000000);
    lemma_pow16_adds(16, 16);
    assert(pow16(32) == 0x100000000000000000000000000000000);
}

/// An identifier is always exactly 64 digits: no 128-bit timestamp needs
/// more, and shorter encodings are zero-padded.
pub proof fn lemma_id_seq_len(t: u128)
    ensures
        id_seq(t).len() == 64,
{
    lemma_pow16_32_exceeds_u128();
    lemma_hex_digits_bound(t as nat, 32);
    lemma_hex_seq_len(t as nat, 64);
}

/// A point in time as the system clock reports it; opaque to the logic.
#[verifier::external_type_specification]
#[verifier::external_body]
pub struct ExSystemTime(std::time::SystemTime);

/// The error `duration_since` returns when the clock reads earlier than the
/// reference point; opaque, only discarded.
#[verifier::external_type_specification]
#[verifier::external_body]
pub struct ExSystemTimeError(std::time::SystemTimeError);

/// Relies on std::time::SystemTime::now: the current reading of the system
/// clock.  Nothing is promised of the value: it moves with the machine's
/// clock.
#[verifier::external_body]
fn clock_now() -> std::time::SystemTime {
    std::time::SystemTime::now()
}

/// Relies on std::time::UNIX_EPOCH: the fixed epoch that timestamps are
/// measured from.
#[verifier::external_body]
fn unix_epoch() -> std::time::SystemTime {
    std::time::UNIX_EPOCH
}

/// Relies on SystemTime::duration_since: the span from `earlier` to `t`, or
/// an error when the clock read by `t` lies before `earlier`.  Nothing is
/// promised of the value.
pub assume_specification[ std::time::SystemTime::duration_since ](
    t: &std::time::SystemTime,
    earlier: std::time::SystemTime,
) -> Result<std::time::Duration, std::time::SystemTimeError>;

/// Relies on Duration::as_nanos: the whole span in nanoseconds.  Nothing
/// further is promised of the value.
pub assume_specification[ std::time::Duration::as_nanos ](
    d: &std::time::Duration,
) -> u128;

/// The current time as whole nanoseconds since the Unix epoch, or zero when
/// the clock reads earlier than the epoch.
pub(crate) fn now_nanos() -> u128 {
    let now = clock_now();
    match now.duration_since(unix_epoch()) {
        Result::Ok(d) => d.as_nanos(),
        Result::Err(_) => 0,
    }
}

/// The identifier for timestamp `t`.
pub fn make_id(t: u128) -> (s: String)
    ensures
        s@ == id_seq(t),
        s@.len() == 64,
{
    proof {
        lemma_id_seq_len(t);
    }
    hex_encode(t, 64)
}

/// The version marker for timestamp `t`.
pub fn make_marker(t: u128) -> (s: String)
    ensures
        s@ == marker_seq(t),
{
    let mut s = String::new().concat("commit_");
    s.append(hex_encode(t, 16).as_str());
    proof {
        assert(s@ =~= marker_seq(t));
    }
    s
}

/// Generates a fresh identifier and version marker, both derived from a
/// single reading of the clock.  Values are monotonically non-decreasing
/// under strictly sequential calls only as far as the clock is; concurrent
/// callers may collide.
pub fn generate() -> (r: (String, String))
    ensures
        exists|t: u128| r.0@ == id_seq(t) && r.1@ == marker_seq(t),
        r.0@.len() == 64,
{
    let t = now_nanos();
    let id = make_id(t);
    let marker = make_marker(t);
    proof {
        assert(id@ == id_seq(t) && marker@ == marker_seq(t));
    }
    (id, marker)
}

} // verus!
