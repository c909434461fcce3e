//! The hash by which a client knows a genuine server.

use vstd::prelude::*;

verus! {

/// The remainder of `a` by `b` as the machine takes it: it has the sign
/// of `a`, and so much of `a` as `b` does not divide.
pub open spec fn remainder(a: int, b: int) -> int
    recommends
        b != 0,
{
    if a < 0 {
        -((-a) % b)
    } else {
        a % b
    }
}

/// The number by which the third factor of the hash is taken modulo.
pub open spec fn hash_modulus(challenge: int) -> int {
    (remainder(challenge + 1, 11) + 1) * 119
}

/// The hash of `challenge`.
pub open spec fn verification_hash(challenge: int) -> int {
    let c = challenge + 1;
    110905 + (remainder(c, 9) + 1) * remainder(11092004 - c, hash_modulus(challenge)) * 119
        + remainder(c, 2004)
}

/// Whether the hash of `challenge` can be computed in 32 bits: the
/// challenge is not the greatest `i32`, the difference that the hash
/// takes fits, and the modulus is not zero.
pub open spec fn hashable(challenge: int) -> bool {
    &&& -2136391644 <= challenge < i32::MAX
    &&& hash_modulus(challenge) != 0
}

/// A remainder is smaller than its divisor, and has the sign of its
/// dividend.
proof fn lemma_remainder_bounds(a: int, b: int)
    requires
        b != 0,
    ensures
        b > 0 ==> -b < remainder(a, b) < b,
        b < 0 ==> b < remainder(a, b) < -b,
        a >= 0 ==> remainder(a, b) >= 0,
        a <= 0 ==> remainder(a, b) <= 0,
{
    assert(forall|x: int|
        0 <= #[trigger] (x % b) && (b > 0 ==> x % b < b) && (b < 0 ==> x % b < -b))
        by (nonlinear_arith)
        requires
            b != 0,
    ;
    assert(0int % b == 0) by (nonlinear_arith)
        requires
            b != 0,
    ;
}

/// This hash function is how the game client checks that it's
/// communicating with a genuine server during connection initialization.
///
/// - The client sends an integer value to the server in the INIT_INIT
///   client packet, where it is referred to as the `challenge`
/// - The server hashes the value and sends the hash back in the
///   INIT_INIT server packet.
/// - The client hashes the value and compares it to the hash sent by the
///   server.
/// - If the hashes don't match, the client drops the connection.
///
/// # Warning
/// Oversized challenges may result in negative hash values, which cannot
/// be represented properly in the EO protocol. No challenge from 0 to
/// 11,092,003 does.
pub fn server_verification_hash(challenge: i32) -> (hash: i32)
    requires
        hashable(challenge as int),
    ensures
        hash == verification_hash(challenge as int),
        0 <= challenge < 11092004 ==> hash >= 110905,
{
    let c: i32 = challenge + 1;
    let factor: i32 = (c % 9) + 1;
    let modulus: i32 = ((c % 11) + 1) * 119;
    let difference: i32 = 11092004 - c;
    let rest: i32 = difference % modulus;
    proof {
        lemma_remainder_bounds(difference as int, modulus as int);
        assert(-11781 < factor * rest < 11781) by (nonlinear_arith)
            requires
                -7 <= factor <= 9,
                -1309 < rest < 1309,
        ;
        if 0 <= challenge < 11092004 {
            assert(factor * rest >= 0) by (nonlinear_arith)
                requires
                    factor >= 1,
                    rest >= 0,
            ;
        }
    }
    110905 + factor * rest * 119 + (c % 2004)
}

} // verus!
