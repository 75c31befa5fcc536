//! Fixed-precision conversion of decimal coin amounts into integer amounts.

use vstd::prelude::*;

verus! {

/// The largest number of fractional digits an amount may carry.
pub const MAX_PRECISION: u8 = 18;

/// A non-negative decimal amount: `mantissa / 10^scale`.
#[derive(Clone, Copy, Debug, PartialEq, Eq, Structural)]
pub struct Coins {
    pub mantissa: u64,
    pub scale: u8,
}

/// `10^n`.
pub open spec fn pow10(n: nat) -> nat
    decreases n,
{
    if n == 0 {
        1
    } else {
        10 * pow10((n - 1) as nat)
    }
}

/// The integer amount of `coins` at `precision` fractional digits, truncated.
pub open spec fn transmutate_spec(precision: nat, coins: Coins) -> nat {
    ((coins.mantissa as nat) * pow10(precision)) / pow10(coins.scale as nat)
}

/// The decimal amount that an integer amount at `precision` digits stands for.
pub open spec fn coins_of_spec(precision: u8, amount: u64) -> Coins {
    Coins { mantissa: amount, scale: precision }
}

pub proof fn lemma_pow10_positive(n: nat)
    ensures
        pow10(n) >= 1,
    decreases n,
{
    if n > 0 {
        lemma_pow10_positive((n - 1) as nat);
    }
}

pub proof fn lemma_pow10_monotonic(a: nat, b: nat)
    requires
        a <= b,
    ensures
        pow10(a) <= pow10(b),
    decreases b,
{
    if a < b {
        lemma_pow10_monotonic(a, (b - 1) as nat);
        lemma_pow10_positive((b - 1) as nat);
    }
}

proof fn lemma_pow10_bound(n: nat)
    requires
        n <= MAX_PRECISION,
    ensures
        1 <= pow10(n) <= 1_000_000_000_000_000_000,
{
    lemma_pow10_positive(n);
    lemma_pow10_monotonic(n, 18);
    reveal_with_fuel(pow10, 19);
}

/// `10^n` as an integer of 128 bits.
fn pow10_exec(n: u8) -> (r: u128)
    requires
        n <= MAX_PRECISION,
    ensures
        r == pow10(n as nat),
        1 <= r <= 1_000_000_000_000_000_000,
{
    let mut r: u128 = 1;
    let mut i: u8 = 0;
    while i < n
        invariant
            i <= n <= MAX_PRECISION,
            r == pow10(i as nat),
        decreases n - i,
    {
        proof {
            lemma_pow10_bound((i + 1) as nat);
        }
        r = r * 10;
        i = i + 1;
    }
    proof {
        lemma_pow10_bound(n as nat);
    }
    r
}

/// Converts a decimal amount to the integer amount at `precision` fractional
/// digits, dropping any digits beyond that precision.
pub fn transmutate(precision: u8, coins: Coins) -> (r: u64)
    requires
        precision <= MAX_PRECISION,
        coins.scale <= MAX_PRECISION,
        transmutate_spec(precision as nat, coins) <= u64::MAX,
    ensures
        r == transmutate_spec(precision as nat, coins),
{
    let p = pow10_exec(precision);
    let s = pow10_exec(coins.scale);
    let m = coins.mantissa as u128;
    assert(m * p <= 0xffff_ffff_ffff_ffff * 1_000_000_000_000_000_000) by (nonlinear_arith)
        requires
            m <= 0xffff_ffff_ffff_ffff,
            p <= 1_000_000_000_000_000_000,
    ;
    let q = (m * p) / s;
    q as u64
}

/// The decimal amount that `amount` stands for at `precision` fractional digits.
pub fn coins_of(precision: u8, amount: u64) -> (r: Coins)
    ensures
        r == coins_of_spec(precision, amount),
{
    Coins { mantissa: amount, scale: precision }
}

/// Converting an integer amount back to decimal form and then to integer form
/// again, at the same precision, gives the same integer.
pub proof fn lemma_round_trip(precision: u8, coins: Coins)
    requires
        precision <= MAX_PRECISION,
        transmutate_spec(precision as nat, coins) <= u64::MAX,
    ensures
        transmutate_spec(
            precision as nat,
            coins_of_spec(precision, transmutate_spec(precision as nat, coins) as u64),
        ) == transmutate_spec(precision as nat, coins),
{
    let a = transmutate_spec(precision as nat, coins);
    let p = pow10(precision as nat);
    lemma_pow10_positive(precision as nat);
    assert((a * p) / p == a) by (nonlinear_arith)
        requires
            p >= 1,
    ;
}

} // verus!

verus! {

/// A decimal amount whose scale the converter accepts.
pub open spec fn coins_ok(c: Coins) -> bool {
    c.scale <= MAX_PRECISION
}

/// Sum of the integer amounts of a list of decimal amounts at `precision`.
pub open spec fn coins_total(precision: nat, s: Seq<Coins>) -> nat
    decreases s.len(),
{
    if s.len() == 0 {
        0
    } else {
        coins_total(precision, s.drop_last()) + transmutate_spec(precision, s.last())
    }
}

pub proof fn lemma_coins_total_prefix(precision: nat, s: Seq<Coins>, i: int)
    requires
        0 <= i <= s.len(),
    ensures
        coins_total(precision, s.take(i)) <= coins_total(precision, s),
    decreases s.len(),
{
    if i < s.len() {
        assert(s.drop_last().take(i) == s.take(i));
        lemma_coins_total_prefix(precision, s.drop_last(), i);
    } else {
        assert(s.take(i) == s);
    }
}

/// The integer amount of `coins` at `precision`, or `None` when the arguments
/// are out of the converter's range or the amount does not fit in 64 bits.
pub fn checked_transmutate(precision: u8, coins: Coins) -> (r: Option<u64>)
    ensures
        precision <= MAX_PRECISION && coins_ok(coins) && transmutate_spec(precision as nat, coins)
            <= u64::MAX ==> r == Some(transmutate_spec(precision as nat, coins) as u64),
        !(precision <= MAX_PRECISION && coins_ok(coins) && transmutate_spec(precision as nat, coins)
            <= u64::MAX) ==> r is None,
{
    if precision > MAX_PRECISION || coins.scale > MAX_PRECISION {
        return None;
    }
    let p = pow10_exec(precision);
    let s = pow10_exec(coins.scale);
    let m = coins.mantissa as u128;
    assert(m * p <= 0xffff_ffff_ffff_ffff * 1_000_000_000_000_000_000) by (nonlinear_arith)
        requires
            m <= 0xffff_ffff_ffff_ffff,
            p <= 1_000_000_000_000_000_000,
    ;
    let q = (m * p) / s;
    if q > 0xffff_ffff_ffff_ffff {
        None
    } else {
        Some(q as u64)
    }
}

} // verus!
