//! The base field underlying all trace values and trace polynomials.
//!
//! Elements live in the prime field of order `2^64 - 2^32 + 1`; the field has
//! a multiplicative subgroup of order `2^32`, so every trace domain whose
//! length is a power of two (up to `2^32`) has a generator, obtained with
//! [`Felt::get_root_of_unity`].

use vstd::arithmetic::div_mod::{
    lemma_fundamental_div_mod, lemma_mod_twice, lemma_mul_mod_noop_general, lemma_small_mod,
};
use vstd::arithmetic::power::{
    lemma1_pow, lemma_pow0, lemma_pow1, lemma_pow_adds, lemma_pow_mod_noop, lemma_pow_multiplies,
    pow,
};
use vstd::arithmetic::power2::{
    lemma2_to64, lemma2_to64_rest, lemma_pow2_adds, lemma_pow2_strictly_increases,
    lemma_pow2_unfold, pow2,
};
use vstd::prelude::*;

verus! {

/// The prime modulus of the base field: `2^64 - 2^32 + 1`.
pub const MODULUS: u64 = 0xffff_ffff_0000_0001;

/// A fixed generator of the multiplicative subgroup of order `2^32`.
pub const TWO_ADIC_ROOT_OF_UNITY: u64 = 7277203076849721926;

/// The largest `k` such that the field has a multiplicative subgroup of order `2^k`.
pub const TWO_ADICITY: u32 = 32;

/// `b^e` reduced into the field.
pub open spec fn pow_mod(b: nat, e: nat) -> nat {
    (pow(b as int, e) % (MODULUS as int)) as nat
}

/// The canonical generator of a multiplicative subgroup of order `2^n`:
/// the two-adic generator raised to the power `2^(TWO_ADICITY - n)`.
pub open spec fn root_of_unity_spec(n: nat) -> nat
    recommends
        n <= TWO_ADICITY,
{
    pow_mod(TWO_ADIC_ROOT_OF_UNITY as nat, pow2((TWO_ADICITY - n) as nat))
}

/// Whether `n` is a power of two.
pub open spec fn is_power_of_two(n: nat) -> bool
    decreases n,
{
    if n == 0 {
        false
    } else if n == 1 {
        true
    } else {
        n % 2 == 0 && is_power_of_two(n / 2)
    }
}

/// The base-two logarithm of `n`, rounding down.
pub open spec fn log2_spec(n: nat) -> nat
    decreases n,
{
    if n <= 1 {
        0
    } else {
        1 + log2_spec(n / 2)
    }
}

/// An element of the base field, stored in canonical form (a value below
/// [`MODULUS`]). Its view is that canonical value.
#[derive(Clone, Copy, PartialEq, Eq, Structural, Debug)]
pub struct Felt {
    value: u64,
}

impl View for Felt {
    type V = nat;

    closed spec fn view(&self) -> nat {
        self.value as nat
    }
}

impl Felt {
    /// The element whose canonical value is `value` reduced by the modulus.
    pub fn new(value: u64) -> (r: Felt)
        ensures
            r@ == value as nat % (MODULUS as nat),
    {
        Felt { value: value % MODULUS }
    }

    /// The additive identity.
    pub fn zero() -> (r: Felt)
        ensures
            r@ == 0,
    {
        Felt { value: 0 }
    }

    /// The multiplicative identity.
    pub fn one() -> (r: Felt)
        ensures
            r@ == 1,
    {
        Felt { value: 1 }
    }

    /// The canonical value of the element.
    pub fn as_int(&self) -> (r: u64)
        ensures
            r as nat == self@,
    {
        self.value
    }

    /// The field sum of the two elements.
    pub fn add(self, rhs: Felt) -> (r: Felt)
        ensures
            r@ == (self@ + rhs@) % (MODULUS as nat),
    {
        let s: u128 = self.value as u128 + rhs.value as u128;
        Felt { value: (s % (MODULUS as u128)) as u64 }
    }

    /// The field product of the two elements.
    pub fn mul(self, rhs: Felt) -> (r: Felt)
        ensures
            r@ == (self@ * rhs@) % (MODULUS as nat),
    {
        proof {
            vstd::arithmetic::mul::lemma_mul_upper_bound(
                self.value as int,
                u64::MAX as int,
                rhs.value as int,
                u64::MAX as int,
            );
        }
        let p: u128 = self.value as u128 * rhs.value as u128;
        Felt { value: (p % (MODULUS as u128)) as u64 }
    }

    /// The element raised to the given power, by square and multiply.
    pub fn exp(self, power: u64) -> (r: Felt)
        ensures
            r@ == pow_mod(self@, power as nat),
        decreases power,
    {
        if power == 0 {
            proof {
                lemma_pow0(self@ as int);
                lemma_small_mod(1nat, MODULUS as nat);
            }
            Felt { value: 1 }
        } else {
            let half = self.exp(power / 2);
            let sq = half.mul(half);
            proof {
                lemma_pow_mod_step(self@, power as nat);
            }
            if power % 2 == 1 {
                sq.mul(self)
            } else {
                sq
            }
        }
    }

    /// The canonical generator of the multiplicative subgroup of order `2^n`.
    pub fn get_root_of_unity(n: u32) -> (r: Felt)
        requires
            n <= TWO_ADICITY,
        ensures
            r@ == root_of_unity_spec(n as nat),
    {
        let exponent = pow2_u64((TWO_ADICITY - n) as u64);
        let base = Felt { value: TWO_ADIC_ROOT_OF_UNITY };
        base.exp(exponent)
    }
}

/// `2^k` as a machine integer.
fn pow2_u64(k: u64) -> (r: u64)
    requires
        k <= 63,
    ensures
        r as nat == pow2(k as nat),
{
    let mut r: u64 = 1;
    let mut i: u64 = 0;
    proof {
        lemma2_to64();
    }
    while i < k
        invariant
            i <= k,
            k <= 63,
            r as nat == pow2(i as nat),
        decreases k - i,
    {
        proof {
            lemma2_to64_rest();
            if (i as nat) < 63 {
                lemma_pow2_strictly_increases(i as nat, 63);
            }
            lemma_pow2_unfold((i + 1) as nat);
        }
        r = r * 2;
        i = i + 1;
    }
    r
}

/// The base-two logarithm of a power of two.
pub fn log2(n: usize) -> (r: u32)
    requires
        is_power_of_two(n as nat),
    ensures
        r as nat == log2_spec(n as nat),
        pow2(r as nat) == n as nat,
{
    let mut m: usize = n;
    let mut r: u32 = 0;
    proof {
        lemma2_to64();
    }
    while m > 1
        invariant
            m >= 1,
            is_power_of_two(m as nat),
            log2_spec(n as nat) == r + log2_spec(m as nat),
            pow2(r as nat) * (m as nat) == n as nat,
            r < 64,
        decreases m,
    {
        proof {
            lemma_pow2_unfold((r + 1) as nat);
            // The updated count stays below 64 because 2^r never exceeds n.
            if r + 1 >= 64 {
                lemma2_to64_rest();
                assert(pow2((r + 1) as nat) >= pow2(64));
                assert(pow2((r + 1) as nat) * ((m / 2) as nat) >= pow2(64)) by (nonlinear_arith)
                    requires
                        pow2((r + 1) as nat) >= pow2(64),
                        (m / 2) as nat >= 1,
                ;
            }
            assert(pow2((r + 1) as nat) * ((m / 2) as nat) == pow2(r as nat) * (m as nat))
                by (nonlinear_arith)
                requires
                    pow2((r + 1) as nat) == 2 * pow2(r as nat),
                    m as nat % 2 == 0,
                    m >= 1,
            ;
        }
        m = m / 2;
        r = r + 1;
    }
    proof {
        vstd::arithmetic::mul::lemma_mul_basics(pow2(r as nat) as int);
    }
    r
}

/// On a power of two, the base-two logarithm inverts exponentiation.
pub proof fn lemma_log2_pow2(n: nat)
    requires
        is_power_of_two(n),
    ensures
        pow2(log2_spec(n)) == n,
    decreases n,
{
    if n == 1 {
        lemma2_to64();
    } else {
        lemma_log2_pow2(n / 2);
        lemma_pow2_unfold(log2_spec(n));
    }
}

/// Exponents add under multiplication inside the field:
/// `b^e1 * b^e2 == b^(e1 + e2)`, everything reduced by the modulus.
pub proof fn lemma_pow_mod_add(b: nat, e1: nat, e2: nat)
    ensures
        (pow_mod(b, e1) * pow_mod(b, e2)) % (MODULUS as nat) == pow_mod(b, e1 + e2),
{
    lemma_pow_adds(b as int, e1, e2);
    lemma_mul_mod_noop_general(pow(b as int, e1), pow(b as int, e2), MODULUS as int);
}

/// The two-adic generator raised to `2^32` is the multiplicative identity,
/// shown by an explicit repeated-squaring chain.
#[verifier::rlimit(60)]
proof fn lemma_two_adic_root_order()
    ensures
        pow_mod(TWO_ADIC_ROOT_OF_UNITY as nat, pow2(TWO_ADICITY as nat)) == 1,
{
    let g = TWO_ADIC_ROOT_OF_UNITY as nat;
    lemma2_to64();
    assert(pow_mod(g, 1) == g) by {
        lemma_pow1(g as int);
        lemma_small_mod(g, MODULUS as nat);
    }
    lemma_pow_mod_add(g, 1, 1);
    assert(pow_mod(g, 2) == (7277203076849721926nat * 7277203076849721926nat) % (MODULUS as nat));
    assert(pow_mod(g, 2) == 3524815499551269279nat);
    lemma_pow_mod_add(g, 2, 2);
    assert(pow_mod(g, 4) == (3524815499551269279nat * 3524815499551269279nat) % (MODULUS as nat));
    assert(pow_mod(g, 4) == 1905180297017055339nat);
    lemma_pow_mod_add(g, 4, 4);
    assert(pow_mod(g, 8) == (1905180297017055339nat * 1905180297017055339nat) % (MODULUS as nat));
    assert(pow_mod(g, 8) == 2530564950562219707nat);
    lemma_pow_mod_add(g, 8, 8);
    assert(pow_mod(g, 16) == (2530564950562219707nat * 2530564950562219707nat) % (MODULUS as nat));
    assert(pow_mod(g, 16) == 2147253751702802259nat);
    lemma_pow_mod_add(g, 16, 16);
    assert(pow_mod(g, 32) == (2147253751702802259nat * 2147253751702802259nat) % (MODULUS as nat));
    assert(pow_mod(g, 32) == 4969973714567017225nat);
    lemma_pow_mod_add(g, 32, 32);
    assert(pow_mod(g, 64) == (4969973714567017225nat * 4969973714567017225nat) % (MODULUS as nat));
    assert(pow_mod(g, 64) == 3757607247483852735nat);
    lemma_pow_mod_add(g, 64, 64);
    assert(pow_mod(g, 128) == (3757607247483852735nat * 3757607247483852735nat) % (MODULUS as nat));
    assert(pow_mod(g, 128) == 8877499657461974390nat);
    lemma_pow_mod_add(g, 128, 128);
    assert(pow_mod(g, 256) == (8877499657461974390nat * 8877499657461974390nat) % (MODULUS as nat));
    assert(pow_mod(g, 256) == 2709866199236980323nat);
    lemma_pow_mod_add(g, 256, 256);
    assert(pow_mod(g, 512) == (2709866199236980323nat * 2709866199236980323nat) % (MODULUS as nat));
    assert(pow_mod(g, 512) == 5936499541590631774nat);
    lemma_pow_mod_add(g, 512, 512);
    assert(pow_mod(g, 1024) == (5936499541590631774nat * 5936499541590631774nat) % (MODULUS as nat));
    assert(pow_mod(g, 1024) == 8124823329697072476nat);
    lemma_pow_mod_add(g, 1024, 1024);
    assert(pow_mod(g, 2048) == (8124823329697072476nat * 8124823329697072476nat) % (MODULUS as nat));
    assert(pow_mod(g, 2048) == 6553637399136210105nat);
    lemma_pow_mod_add(g, 2048, 2048);
    assert(pow_mod(g, 4096) == (6553637399136210105nat * 6553637399136210105nat) % (MODULUS as nat));
    assert(pow_mod(g, 4096) == 1971462654193939361nat);
    lemma_pow_mod_add(g, 4096, 4096);
    assert(pow_mod(g, 8192) == (1971462654193939361nat * 1971462654193939361nat) % (MODULUS as nat));
    assert(pow_mod(g, 8192) == 8982441859486529725nat);
    lemma_pow_mod_add(g, 8192, 8192);
    assert(pow_mod(g, 16384) == (8982441859486529725nat * 8982441859486529725nat) % (MODULUS as nat));
    assert(pow_mod(g, 16384) == 3411401055030829696nat);
    lemma_pow_mod_add(g, 16384, 16384);
    assert(pow_mod(g, 32768) == (3411401055030829696nat * 3411401055030829696nat) % (MODULUS as nat));
    assert(pow_mod(g, 32768) == 5718075921287398682nat);
    lemma_pow_mod_add(g, 32768, 32768);
    assert(pow_mod(g, 65536) == (5718075921287398682nat * 5718075921287398682nat) % (MODULUS as nat));
    assert(pow_mod(g, 65536) == 8167150655112846419nat);
    lemma_pow_mod_add(g, 65536, 65536);
    assert(pow_mod(g, 131072) == (8167150655112846419nat * 8167150655112846419nat) % (MODULUS as nat));
    assert(pow_mod(g, 131072) == 1873558160482552414nat);
    lemma_pow_mod_add(g, 131072, 131072);
    assert(pow_mod(g, 262144) == (1873558160482552414nat * 1873558160482552414nat) % (MODULUS as nat));
    assert(pow_mod(g, 262144) == 7126024226993609386nat);
    lemma_pow_mod_add(g, 262144, 262144);
    assert(pow_mod(g, 524288) == (7126024226993609386nat * 7126024226993609386nat) % (MODULUS as nat));
    assert(pow_mod(g, 524288) == 4308460244895131701nat);
    lemma_pow_mod_add(g, 524288, 524288);
    assert(pow_mod(g, 1048576) == (4308460244895131701nat * 4308460244895131701nat) % (MODULUS as nat));
    assert(pow_mod(g, 1048576) == 4355325209153869931nat);
    lemma_pow_mod_add(g, 1048576, 1048576);
    assert(pow_mod(g, 2097152) == (4355325209153869931nat * 4355325209153869931nat) % (MODULUS as nat));
    assert(pow_mod(g, 2097152) == 9113133275150391358nat);
    lemma_pow_mod_add(g, 2097152, 2097152);
    assert(pow_mod(g, 4194304) == (9113133275150391358nat * 9113133275150391358nat) % (MODULUS as nat));
    assert(pow_mod(g, 4194304) == 4255134452441852017nat);
    lemma_pow_mod_add(g, 4194304, 4194304);
    assert(pow_mod(g, 8388608) == (4255134452441852017nat * 4255134452441852017nat) % (MODULUS as nat));
    assert(pow_mod(g, 8388608) == 6434636298004421797nat);
    lemma_pow_mod_add(g, 8388608, 8388608);
    assert(pow_mod(g, 16777216) == (6434636298004421797nat * 6434636298004421797nat) % (MODULUS as nat));
    assert(pow_mod(g, 16777216) == 4404853092538523347nat);
    lemma_pow_mod_add(g, 16777216, 16777216);
    assert(pow_mod(g, 33554432) == (4404853092538523347nat * 4404853092538523347nat) % (MODULUS as nat));
    assert(pow_mod(g, 33554432) == 2198989700608nat);
    lemma_pow_mod_add(g, 33554432, 33554432);
    assert(pow_mod(g, 67108864) == (2198989700608nat * 2198989700608nat) % (MODULUS as nat));
    assert(pow_mod(g, 67108864) == 8nat);
    lemma_pow_mod_add(g, 67108864, 67108864);
    assert(pow_mod(g, 134217728) == (8nat * 8nat) % (MODULUS as nat));
    assert(pow_mod(g, 134217728) == 64nat);
    lemma_pow_mod_add(g, 134217728, 134217728);
    assert(pow_mod(g, 268435456) == (64nat * 64nat) % (MODULUS as nat));
    assert(pow_mod(g, 268435456) == 4096nat);
    lemma_pow_mod_add(g, 268435456, 268435456);
    assert(pow_mod(g, 536870912) == (4096nat * 4096nat) % (MODULUS as nat));
    assert(pow_mod(g, 536870912) == 16777216nat);
    lemma_pow_mod_add(g, 536870912, 536870912);
    assert(pow_mod(g, 1073741824) == (16777216nat * 16777216nat) % (MODULUS as nat));
    assert(pow_mod(g, 1073741824) == 281474976710656nat);
    lemma_pow_mod_add(g, 1073741824, 1073741824);
    assert(pow_mod(g, 2147483648) == (281474976710656nat * 281474976710656nat) % (MODULUS as nat));
    assert(pow_mod(g, 2147483648) == 18446744069414584320nat);
    lemma_pow_mod_add(g, 2147483648, 2147483648);
    assert(pow_mod(g, 4294967296) == (18446744069414584320nat * 18446744069414584320nat) % (MODULUS as nat));
    assert(pow_mod(g, 4294967296) == 1nat);
}

/// One step of square-and-multiply: squaring the half power, then multiplying
/// by the base when the exponent is odd, yields the full power.
proof fn lemma_pow_mod_step(b: nat, e: nat)
    requires
        e >= 1,
    ensures
        (pow_mod(b, e / 2) * pow_mod(b, e / 2)) % (MODULUS as nat) == pow_mod(b, 2 * (e / 2)),
        e % 2 == 1 ==> (pow_mod(b, 2 * (e / 2)) * b) % (MODULUS as nat) == pow_mod(b, e),
        e % 2 == 0 ==> pow_mod(b, 2 * (e / 2)) == pow_mod(b, e),
{
    let m = MODULUS as int;
    let h = e / 2;
    lemma_pow_adds(b as int, h, h);
    lemma_mul_mod_noop_general(pow(b as int, h), pow(b as int, h), m);
    if e % 2 == 1 {
        lemma_pow1(b as int);
        lemma_pow_adds(b as int, (2 * h) as nat, 1);
        lemma_mul_mod_noop_general(pow(b as int, (2 * h) as nat), b as int, m);
        lemma_mod_twice(b as int, m);
    }
}

/// LAW: the canonical generator for a domain of size `2^n` has order dividing
/// `2^n` — raising it to the domain size gives the identity.
pub proof fn lemma_root_of_unity_order(n: nat)
    requires
        n <= TWO_ADICITY,
    ensures
        pow_mod(root_of_unity_spec(n), pow2(n)) == 1,
{
    let m = MODULUS as int;
    let g = TWO_ADIC_ROOT_OF_UNITY as int;
    let k = (TWO_ADICITY - n) as nat;
    lemma_pow_mod_noop(pow(g, pow2(k)), pow2(n), m);
    lemma_pow_multiplies(g, pow2(k), pow2(n));
    lemma_pow2_adds(k, n);
    lemma_two_adic_root_order();
}

/// Powers of an element of multiplicative order dividing `order` repeat with
/// period `order`: the exponent can be reduced modulo `order`.
pub proof fn lemma_pow_mod_cycle(b: nat, order: nat, e: nat)
    requires
        order >= 1,
        pow_mod(b, order) == 1,
    ensures
        pow_mod(b, e) == pow_mod(b, e % order),
{
    let m = MODULUS as int;
    let q = e / order;
    let r = e % order;
    lemma_fundamental_div_mod(e as int, order as int);
    assert(e == q * order + r);
    lemma_pow_adds(b as int, (q * order) as nat, r);
    lemma_pow_multiplies(b as int, order, q);
    lemma_pow_mod_noop(pow(b as int, order), q, m);
    lemma1_pow(q);
    lemma_mul_mod_noop_general(pow(b as int, (q * order) as nat), pow(b as int, r), m);
    lemma_mod_twice(pow(b as int, r), m);
    lemma_small_mod(1nat, MODULUS as nat);
}

} // verus!
