//! 512-bit unsigned integers: nonces, hashes and targets.
//!
//! The arithmetic is that of `primitive_types::U512`. Each function here that calls into it is
//! trusted to do what its contract says; the contracts speak of the natural number that the limbs
//! stand for.

use primitive_types::U512;
use vstd::arithmetic::power2::pow2;
use vstd::prelude::*;

verus! {

/// A 512-bit unsigned integer as eight 64-bit limbs, least significant first.
#[derive(Clone, Copy, Debug, PartialEq, Eq)]
pub struct Uint512 {
    pub limbs: [u64; 8],
}

/// The number that `limbs` stand for in base 2^64, least significant first.
pub open spec fn limbs_value(limbs: Seq<u64>) -> nat
    decreases limbs.len(),
{
    if limbs.len() == 0 {
        0
    } else {
        limbs[0] as nat + 0x1_0000_0000_0000_0000 * limbs_value(limbs.drop_first())
    }
}

/// The number that `bytes` stand for in base 256, least significant first.
pub open spec fn le_value(bytes: Seq<u8>) -> nat
    decreases bytes.len(),
{
    if bytes.len() == 0 {
        0
    } else {
        bytes[0] as nat + 256 * le_value(bytes.drop_first())
    }
}

/// The lowest `len` bytes of `n`, least significant first.
pub open spec fn le_bytes(n: nat, len: nat) -> Seq<u8>
    decreases len,
{
    if len == 0 {
        Seq::empty()
    } else {
        seq![(n % 256) as u8] + le_bytes(n / 256, (len - 1) as nat)
    }
}

/// The greatest 512-bit number.
pub open spec fn max_value() -> nat {
    (pow2(512) - 1) as nat
}

impl View for Uint512 {
    type V = nat;

    open spec fn view(&self) -> nat {
        limbs_value(self.limbs@)
    }
}

impl Uint512 {
    /// `U512::from(u64)`: the same number, widened.
    #[verifier::external_body]
    pub(crate) fn from_u64(n: u64) -> (r: Uint512)
        ensures
            r@ == n,
    {
        Uint512 { limbs: U512::from(n).0 }
    }

    /// `U512::one`: the number one.
    #[verifier::external_body]
    pub(crate) fn one() -> (r: Uint512)
        ensures
            r@ == 1,
    {
        Uint512 { limbs: U512::one().0 }
    }

    /// `U512::saturating_add`: the sum, or the greatest number where the sum does not fit.
    #[verifier::external_body]
    pub(crate) fn saturating_add(self, other: Uint512) -> (r: Uint512)
        ensures
            r@ == if self@ + other@ <= max_value() {
                self@ + other@
            } else {
                max_value()
            },
    {
        Uint512 { limbs: U512(self.limbs).saturating_add(U512(other.limbs)).0 }
    }

    /// `U512::saturating_sub`: the difference, or zero where it would be negative.
    #[verifier::external_body]
    pub(crate) fn saturating_sub(self, other: Uint512) -> (r: Uint512)
        ensures
            r@ == if other@ <= self@ {
                (self@ - other@) as nat
            } else {
                0
            },
    {
        Uint512 { limbs: U512(self.limbs).saturating_sub(U512(other.limbs)).0 }
    }

    /// The operator `-` of `U512`: the difference. It panics on a negative one, so `other` must
    /// not exceed `self`.
    #[verifier::external_body]
    pub(crate) fn minus(self, other: Uint512) -> (r: Uint512)
        requires
            other@ <= self@,
        ensures
            r@ == self@ - other@,
    {
        Uint512 { limbs: (U512(self.limbs) - U512(other.limbs)).0 }
    }

    /// The operator `>` of `U512`: comparison of the numbers.
    #[verifier::external_body]
    pub(crate) fn exceeds(self, other: Uint512) -> (r: bool)
        ensures
            r == (self@ > other@),
    {
        U512(self.limbs) > U512(other.limbs)
    }

    /// `U512::as_u64`: the same number as a `u64`. It panics on one that does not fit.
    #[verifier::external_body]
    pub(crate) fn as_u64(self) -> (r: u64)
        requires
            self@ <= u64::MAX,
        ensures
            r == self@,
    {
        U512(self.limbs).as_u64()
    }

    /// `U512::to_little_endian`: the 64 bytes of the number, least significant first.
    #[verifier::external_body]
    pub(crate) fn to_little_endian(self) -> (r: [u8; 64])
        ensures
            r@ == le_bytes(self@, 64),
    {
        U512(self.limbs).to_little_endian()
    }

    /// `U512::to_big_endian`: the 64 bytes of the number, most significant first.
    #[verifier::external_body]
    pub(crate) fn to_big_endian(self) -> (r: [u8; 64])
        ensures
            r@ == le_bytes(self@, 64).reverse(),
    {
        U512(self.limbs).to_big_endian()
    }

    /// `U512::from_little_endian`: the number with these bytes, least significant first. It panics
    /// on more than 64 bytes.
    #[verifier::external_body]
    pub(crate) fn from_little_endian(bytes: &[u8]) -> (r: Uint512)
        requires
            bytes@.len() <= 64,
        ensures
            r@ == le_value(bytes@),
    {
        Uint512 { limbs: U512::from_little_endian(bytes).0 }
    }
}

/// Reading back the bytes of a number gives that number, where they are enough to hold it.
pub proof fn law_bytes_of_a_number_read_back(n: nat, len: nat)
    requires
        n < pow2(8 * len),
    ensures
        le_bytes(n, len).len() == len,
        le_value(le_bytes(n, len)) == n,
    decreases len,
{
    vstd::arithmetic::power2::lemma2_to64();
    if len > 0 {
        vstd::arithmetic::power2::lemma_pow2_adds(8, (8 * (len - 1)) as nat);
        assert(8 + 8 * (len - 1) == 8 * len);
        law_bytes_of_a_number_read_back(n / 256, (len - 1) as nat);
        let rest = le_bytes(n / 256, (len - 1) as nat);
        assert(le_bytes(n, len).drop_first() =~= rest);
    }
}

/// The bytes of the number that some bytes stand for are those bytes.
pub proof fn law_number_of_bytes_written_back(bytes: Seq<u8>)
    ensures
        le_bytes(le_value(bytes), bytes.len()) == bytes,
        le_value(bytes) < pow2(8 * bytes.len()),
    decreases bytes.len(),
{
    vstd::arithmetic::power2::lemma2_to64();
    if bytes.len() > 0 {
        let rest = bytes.drop_first();
        law_number_of_bytes_written_back(rest);
        vstd::arithmetic::power2::lemma_pow2_adds(8, 8 * rest.len());
        assert(8 + 8 * rest.len() == 8 * bytes.len());
        assert(le_value(bytes) / 256 == le_value(rest));
        assert(le_value(bytes) % 256 == bytes[0]);
        assert(bytes =~= seq![bytes[0]] + rest);
    } else {
        assert(le_bytes(le_value(bytes), bytes.len()) =~= bytes);
    }
}

/// Limbs stand for a number below 2^64 to the number of limbs, and different limbs for different
/// numbers.
pub proof fn law_limbs_value_is_faithful(a: Seq<u64>, b: Seq<u64>)
    requires
        a.len() == b.len(),
    ensures
        limbs_value(a) < pow2(64 * a.len()),
        limbs_value(a) == limbs_value(b) ==> a == b,
    decreases a.len(),
{
    vstd::arithmetic::power2::lemma2_to64();
    if a.len() > 0 {
        let ra = a.drop_first();
        let rb = b.drop_first();
        law_limbs_value_is_faithful(ra, rb);
        vstd::arithmetic::power2::lemma_pow2_adds(64, 64 * ra.len());
        assert(64 + 64 * ra.len() == 64 * a.len());
        assert(a =~= seq![a[0]] + ra);
        assert(b =~= seq![b[0]] + rb);
    } else {
        assert(a =~= b);
    }
}

/// The `i`-th byte of a number is its digit at 256^i, that is at 2^(8 i).
pub proof fn law_byte_of_a_number(n: nat, len: nat, i: nat)
    requires
        i < len,
    ensures
        le_bytes(n, len).len() == len,
        le_bytes(n, len)[i as int] == (n / pow2(8 * i)) % 256,
    decreases len,
{
    lemma_len_of_bytes(n, len);
    vstd::arithmetic::power2::lemma2_to64();
    let rest = le_bytes(n / 256, (len - 1) as nat);
    lemma_len_of_bytes(n / 256, (len - 1) as nat);
    if i == 0 {
        assert(n / pow2(0) == n);
    } else {
        let j = (i - 1) as nat;
        law_byte_of_a_number(n / 256, (len - 1) as nat, j);
        assert(le_bytes(n, len)[i as int] == rest[j as int]);
        vstd::arithmetic::power2::lemma_pow2_pos(8 * j);
        vstd::arithmetic::power2::lemma_pow2_adds(8, 8 * j);
        vstd::arithmetic::div_mod::lemma_div_denominator(n as int, 256, pow2(8 * j) as int);
        assert(8 + 8 * j == 8 * i);
    }
}

proof fn lemma_len_of_bytes(n: nat, len: nat)
    ensures
        le_bytes(n, len).len() == len,
    decreases len,
{
    if len > 0 {
        lemma_len_of_bytes(n / 256, (len - 1) as nat);
    }
}

/// One more byte at the end adds its value at 256^len, that is at 2^(8 len), to the number.
pub proof fn law_weight_of_a_byte(bytes: Seq<u8>, byte: u8)
    ensures
        le_value(Seq::empty()) == 0,
        le_value(bytes.push(byte)) == le_value(bytes) + pow2(8 * bytes.len()) * byte,
    decreases bytes.len(),
{
    vstd::arithmetic::power2::lemma2_to64();
    let longer = bytes.push(byte);
    assert(pow2(0) * byte == byte);
    if bytes.len() == 0 {
        assert(longer =~= seq![byte]);
        assert(longer.drop_first() =~= Seq::<u8>::empty());
    } else {
        let rest = bytes.drop_first();
        law_weight_of_a_byte(rest, byte);
        assert(longer.drop_first() =~= rest.push(byte));
        vstd::arithmetic::power2::lemma_pow2_adds(8, 8 * rest.len());
        assert(8 + 8 * rest.len() == 8 * bytes.len());
        let weight = pow2(8 * rest.len()) as int;
        assert(longer[0] == bytes[0]);
        assert(pow2(8 * bytes.len()) == 256 * weight);
        assert(256 * (weight * byte) == (256 * weight) * (byte as int)) by (nonlinear_arith);
    }
}

/// One more limb at the end adds its value at 2^(64 len) to the number.
pub proof fn law_weight_of_a_limb(limbs: Seq<u64>, limb: u64)
    ensures
        limbs_value(Seq::empty()) == 0,
        limbs_value(limbs.push(limb)) == limbs_value(limbs) + pow2(64 * limbs.len()) * limb,
    decreases limbs.len(),
{
    vstd::arithmetic::power2::lemma2_to64();
    let longer = limbs.push(limb);
    assert(pow2(0) * limb == limb);
    if limbs.len() == 0 {
        assert(longer =~= seq![limb]);
        assert(longer.drop_first() =~= Seq::<u64>::empty());
    } else {
        let rest = limbs.drop_first();
        law_weight_of_a_limb(rest, limb);
        assert(longer.drop_first() =~= rest.push(limb));
        vstd::arithmetic::power2::lemma_pow2_adds(64, 64 * rest.len());
        assert(64 + 64 * rest.len() == 64 * limbs.len());
        let weight = pow2(64 * rest.len()) as int;
        assert(longer[0] == limbs[0]);
        assert(pow2(64 * limbs.len()) == 0x1_0000_0000_0000_0000 * weight);
        assert(0x1_0000_0000_0000_0000 * (weight * limb) == (0x1_0000_0000_0000_0000 * weight)
            * limb) by (nonlinear_arith);
    }
}

/// No 512-bit number is greater than the greatest one, which is one less than 2^512 and is itself
/// a 512-bit number.
pub proof fn law_greatest_number(n: Uint512)
    ensures
        n@ <= max_value(),
        max_value() + 1 == pow2(512),
{
    lemma_at_most_max(n);
}

/// A 512-bit number is at most the greatest one.
pub(crate) proof fn lemma_at_most_max(n: Uint512)
    ensures
        n@ <= max_value(),
        n@ < pow2(512),
        max_value() == pow2(512) - 1,
{
    vstd::arithmetic::power2::lemma_pow2_pos(512);
    law_limbs_value_is_faithful(n.limbs@, n.limbs@);
}

} // verus!
