//! Arbitrary-precision natural numbers.
//!
//! A number is a little-endian sequence of 32-bit limbs. Its mathematical
//! value is the view of the number, a `nat`; every operation states its
//! result over that value, so that nothing of the limbs shows outside this
//! file.

use vstd::prelude::*;
use vstd::std_specs::cmp::PartialEqSpecImpl;

verus! {

/// The largest number whose square is at most `n`.
pub open spec fn sqrt_floor(n: nat) -> nat
    decreases n,
{
    if n == 0 {
        0
    } else {
        let r = sqrt_floor((n - 1) as nat);
        if (r + 1) * (r + 1) <= n {
            r + 1
        } else {
            r
        }
    }
}

/// `sqrt_floor(n)` squared is at most `n`, and the square of its successor is
/// more than `n`.
pub proof fn lemma_sqrt_floor_bounds(n: nat)
    ensures
        sqrt_floor(n) * sqrt_floor(n) <= n,
        n < (sqrt_floor(n) + 1) * (sqrt_floor(n) + 1),
    decreases n,
{
    if n > 0 {
        lemma_sqrt_floor_bounds((n - 1) as nat);
        let r = sqrt_floor((n - 1) as nat);
        if (r + 1) * (r + 1) <= n {
            assert(sqrt_floor(n) == r + 1);
            assert(n < (r + 1 + 1) * (r + 1 + 1)) by (nonlinear_arith)
                requires
                    n - 1 < (r + 1) * (r + 1),
            ;
        } else {
            assert(sqrt_floor(n) == r);
        }
    } else {
        assert(sqrt_floor(0) == 0);
        assert(0 * 0 == 0);
        assert((0 + 1) * (0 + 1) == 1) by (nonlinear_arith);
    }
}

/// No other number lies within the two bounds of `lemma_sqrt_floor_bounds`.
pub proof fn lemma_sqrt_floor_unique(n: nat, r: nat)
    requires
        r * r <= n,
        n < (r + 1) * (r + 1),
    ensures
        r == sqrt_floor(n),
{
    lemma_sqrt_floor_bounds(n);
    let s = sqrt_floor(n);
    if r < s {
        assert((r + 1) * (r + 1) <= s * s) by (nonlinear_arith)
            requires
                r + 1 <= s,
        ;
    }
    if s < r {
        assert((s + 1) * (s + 1) <= r * r) by (nonlinear_arith)
            requires
                s + 1 <= r,
        ;
    }
}

/// The number that a big-endian byte sequence denotes.
pub open spec fn be_bytes_value(s: Seq<u8>) -> nat
    decreases s.len(),
{
    if s.len() == 0 {
        0
    } else {
        256 * be_bytes_value(s.drop_last()) + s.last() as nat
    }
}

/// The radix of one limb, `2^32`.
const LIMB_BASE: u64 = 0x1_0000_0000;

/// `LIMB_BASE` raised to the power `n`.
spec fn limb_weight(n: nat) -> nat
    decreases n,
{
    if n == 0 {
        1
    } else {
        0x1_0000_0000 * limb_weight((n - 1) as nat)
    }
}

/// The number that a little-endian limb sequence denotes.
spec fn limbs_value(s: Seq<u32>) -> nat
    decreases s.len(),
{
    if s.len() == 0 {
        0
    } else {
        limbs_value(s.drop_last()) + (s.last() as nat) * limb_weight((s.len() - 1) as nat)
    }
}

/// The limb at position `i`, or zero beyond the end of the sequence.
spec fn limb_at(s: Seq<u32>, i: int) -> nat {
    if 0 <= i < s.len() {
        s[i] as nat
    } else {
        0
    }
}

/// The number denoted by the lowest `i` limbs of `s`.
spec fn prefix_value(s: Seq<u32>, i: nat) -> nat {
    if i <= s.len() {
        limbs_value(s.take(i as int))
    } else {
        limbs_value(s)
    }
}

/// Two raised to the power `n`.
spec fn two_pow(n: nat) -> nat
    decreases n,
{
    if n == 0 {
        1
    } else {
        2 * two_pow((n - 1) as nat)
    }
}

/// No weight is zero.
proof fn lemma_weight_positive(n: nat)
    ensures
        limb_weight(n) > 0,
    decreases n,
{
    if n > 0 {
        lemma_weight_positive((n - 1) as nat);
        let w: nat = limb_weight((n - 1) as nat);
        assert(0x1_0000_0000 * w > 0) by (nonlinear_arith)
            requires
                w > 0,
        ;
    }
}

/// A higher place weighs no less.
proof fn lemma_weight_monotonic(m: nat, n: nat)
    requires
        m <= n,
    ensures
        limb_weight(m) <= limb_weight(n),
    decreases n,
{
    if m < n {
        lemma_weight_monotonic(m, (n - 1) as nat);
        lemma_weight_positive((n - 1) as nat);
    }
}

/// A limb pushed on top adds itself at the weight of its place.
proof fn lemma_value_push(s: Seq<u32>, x: u32)
    ensures
        limbs_value(s.push(x)) == limbs_value(s) + (x as nat) * limb_weight(s.len()),
{
    assert(s.push(x).drop_last() =~= s);
}

/// A number of `n` limbs is below the weight of place `n`.
proof fn lemma_value_bound(s: Seq<u32>)
    ensures
        limbs_value(s) < limb_weight(s.len()),
    decreases s.len(),
{
    if s.len() > 0 {
        lemma_value_bound(s.drop_last());
        let w: nat = limb_weight((s.len() - 1) as nat);
        let x: nat = s.last() as nat;
        assert(x * w + w <= 0x1_0000_0000 * w) by (nonlinear_arith)
            requires
                x <= 0xffff_ffff,
        ;
    }
}

/// One limb more in the prefix adds that limb at the weight of its place.
proof fn lemma_prefix_step(s: Seq<u32>, i: nat)
    ensures
        prefix_value(s, i + 1) == prefix_value(s, i) + limb_at(s, i as int) * limb_weight(i),
{
    if i < s.len() {
        assert(s.take(i as int + 1).drop_last() =~= s.take(i as int));
        assert(s.take(i as int + 1).last() == s[i as int]);
    } else if i == s.len() {
        assert(s.take(i as int) =~= s);
    }
    assert(0 * limb_weight(i) == 0);
}

/// The lowest `i` limbs denote a number below the weight of place `i`.
proof fn lemma_prefix_bound(s: Seq<u32>, i: nat)
    ensures
        prefix_value(s, i) < limb_weight(i),
{
    if i <= s.len() {
        lemma_value_bound(s.take(i as int));
    } else {
        lemma_value_bound(s);
        lemma_weight_monotonic(s.len(), i);
    }
}

/// A prefix that holds every limb denotes the whole number.
proof fn lemma_prefix_full(s: Seq<u32>, i: nat)
    requires
        i >= s.len(),
    ensures
        prefix_value(s, i) == limbs_value(s),
{
    if i == s.len() {
        assert(s.take(i as int) =~= s);
    }
}

/// No prefix denotes more than the whole number.
proof fn lemma_prefix_at_most_value(s: Seq<u32>, i: nat)
    ensures
        prefix_value(s, i) <= limbs_value(s),
    decreases s.len() - i,
{
    if i >= s.len() {
        lemma_prefix_full(s, i);
    } else {
        lemma_prefix_at_most_value(s, i + 1);
        lemma_prefix_step(s, i);
    }
}

/// A limb put below the others adds itself to the radix times the number.
proof fn lemma_value_prepend(x: u32, s: Seq<u32>)
    ensures
        limbs_value(seq![x] + s) == x + 0x1_0000_0000 * limbs_value(s),
    decreases s.len(),
{
    let z: Seq<u32> = seq![x];
    if s.len() == 0 {
        assert(z + s =~= z);
        assert(z.drop_last() =~= Seq::<u32>::empty());
        assert(limbs_value(z.drop_last()) == 0);
        assert(limb_weight(0) == 1);
        assert(x * 1 == x);
    } else {
        lemma_value_prepend(x, s.drop_last());
        assert((z + s).drop_last() =~= z + s.drop_last());
        let v: nat = limbs_value(s.drop_last());
        let y: nat = s.last() as nat;
        let w: nat = limb_weight((s.len() - 1) as nat);
        assert(x + 0x1_0000_0000 * v + y * (0x1_0000_0000 * w) == x + 0x1_0000_0000 * (v + y * w))
            by (nonlinear_arith);
    }
}

/// The two powers of two between which a limb's bits run.
proof fn lemma_two_pow_limb()
    ensures
        two_pow(31) == 0x8000_0000,
        two_pow(32) == 0x1_0000_0000,
{
    reveal_with_fuel(two_pow, 33);
}

/// How one number stands to another.
#[derive(Clone, Copy, Debug, PartialEq, Eq)]
pub enum Relation {
    Less,
    Equal,
    Greater,
}

/// An arbitrary-precision natural number.
#[derive(Debug)]
pub struct BigNat {
    limbs: Vec<u32>,
}

impl View for BigNat {
    type V = nat;

    closed spec fn view(&self) -> nat {
        limbs_value(self.limbs@)
    }
}

impl BigNat {
    /// The number zero.
    pub fn zero() -> (r: BigNat)
        ensures
            r@ == 0,
    {
        BigNat { limbs: Vec::new() }
    }

    /// The number `v`.
    pub fn from_u64(v: u64) -> (r: BigNat)
        ensures
            r@ == v,
    {
        let lo: u32 = (v % LIMB_BASE) as u32;
        let hi: u32 = (v / LIMB_BASE) as u32;
        let mut out: Vec<u32> = Vec::new();
        proof {
            reveal_with_fuel(limb_weight, 3);
            assert(limb_weight(0) == 1);
            assert(limb_weight(1) == 0x1_0000_0000);
            lemma_value_push(out@, lo);
            lemma_value_push(out@.push(lo), hi);
            assert(limbs_value(out@) == 0);
        }
        out.push(lo);
        out.push(hi);
        assert(limbs_value(out@) == lo * 1 + hi * 0x1_0000_0000);
        assert(lo + hi * 0x1_0000_0000 == v);
        Self::trimmed(out)
    }

    /// The number `v`.
    pub fn from_u128(v: u128) -> (r: BigNat)
        ensures
            r@ == v,
    {
        let lo: u64 = (v % 0x1_0000_0000_0000_0000u128) as u64;
        let hi: u64 = (v / 0x1_0000_0000_0000_0000u128) as u64;
        let l0: u32 = (lo % LIMB_BASE) as u32;
        let l1: u32 = (lo / LIMB_BASE) as u32;
        let l2: u32 = (hi % LIMB_BASE) as u32;
        let l3: u32 = (hi / LIMB_BASE) as u32;
        let mut out: Vec<u32> = Vec::new();
        proof {
            reveal_with_fuel(limb_weight, 5);
            assert(limb_weight(0) == 1);
            assert(limb_weight(1) == 0x1_0000_0000);
            assert(limb_weight(2) == 0x1_0000_0000_0000_0000);
            assert(limb_weight(3) == 0x1_0000_0000_0000_0000_0000_0000);
            assert(limbs_value(out@) == 0);
            lemma_value_push(out@, l0);
            lemma_value_push(out@.push(l0), l1);
            lemma_value_push(out@.push(l0).push(l1), l2);
            lemma_value_push(out@.push(l0).push(l1).push(l2), l3);
        }
        out.push(l0);
        out.push(l1);
        out.push(l2);
        out.push(l3);
        assert(limbs_value(out@) == l0 * 1 + l1 * 0x1_0000_0000 + l2 * 0x1_0000_0000_0000_0000 + l3
            * 0x1_0000_0000_0000_0000_0000_0000);
        assert(l0 + l1 * 0x1_0000_0000 == lo);
        assert(l2 + l3 * 0x1_0000_0000 == hi);
        assert(lo + hi * 0x1_0000_0000_0000_0000 == v);
        Self::trimmed(out)
    }

    /// The number as a `u128`, if it is small enough.
    pub fn to_u128(&self) -> (r: Option<u128>)
        ensures
            self@ <= u128::MAX ==> r == Some(self@ as u128),
            self@ > u128::MAX ==> r is None,
    {
        let n: usize = self.limbs.len();
        let mut acc: u128 = 0;
        let mut scale: u128 = 1;
        let mut i: usize = 0;
        proof {
            reveal_with_fuel(limb_weight, 5);
        }
        while i < n
            invariant
                i <= n,
                n == self.limbs@.len(),
                acc == prefix_value(self.limbs@, i as nat),
                i <= 3 ==> scale == limb_weight(i as nat),
                limb_weight(4) == 0x1_0000_0000_0000_0000_0000_0000_0000_0000,
                limb_weight(3) == 0x1_0000_0000_0000_0000_0000_0000,
                i <= 4 ==> acc < limb_weight(i as nat),
            decreases n - i,
        {
            let x: u32 = self.limbs[i];
            proof {
                lemma_prefix_step(self.limbs@, i as nat);
                lemma_prefix_at_most_value(self.limbs@, (i + 1) as nat);
                lemma_prefix_bound(self.limbs@, (i + 1) as nat);
                if i >= 4 {
                    lemma_weight_monotonic(4, i as nat);
                }
                let w: nat = limb_weight(i as nat);
                if x > 0 {
                    assert(x * w >= w) by (nonlinear_arith)
                        requires
                            x >= 1,
                    ;
                } else {
                    assert(x * w == 0) by (nonlinear_arith)
                        requires
                            x == 0,
                    ;
                }
            }
            if i >= 4 {
                if x != 0 {
                    return None;
                }
            } else {
                proof {
                    let w: nat = limb_weight(i as nat);
                    assert(x * w <= 0xffff_ffff * w) by (nonlinear_arith)
                        requires
                            x <= 0xffff_ffff,
                    ;
                }
                acc = acc + (x as u128) * scale;
                if i < 3 {
                    scale = scale * 0x1_0000_0000u128;
                }
            }
            i += 1;
        }
        proof {
            lemma_prefix_full(self.limbs@, n as nat);
        }
        Some(acc)
    }

    /// The number that the bytes denote, the most significant byte first.
    pub fn from_bytes_be(bytes: &[u8]) -> (r: BigNat)
        ensures
            r@ == be_bytes_value(bytes@),
    {
        let n: usize = bytes.len();
        let mut acc: BigNat = BigNat::zero();
        let mut i: usize = 0;
        while i < n
            invariant
                i <= n,
                n == bytes@.len(),
                acc@ == be_bytes_value(bytes@.take(i as int)),
            decreases n - i,
        {
            let digit: BigNat = BigNat::from_u64(bytes[i] as u64);
            proof {
                assert(bytes@.take(i as int + 1).drop_last() =~= bytes@.take(i as int));
            }
            acc = acc.mul_limb(256u32).add(&digit);
            i += 1;
        }
        proof {
            assert(bytes@.take(n as int) =~= bytes@);
        }
        acc
    }

    /// The shortest big-endian byte sequence that denotes the number.
    pub fn to_bytes_be(&self) -> (r: Vec<u8>)
        ensures
            be_bytes_value(r@) == self@,
            r@.len() == 0 || r@[0] != 0,
    {
        let n: usize = self.limbs.len();
        let mut out: Vec<u8> = Vec::new();
        let mut j: usize = n;
        proof {
            assert(self.limbs@.skip(n as int) =~= Seq::<u32>::empty());
        }
        while j > 0
            invariant
                j <= n,
                n == self.limbs@.len(),
                be_bytes_value(out@) == limbs_value(self.limbs@.skip(j as int)),
                out@.len() == 0 || out@[0] != 0,
            decreases j,
        {
            j -= 1;
            let x: u32 = self.limbs[j];
            let b3: u8 = (x / 0x100_0000) as u8;
            let b2: u8 = ((x / 0x1_0000) % 0x100) as u8;
            let b1: u8 = ((x / 0x100) % 0x100) as u8;
            let b0: u8 = (x % 0x100) as u8;
            proof {
                assert(self.limbs@.skip(j as int) =~= seq![x] + self.limbs@.skip(j as int + 1));
                lemma_value_prepend(x, self.limbs@.skip(j as int + 1));
                assert(x == ((b3 * 256 + b2) * 256 + b1) * 256 + b0);
            }
            push_digit(&mut out, b3);
            push_digit(&mut out, b2);
            push_digit(&mut out, b1);
            push_digit(&mut out, b0);
        }
        proof {
            assert(self.limbs@.skip(0) =~= self.limbs@);
        }
        out
    }

    /// The limb at position `i`, or zero beyond the highest limb.
    fn limb(&self, i: usize) -> (r: u32)
        ensures
            r as nat == limb_at(self.limbs@, i as int),
    {
        if i < self.limbs.len() {
            self.limbs[i]
        } else {
            0
        }
    }

    /// A number of limbs that reaches over both numbers.
    fn longer_len(&self, other: &BigNat) -> (n: usize)
        ensures
            n >= self.limbs@.len(),
            n >= other.limbs@.len(),
    {
        if self.limbs.len() >= other.limbs.len() {
            self.limbs.len()
        } else {
            other.limbs.len()
        }
    }

    /// Drops the high limbs that are zero; the value stays.
    fn trimmed(limbs: Vec<u32>) -> (r: BigNat)
        ensures
            r@ == limbs_value(limbs@),
    {
        let mut limbs = limbs;
        let ghost start: Seq<u32> = limbs@;
        while limbs.len() > 0 && limbs[limbs.len() - 1] == 0
            invariant
                limbs_value(limbs@) == limbs_value(start),
            decreases limbs.len(),
        {
            proof {
                assert(0 * limb_weight((limbs@.len() - 1) as nat) == 0);
            }
            limbs.pop();
        }
        BigNat { limbs }
    }
}

/// Appends a byte to a big-endian number, unless it would be a leading zero.
fn push_digit(out: &mut Vec<u8>, b: u8)
    requires
        old(out)@.len() == 0 || old(out)@[0] != 0,
    ensures
        be_bytes_value(final(out)@) == 256 * be_bytes_value(old(out)@) + b,
        final(out)@.len() == 0 || final(out)@[0] != 0,
{
    if out.len() > 0 || b != 0 {
        proof {
            assert(out@.push(b).drop_last() =~= out@);
        }
        out.push(b);
    }
}

impl BigNat {
    /// How `self` stands to `other`.
    pub fn relation(&self, other: &BigNat) -> (r: Relation)
        ensures
            r is Less <==> self@ < other@,
            r is Equal <==> self@ == other@,
            r is Greater <==> self@ > other@,
    {
        let n: usize = self.longer_len(other);
        let mut rel: Relation = Relation::Equal;
        let mut i: usize = 0;
        while i < n
            invariant
                i <= n,
                rel is Less <==> prefix_value(self.limbs@, i as nat) < prefix_value(
                    other.limbs@,
                    i as nat,
                ),
                rel is Equal <==> prefix_value(self.limbs@, i as nat) == prefix_value(
                    other.limbs@,
                    i as nat,
                ),
            decreases n - i,
        {
            let x: u32 = self.limb(i);
            let y: u32 = other.limb(i);
            proof {
                lemma_prefix_step(self.limbs@, i as nat);
                lemma_prefix_step(other.limbs@, i as nat);
                lemma_prefix_bound(self.limbs@, i as nat);
                lemma_prefix_bound(other.limbs@, i as nat);
                let w: nat = limb_weight(i as nat);
                if x < y {
                    assert(x * w + w <= y * w) by (nonlinear_arith)
                        requires
                            x + 1 <= y,
                    ;
                }
                if y < x {
                    assert(y * w + w <= x * w) by (nonlinear_arith)
                        requires
                            y + 1 <= x,
                    ;
                }
            }
            if x < y {
                rel = Relation::Less;
            } else if x > y {
                rel = Relation::Greater;
            }
            i += 1;
        }
        proof {
            lemma_prefix_full(self.limbs@, n as nat);
            lemma_prefix_full(other.limbs@, n as nat);
        }
        rel
    }

    /// Whether the number is zero.
    pub fn is_zero(&self) -> (r: bool)
        ensures
            r == (self@ == 0),
    {
        let zero: BigNat = BigNat::zero();
        match self.relation(&zero) {
            Relation::Equal => true,
            _ => false,
        }
    }

    /// Whether the two numbers are the same.
    pub fn same(&self, other: &BigNat) -> (r: bool)
        ensures
            r == (self@ == other@),
    {
        match self.relation(other) {
            Relation::Equal => true,
            _ => false,
        }
    }

    /// Whether `self` is less than `other`.
    pub fn lt(&self, other: &BigNat) -> (r: bool)
        ensures
            r == (self@ < other@),
    {
        match self.relation(other) {
            Relation::Less => true,
            _ => false,
        }
    }

    /// Whether `self` is at most `other`.
    pub fn le(&self, other: &BigNat) -> (r: bool)
        ensures
            r == (self@ <= other@),
    {
        match self.relation(other) {
            Relation::Greater => false,
            _ => true,
        }
    }

    /// Whether `self` is more than `other`.
    pub fn gt(&self, other: &BigNat) -> (r: bool)
        ensures
            r == (self@ > other@),
    {
        other.lt(self)
    }

    /// Whether `self` is at least `other`.
    pub fn ge(&self, other: &BigNat) -> (r: bool)
        ensures
            r == (self@ >= other@),
    {
        other.le(self)
    }
}

impl BigNat {
    /// The sum of two numbers.
    pub fn add(&self, other: &BigNat) -> (r: BigNat)
        ensures
            r@ == self@ + other@,
    {
        let n: usize = self.longer_len(other);
        let mut out: Vec<u32> = Vec::new();
        let mut carry: u64 = 0;
        let mut i: usize = 0;
        while i < n
            invariant
                i <= n,
                out@.len() == i,
                carry <= 1,
                limbs_value(out@) + carry * limb_weight(i as nat) == prefix_value(
                    self.limbs@,
                    i as nat,
                ) + prefix_value(other.limbs@, i as nat),
            decreases n - i,
        {
            let x: u64 = self.limb(i) as u64;
            let y: u64 = other.limb(i) as u64;
            let t: u64 = x + y + carry;
            let lo: u32 = (t % LIMB_BASE) as u32;
            let hi: u64 = t / LIMB_BASE;
            proof {
                lemma_prefix_step(self.limbs@, i as nat);
                lemma_prefix_step(other.limbs@, i as nat);
                lemma_value_push(out@, lo);
                let w: nat = limb_weight(i as nat);
                assert(lo * w + hi * (0x1_0000_0000 * w) == x * w + y * w + carry * w)
                    by (nonlinear_arith)
                    requires
                        lo + hi * 0x1_0000_0000 == x + y + carry,
                ;
            }
            out.push(lo);
            carry = hi;
            i += 1;
        }
        proof {
            lemma_prefix_full(self.limbs@, n as nat);
            lemma_prefix_full(other.limbs@, n as nat);
            lemma_value_push(out@, carry as u32);
        }
        out.push(carry as u32);
        Self::trimmed(out)
    }

    /// The difference of two numbers, the second at most the first.
    pub fn sub(&self, other: &BigNat) -> (r: BigNat)
        requires
            other@ <= self@,
        ensures
            r@ == self@ - other@,
    {
        let n: usize = self.longer_len(other);
        let mut out: Vec<u32> = Vec::new();
        let mut borrow: u64 = 0;
        let mut i: usize = 0;
        while i < n
            invariant
                i <= n,
                out@.len() == i,
                borrow <= 1,
                limbs_value(out@) + prefix_value(other.limbs@, i as nat) == prefix_value(
                    self.limbs@,
                    i as nat,
                ) + borrow * limb_weight(i as nat),
            decreases n - i,
        {
            let x: u64 = self.limb(i) as u64;
            let y: u64 = other.limb(i) as u64 + borrow;
            let lo: u32 = if x >= y {
                (x - y) as u32
            } else {
                (x + LIMB_BASE - y) as u32
            };
            let next: u64 = if x >= y {
                0
            } else {
                1
            };
            proof {
                lemma_prefix_step(self.limbs@, i as nat);
                lemma_prefix_step(other.limbs@, i as nat);
                lemma_value_push(out@, lo);
                let w: nat = limb_weight(i as nat);
                let yy: nat = limb_at(other.limbs@, i as int);
                assert(lo * w + yy * w + borrow * w == x * w + next * (0x1_0000_0000 * w))
                    by (nonlinear_arith)
                    requires
                        lo + yy + borrow == x + next * 0x1_0000_0000,
                ;
            }
            out.push(lo);
            borrow = next;
            i += 1;
        }
        proof {
            lemma_prefix_full(self.limbs@, n as nat);
            lemma_prefix_full(other.limbs@, n as nat);
            lemma_value_bound(out@);
            assert(borrow == 0) by {
                if borrow == 1 {
                    assert(1 * limb_weight(n as nat) == limb_weight(n as nat));
                }
            }
            assert(0 * limb_weight(n as nat) == 0);
        }
        Self::trimmed(out)
    }

    /// The product of the number and one limb.
    fn mul_limb(&self, m: u32) -> (r: BigNat)
        ensures
            r@ == self@ * m,
    {
        let n: usize = self.limbs.len();
        let mut out: Vec<u32> = Vec::new();
        let mut carry: u64 = 0;
        let mut i: usize = 0;
        proof {
            assert(prefix_value(self.limbs@, 0) * m == 0) by {
                assert(self.limbs@.take(0) =~= Seq::<u32>::empty());
                assert(0 * m == 0);
            }
        }
        while i < n
            invariant
                i <= n,
                n == self.limbs@.len(),
                out@.len() == i,
                carry < 0x1_0000_0000,
                limbs_value(out@) + carry * limb_weight(i as nat) == prefix_value(
                    self.limbs@,
                    i as nat,
                ) * m,
            decreases n - i,
        {
            let x: u64 = self.limbs[i] as u64;
            proof {
                assert(x * (m as u64) <= 0xffff_ffff * 0xffff_ffff) by (nonlinear_arith)
                    requires
                        x <= 0xffff_ffff,
                        m <= 0xffff_ffff,
                ;
            }
            let t: u64 = x * (m as u64) + carry;
            let lo: u32 = (t % LIMB_BASE) as u32;
            let hi: u64 = t / LIMB_BASE;
            proof {
                lemma_prefix_step(self.limbs@, i as nat);
                lemma_value_push(out@, lo);
                let w: nat = limb_weight(i as nat);
                let pv: nat = prefix_value(self.limbs@, i as nat);
                assert(lo * w + hi * (0x1_0000_0000 * w) == (x * m) * w + carry * w)
                    by (nonlinear_arith)
                    requires
                        lo + hi * 0x1_0000_0000 == x * m + carry,
                ;
                assert((pv + x * w) * m == pv * m + (x * m) * w) by (nonlinear_arith);
            }
            out.push(lo);
            carry = hi;
            i += 1;
        }
        proof {
            lemma_prefix_full(self.limbs@, n as nat);
            lemma_value_push(out@, carry as u32);
        }
        out.push(carry as u32);
        Self::trimmed(out)
    }

    /// The number times `LIMB_BASE`.
    fn shift_limb(&self) -> (r: BigNat)
        ensures
            r@ == self@ * 0x1_0000_0000,
    {
        let mut out: Vec<u32> = self.limbs.clone();
        assert(out@ =~= self.limbs@);
        out.insert(0, 0u32);
        proof {
            assert(out@ =~= seq![0u32] + self.limbs@);
            lemma_value_prepend(0u32, self.limbs@);
        }
        BigNat { limbs: out }
    }

    /// The number `l * LIMB_BASE^j`.
    fn weighted(l: u32, j: usize) -> (r: BigNat)
        ensures
            r@ == l * limb_weight(j as nat),
    {
        let mut out: Vec<u32> = Vec::new();
        let mut k: usize = 0;
        while k < j
            invariant
                k <= j,
                out@.len() == k,
                limbs_value(out@) == 0,
            decreases j - k,
        {
            proof {
                lemma_value_push(out@, 0u32);
                assert(0 * limb_weight(k as nat) == 0);
            }
            out.push(0u32);
            k += 1;
        }
        proof {
            lemma_value_push(out@, l);
        }
        out.push(l);
        BigNat { limbs: out }
    }

    /// The product of two numbers.
    pub fn mul(&self, other: &BigNat) -> (r: BigNat)
        ensures
            r@ == self@ * other@,
    {
        let n: usize = self.limbs.len();
        let mut acc: BigNat = BigNat::zero();
        let mut shifted: BigNat = other.clone();
        let mut i: usize = 0;
        proof {
            assert(self.limbs@.take(0) =~= Seq::<u32>::empty());
            assert(0 * other@ == 0);
            assert(other@ * 1 == other@);
        }
        while i < n
            invariant
                i <= n,
                n == self.limbs@.len(),
                acc@ == prefix_value(self.limbs@, i as nat) * other@,
                shifted@ == other@ * limb_weight(i as nat),
            decreases n - i,
        {
            let x: u32 = self.limbs[i];
            let part: BigNat = shifted.mul_limb(x);
            proof {
                lemma_prefix_step(self.limbs@, i as nat);
                let w: nat = limb_weight(i as nat);
                let pv: nat = prefix_value(self.limbs@, i as nat);
                let b: nat = other@;
                assert(pv * b + (b * w) * x == (pv + x * w) * b) by (nonlinear_arith);
                assert((b * w) * 0x1_0000_0000 == b * (0x1_0000_0000 * w)) by (nonlinear_arith);
            }
            acc = acc.add(&part);
            shifted = shifted.shift_limb();
            i += 1;
        }
        proof {
            lemma_prefix_full(self.limbs@, n as nat);
        }
        acc
    }

    /// The quotient of two numbers, rounded down.
    pub fn div(&self, divisor: &BigNat) -> (q: BigNat)
        requires
            divisor@ > 0,
        ensures
            q@ == self@ / divisor@,
    {
        let n: usize = self.limbs.len();
        let mut q: BigNat = BigNat::zero();
        let mut j: usize = n;
        proof {
            lemma_value_bound(self.limbs@);
            let w: nat = limb_weight(n as nat);
            let d: nat = divisor@;
            assert(w <= (0 + w) * d) by (nonlinear_arith)
                requires
                    d >= 1,
            ;
            assert(0 * d == 0);
        }
        while j > 0
            invariant
                j <= n,
                divisor@ > 0,
                q@ * divisor@ <= self@,
                self@ < (q@ + limb_weight(j as nat)) * divisor@,
            decreases j,
        {
            j -= 1;
            let mut l: u32 = 0x8000_0000;
            let mut bits: u32 = 32;
            proof {
                lemma_two_pow_limb();
            }
            while bits > 0
                invariant
                    bits <= 32,
                    bits > 0 ==> l as nat == two_pow((bits - 1) as nat),
                    divisor@ > 0,
                    q@ * divisor@ <= self@,
                    self@ < (q@ + two_pow(bits as nat) * limb_weight(j as nat)) * divisor@,
                decreases bits,
            {
                let step: BigNat = BigNat::weighted(l, j);
                let cand: BigNat = q.add(&step);
                let prod: BigNat = cand.mul(divisor);
                proof {
                    let w: nat = limb_weight(j as nat);
                    assert(two_pow(bits as nat) * w == l * w + l * w) by (nonlinear_arith)
                        requires
                            two_pow(bits as nat) == 2 * l,
                    ;
                }
                if prod.le(self) {
                    q = cand;
                }
                bits -= 1;
                if bits > 0 {
                    l = l / 2;
                }
            }
            proof {
                assert(1 * limb_weight(j as nat) == limb_weight(j as nat));
            }
        }
        proof {
            let a: nat = self@;
            let d: nat = divisor@;
            let qv: nat = q@;
            assert(qv == a / d) by (nonlinear_arith)
                requires
                    d > 0,
                    qv * d <= a,
                    a < (qv + 1) * d,
            ;
        }
        q
    }

    /// The square root of the number, rounded down.
    pub fn sqrt(&self) -> (r: BigNat)
        ensures
            r@ == sqrt_floor(self@),
    {
        let n: usize = self.limbs.len();
        let mut r: BigNat = BigNat::zero();
        let mut j: usize = n;
        proof {
            lemma_value_bound(self.limbs@);
            lemma_weight_positive(n as nat);
            let w: nat = limb_weight(n as nat);
            assert(w <= (0 + w) * (0 + w)) by (nonlinear_arith)
                requires
                    w >= 1,
            ;
            assert(0 * 0 == 0);
        }
        while j > 0
            invariant
                j <= n,
                r@ * r@ <= self@,
                self@ < (r@ + limb_weight(j as nat)) * (r@ + limb_weight(j as nat)),
            decreases j,
        {
            j -= 1;
            let mut l: u32 = 0x8000_0000;
            let mut bits: u32 = 32;
            proof {
                lemma_two_pow_limb();
            }
            while bits > 0
                invariant
                    bits <= 32,
                    bits > 0 ==> l as nat == two_pow((bits - 1) as nat),
                    r@ * r@ <= self@,
                    self@ < (r@ + two_pow(bits as nat) * limb_weight(j as nat)) * (r@ + two_pow(
                        bits as nat,
                    ) * limb_weight(j as nat)),
                decreases bits,
            {
                let step: BigNat = BigNat::weighted(l, j);
                let cand: BigNat = r.add(&step);
                let prod: BigNat = cand.mul(&cand);
                proof {
                    let w: nat = limb_weight(j as nat);
                    assert(two_pow(bits as nat) * w == l * w + l * w) by (nonlinear_arith)
                        requires
                            two_pow(bits as nat) == 2 * l,
                    ;
                }
                if prod.le(self) {
                    r = cand;
                }
                bits -= 1;
                if bits > 0 {
                    l = l / 2;
                }
            }
            proof {
                assert(1 * limb_weight(j as nat) == limb_weight(j as nat));
            }
        }
        proof {
            lemma_sqrt_floor_unique(self@, r@);
        }
        r
    }
}

impl PartialEq for BigNat {
    fn eq(&self, other: &BigNat) -> (r: bool) {
        self.same(other)
    }
}

impl PartialEqSpecImpl for BigNat {
    open spec fn obeys_eq_spec() -> bool {
        true
    }

    open spec fn eq_spec(&self, other: &BigNat) -> bool {
        self@ == other@
    }
}

impl Eq for BigNat {

}

impl Clone for BigNat {
    fn clone(&self) -> (r: BigNat)
        ensures
            r@ == self@,
    {
        BigNat { limbs: self.limbs.clone() }
    }
}

} // verus!
