//! Natural numbers of any size, for decimal text that a machine integer cannot hold.
use vstd::arithmetic::mul::*;
use vstd::arithmetic::power2::*;
use vstd::prelude::*;

verus! {

/// A natural number in base 2^32, least significant digit first.
pub struct Natural {
    pub limbs: Vec<u32>,
}

/// The weight of digit `i`.
pub open spec fn weight(i: nat) -> nat {
    pow2(32 * i)
}

/// Digit `i`, zero beyond the stored digits.
pub open spec fn limb(limbs: Seq<u32>, i: int) -> nat {
    if 0 <= i < limbs.len() {
        limbs[i] as nat
    } else {
        0
    }
}

/// The number that the lowest `n` digits stand for.
pub open spec fn prefix_value(limbs: Seq<u32>, n: nat) -> nat
    decreases n,
{
    if n == 0 {
        0
    } else {
        prefix_value(limbs, (n - 1) as nat) + limb(limbs, n - 1) * weight((n - 1) as nat)
    }
}

impl View for Natural {
    type V = nat;

    open spec fn view(&self) -> nat {
        prefix_value(self.limbs@, self.limbs@.len())
    }
}

proof fn lemma_weight(i: nat)
    ensures
        weight(i) > 0,
        weight(i + 1) == 0x1_0000_0000 * weight(i),
        weight(0) == 1,
{
    lemma2_to64();
    lemma_pow2_pos(32 * i);
    lemma_pow2_adds(32, 32 * i);
}

proof fn lemma_prefix_same(a: Seq<u32>, b: Seq<u32>, n: nat)
    requires
        forall|i: int| 0 <= i < n ==> limb(a, i) == limb(b, i),
    ensures
        prefix_value(a, n) == prefix_value(b, n),
    decreases n,
{
    if n > 0 {
        lemma_prefix_same(a, b, (n - 1) as nat);
    }
}

proof fn lemma_prefix_bound(limbs: Seq<u32>, n: nat)
    ensures
        prefix_value(limbs, n) < weight(n),
    decreases n,
{
    lemma_weight(n);
    if n > 0 {
        let k: nat = (n - 1) as nat;
        lemma_prefix_bound(limbs, k);
        lemma_weight(k);
        let w: int = weight(k) as int;
        let l: int = limb(limbs, k as int) as int;
        assert(l * w + w <= 0x1_0000_0000 * w) by (nonlinear_arith)
            requires
                l + 1 <= 0x1_0000_0000,
                w > 0,
        ;
    }
}

proof fn lemma_prefix_padded(limbs: Seq<u32>, n: nat)
    requires
        n >= limbs.len(),
    ensures
        prefix_value(limbs, n) == prefix_value(limbs, limbs.len()),
    decreases n,
{
    if n > limbs.len() {
        lemma_prefix_padded(limbs, (n - 1) as nat);
        lemma_mul_basics(weight((n - 1) as nat) as int);
    }
}

/// A digit that is set makes the number at least its weight.
proof fn lemma_prefix_at_least(limbs: Seq<u32>, i: nat, n: nat)
    requires
        i < n,
        limb(limbs, i as int) > 0,
    ensures
        prefix_value(limbs, n) >= weight(i),
    decreases n,
{
    if i + 1 < n {
        lemma_prefix_at_least(limbs, i, (n - 1) as nat);
    } else {
        lemma_weight(i);
        lemma_mul_increases(limb(limbs, i as int) as int, weight(i) as int);
    }
}

/// Digits from the third on weigh at least 2^64.
proof fn lemma_weight_from_two(i: nat)
    requires
        i >= 2,
    ensures
        weight(i) >= 0x1_0000_0000_0000_0000,
    decreases i,
{
    lemma_weight((i - 1) as nat);
    if i > 2 {
        lemma_weight_from_two((i - 1) as nat);
    } else {
        lemma_weight(0);
    }
}

/// Setting a digit that was zero adds what it weighs.
proof fn lemma_prefix_set(limbs: Seq<u32>, i: int, value: u32, n: nat)
    requires
        0 <= i < n <= limbs.len(),
        limbs[i] == 0,
    ensures
        prefix_value(limbs.update(i, value), n) == prefix_value(limbs, n) + value * weight(i as nat),
    decreases n,
{
    let k: nat = (n - 1) as nat;
    if i < k {
        lemma_prefix_set(limbs, i, value, k);
    } else {
        lemma_prefix_same(limbs, limbs.update(i, value), k);
        lemma_mul_basics(weight(k) as int);
    }
}

/// Zeros stand for zero.
proof fn lemma_prefix_zeros(limbs: Seq<u32>, n: nat)
    requires
        forall|i: int| 0 <= i < limbs.len() ==> limbs[i] == 0,
    ensures
        prefix_value(limbs, n) == 0,
    decreases n,
{
    if n > 0 {
        lemma_prefix_zeros(limbs, (n - 1) as nat);
        lemma_mul_basics(weight((n - 1) as nat) as int);
    }
}

impl Natural {
    /// The number 0.
    pub fn zero() -> (number: Natural)
        ensures
            number@ == 0,
    {
        Natural { limbs: Vec::new() }
    }

    /// A number of one limb.
    pub fn from_small(value: u32) -> (number: Natural)
        ensures
            number@ == value,
    {
        Natural::zero().scaled(1, value)
    }

    /// A number of 64 bits.
    pub fn from_wide(value: u64) -> (number: Natural)
        ensures
            number@ == value,
    {
        let mut limbs: Vec<u32> = Vec::new();
        limbs.push((value % 0x1_0000_0000) as u32);
        limbs.push((value / 0x1_0000_0000) as u32);
        proof {
            reveal_with_fuel(prefix_value, 3);
            lemma_weight(0);
            lemma_weight(1);
            lemma_mul_basics(limb(limbs@, 0) as int);
            lemma_mul_is_commutative(limb(limbs@, 1) as int, 0x1_0000_0000);
        }
        Natural { limbs }
    }

    /// A number of 128 bits, by its halves.
    pub fn from_halves(high: u64, low: u64) -> (number: Natural)
        ensures
            number@ == high * 0x1_0000_0000_0000_0000 + low,
    {
        proof {
            lemma2_to64();
        }
        Natural::from_wide(high).shifted(64).plus(&Natural::from_wide(low))
    }

    /// The sum of two numbers.
    pub fn plus(&self, other: &Natural) -> (sum: Natural)
        ensures
            sum@ == self@ + other@,
    {
        let length: usize = if self.limbs.len() >= other.limbs.len() {
            self.limbs.len()
        } else {
            other.limbs.len()
        };
        let mut limbs: Vec<u32> = Vec::new();
        let mut carry: u32 = 0;
        let mut i: usize = 0;
        proof {
            lemma_weight(0);
        }
        while i < length
            invariant
                i <= length,
                limbs@.len() == i,
                carry <= 1,
                prefix_value(limbs@, i as nat) + carry * weight(i as nat) == prefix_value(
                    self.limbs@,
                    i as nat,
                ) + prefix_value(other.limbs@, i as nat),
            decreases length - i,
        {
            let total: u64 = self.digit(i) as u64 + other.digit(i) as u64 + carry as u64;
            let ghost before: Seq<u32> = limbs@;
            let ghost old_carry: u32 = carry;
            let low: u32 = (total % 0x1_0000_0000) as u32;
            carry = (total / 0x1_0000_0000) as u32;
            limbs.push(low);
            proof {
                lemma_prefix_same(before, limbs@, i as nat);
                lemma_weight(i as nat);
                let w: int = weight(i as nat) as int;
                let x: int = limb(self.limbs@, i as int) as int;
                let y: int = limb(other.limbs@, i as int) as int;
                assert(low * w + carry * (0x1_0000_0000 * w) == x * w + y * w + old_carry * w)
                    by (nonlinear_arith)
                    requires
                        low + carry * 0x1_0000_0000 == x + y + old_carry,
                ;
            }
            i = i + 1;
        }
        proof {
            lemma_prefix_padded(self.limbs@, length as nat);
            lemma_prefix_padded(other.limbs@, length as nat);
        }
        if carry > 0 {
            let ghost before: Seq<u32> = limbs@;
            limbs.push(carry);
            proof {
                lemma_prefix_same(before, limbs@, i as nat);
            }
        } else {
            proof {
                lemma_mul_basics(weight(i as nat) as int);
            }
        }
        Natural { limbs }
    }

    /// This number times two to a power.
    pub fn shifted(&self, power: u32) -> (number: Natural)
        ensures
            number@ == self@ * pow2(power as nat),
    {
        let mut number: Natural = self.scaled(1, 0);
        let mut left: u32 = power;
        proof {
            lemma2_to64();
            lemma_mul_basics(self@ as int);
        }
        while left >= 31
            invariant
                left <= power,
                number@ == self@ * pow2((power - left) as nat),
            decreases left,
        {
            proof {
                let done: nat = (power - left) as nat;
                lemma2_to64();
                lemma_pow2_adds(done, 31);
                lemma_mul_is_associative(self@ as int, pow2(done) as int, pow2(31) as int);
            }
            number = number.scaled(0x8000_0000, 0);
            left = left - 31;
        }
        while left > 0
            invariant
                left <= power,
                number@ == self@ * pow2((power - left) as nat),
            decreases left,
        {
            proof {
                let done: nat = (power - left) as nat;
                lemma2_to64();
                lemma_pow2_adds(done, 1);
                lemma_mul_is_associative(self@ as int, pow2(done) as int, pow2(1) as int);
            }
            number = number.scaled(2, 0);
            left = left - 1;
        }
        number
    }

    /// This number divided by a small one, and what is left over.
    pub fn divided(&self, divisor: u32) -> (result: (Natural, u32))
        requires
            divisor > 0,
        ensures
            result.0@ == self@ / (divisor as nat),
            result.1 == self@ % (divisor as nat),
    {
        let length: usize = self.limbs.len();
        let mut limbs: Vec<u32> = Vec::new();
        let mut filled: usize = 0;
        while filled < length
            invariant
                filled <= length,
                limbs@.len() == filled,
                forall|j: int| 0 <= j < filled ==> limbs@[j] == 0,
            decreases length - filled,
        {
            limbs.push(0);
            filled = filled + 1;
        }
        let mut rest: u32 = 0;
        let mut i: usize = length;
        proof {
            lemma_prefix_zeros(limbs@, length as nat);
            lemma_mul_basics(weight(length as nat) as int);
            lemma_mul_basics(divisor as int);
        }
        while i > 0
            invariant
                i <= length,
                length == self.limbs@.len(),
                limbs@.len() == length,
                rest < divisor,
                forall|j: int| 0 <= j < i ==> limbs@[j] == 0,
                prefix_value(self.limbs@, i as nat) + rest * weight(i as nat) + divisor
                    * prefix_value(limbs@, length as nat) == self@,
            decreases i,
        {
            let ghost before: Seq<u32> = limbs@;
            let ghost above: u32 = rest;
            let k: usize = i - 1;
            let low: u32 = self.limbs[k];
            let current: u64 = rest as u64 * 0x1_0000_0000 + low as u64;
            let wide: u64 = current / (divisor as u64);
            proof {
                vstd::arithmetic::div_mod::lemma_fundamental_div_mod(
                    current as int,
                    divisor as int,
                );
                vstd::arithmetic::div_mod::lemma_mod_bound(current as int, divisor as int);
                assert(wide < 0x1_0000_0000) by (nonlinear_arith)
                    requires
                        divisor as int * wide as int <= current,
                        current < divisor as int * 0x1_0000_0000,
                        divisor > 0,
                ;
            }
            let digit: u32 = wide as u32;
            rest = (current % (divisor as u64)) as u32;
            limbs.set(k, digit);
            proof {
                lemma_prefix_set(before, k as int, digit, length as nat);
                lemma_weight(k as nat);
                let w: int = weight(k as nat) as int;
                let d: int = divisor as int;
                let value: int = prefix_value(before, length as nat) as int;
                assert(low * w + above * (0x1_0000_0000 * w) == (d * digit + rest) * w)
                    by (nonlinear_arith)
                    requires
                        low + above * 0x1_0000_0000 == d * digit + rest,
                ;
                assert((d * digit + rest) * w == d * (digit * w) + rest * w) by (nonlinear_arith);
                assert(d * (value + digit * w) == d * value + d * (digit * w)) by (nonlinear_arith);
            }
            i = k;
        }
        proof {
            lemma_weight(0);
            lemma_mul_basics(rest as int);
            vstd::arithmetic::div_mod::lemma_fundamental_div_mod_converse(
                self@ as int,
                divisor as int,
                prefix_value(limbs@, length as nat) as int,
                rest as int,
            );
        }
        (Natural { limbs }, rest)
    }

    /// This number times `factor`, plus `addend`.
    pub fn scaled(&self, factor: u32, addend: u32) -> (number: Natural)
        ensures
            number@ == self@ * factor + addend,
    {
        let mut limbs: Vec<u32> = Vec::new();
        let mut carry: u32 = addend;
        let mut i: usize = 0;
        proof {
            lemma_weight(0);
            lemma_mul_basics(factor as int);
            lemma_mul_basics(carry as int);
        }
        while i < self.limbs.len()
            invariant
                i <= self.limbs@.len(),
                limbs@.len() == i,
                prefix_value(limbs@, i as nat) + carry * weight(i as nat) == prefix_value(
                    self.limbs@,
                    i as nat,
                ) * factor + addend,
            decreases self.limbs@.len() - i,
        {
            let digit: u32 = self.limbs[i];
            proof {
                assert(digit * factor <= 0xffff_ffff * 0xffff_ffff) by (nonlinear_arith)
                    requires
                        digit <= 0xffff_ffff,
                        factor <= 0xffff_ffff,
                ;
            }
            let total: u64 = (digit as u64) * (factor as u64) + (carry as u64);
            let low: u32 = (total % 0x1_0000_0000) as u32;
            let high: u32 = (total / 0x1_0000_0000) as u32;
            let ghost before: Seq<u32> = limbs@;
            limbs.push(low);
            proof {
                lemma_prefix_same(before, limbs@, i as nat);
                lemma_weight(i as nat);
                let w: int = weight(i as nat) as int;
                let rest: int = prefix_value(self.limbs@, i as nat) as int;
                assert(low * w + high * (0x1_0000_0000 * w) == (digit * factor + carry) * w)
                    by (nonlinear_arith)
                    requires
                        low + high * 0x1_0000_0000 == digit * factor + carry,
                ;
                assert((digit * factor + carry) * w == (digit * w) * factor + carry * w)
                    by (nonlinear_arith);
                assert((rest + digit * w) * factor == rest * factor + (digit * w) * factor)
                    by (nonlinear_arith);
            }
            carry = high;
            i = i + 1;
        }
        if carry > 0 {
            let ghost before: Seq<u32> = limbs@;
            limbs.push(carry);
            proof {
                lemma_prefix_same(before, limbs@, i as nat);
            }
        } else {
            proof {
                lemma_mul_basics(weight(i as nat) as int);
            }
        }
        Natural { limbs }
    }

    /// This number in 64 bits, where they hold it.
    pub fn to_small(&self) -> (value: Option<u64>)
        ensures
            match value {
                Some(small) => small == self@,
                None => self@ > u64::MAX,
            },
    {
        let mut i: usize = 2;
        proof {
            if self.limbs@.len() < 2 {
                lemma_prefix_padded(self.limbs@, 2);
            }
        }
        while i < self.limbs.len()
            invariant
                2 <= i,
                i <= self.limbs@.len() || i == 2,
                prefix_value(self.limbs@, i as nat) == prefix_value(self.limbs@, 2),
            decreases self.limbs@.len() - i,
        {
            if self.limbs[i] != 0 {
                proof {
                    lemma_prefix_at_least(self.limbs@, i as nat, self.limbs@.len());
                    lemma_weight_from_two(i as nat);
                }
                return None;
            }
            proof {
                lemma_mul_basics(weight(i as nat) as int);
            }
            i = i + 1;
        }
        proof {
            reveal_with_fuel(prefix_value, 3);
            lemma_weight(0);
            lemma_weight(1);
            lemma_mul_basics(limb(self.limbs@, 0) as int);
            lemma_mul_is_commutative(limb(self.limbs@, 1) as int, 0x1_0000_0000);
        }
        Some(self.digit(0) as u64 + self.digit(1) as u64 * 0x1_0000_0000)
    }

    fn digit(&self, i: usize) -> (digit: u32)
        ensures
            digit == limb(self.limbs@, i as int),
    {
        if i < self.limbs.len() {
            self.limbs[i]
        } else {
            0
        }
    }

    /// This number minus another, where that is not negative.
    pub fn minus(&self, other: &Natural) -> (difference: Option<Natural>)
        ensures
            difference is Some <==> self@ >= other@,
            difference is Some ==> difference->0@ == self@ - other@,
    {
        let length: usize = if self.limbs.len() >= other.limbs.len() {
            self.limbs.len()
        } else {
            other.limbs.len()
        };
        let mut limbs: Vec<u32> = Vec::new();
        let mut borrow: u32 = 0;
        let mut i: usize = 0;
        proof {
            lemma_weight(0);
        }
        while i < length
            invariant
                i <= length,
                limbs@.len() == i,
                borrow <= 1,
                prefix_value(limbs@, i as nat) - borrow * weight(i as nat) == prefix_value(
                    self.limbs@,
                    i as nat,
                ) - prefix_value(other.limbs@, i as nat),
            decreases length - i,
        {
            let a: u64 = self.digit(i) as u64;
            let b: u64 = (other.digit(i) as u64) + (borrow as u64);
            let ghost before: Seq<u32> = limbs@;
            let ghost old_borrow: u32 = borrow;
            let low: u32;
            if a >= b {
                low = (a - b) as u32;
                borrow = 0;
            } else {
                low = (a + 0x1_0000_0000 - b) as u32;
                borrow = 1;
            }
            limbs.push(low);
            proof {
                lemma_prefix_same(before, limbs@, i as nat);
                lemma_weight(i as nat);
                let w: int = weight(i as nat) as int;
                let x: int = limb(self.limbs@, i as int) as int;
                let y: int = limb(other.limbs@, i as int) as int;
                assert(low * w - borrow * (0x1_0000_0000 * w) == x * w - y * w - old_borrow * w)
                    by (nonlinear_arith)
                    requires
                        low - borrow * 0x1_0000_0000 == x - y - old_borrow,
                ;
            }
            i = i + 1;
        }
        proof {
            lemma_prefix_padded(self.limbs@, length as nat);
            lemma_prefix_padded(other.limbs@, length as nat);
            lemma_prefix_bound(limbs@, length as nat);
            lemma_mul_basics(weight(length as nat) as int);
        }
        if borrow == 0 {
            Some(Natural { limbs })
        } else {
            None
        }
    }

    /// Whether this number is less than another.
    pub fn is_less(&self, other: &Natural) -> (less: bool)
        ensures
            less == (self@ < other@),
    {
        self.minus(other).is_none()
    }
}

} // verus!
