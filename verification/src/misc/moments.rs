//! The spread of recorded values: their number, sum and sum of squares,
//! from which the population variance follows exactly.
use vstd::prelude::*;

use vstd::arithmetic::div_mod::{lemma_div_denominator, lemma_div_multiples_vanish};

verus! {

/// The sum of `vs`.
pub open spec fn seq_sum(vs: Seq<nat>) -> nat
    decreases vs.len(),
{
    if vs.len() == 0 {
        0
    } else {
        seq_sum(vs.drop_last()) + vs.last()
    }
}

/// The sum of the squares of `vs`.
pub open spec fn seq_sum_sq(vs: Seq<nat>) -> nat
    decreases vs.len(),
{
    if vs.len() == 0 {
        0
    } else {
        seq_sum_sq(vs.drop_last()) + vs.last() * vs.last()
    }
}

/// Σ (n·v − s)² over the values `vs`.
pub open spec fn scaled_square_deviations(vs: Seq<nat>, n: int, s: int) -> int
    decreases vs.len(),
{
    if vs.len() == 0 {
        0
    } else {
        scaled_square_deviations(vs.drop_last(), n, s) + (n * vs.last() - s) * (n * vs.last() - s)
    }
}

/// The population variance of `vs`, rounded down: the mean of the squared
/// deviations of the values from their mean, Σ (v − S/n)² / n, written as
/// Σ (n·v − S)² / n³ to stay in the integers.
pub open spec fn population_variance(vs: Seq<nat>) -> nat {
    let n = vs.len() as int;
    if n == 0 {
        0
    } else {
        (scaled_square_deviations(vs, n, seq_sum(vs) as int) / (n * (n * n))) as nat
    }
}

/// Equal values do not spread: the population variance of values that all
/// equal `c` is zero.
pub proof fn lemma_equal_values_no_variance(vs: Seq<nat>, c: nat)
    requires
        forall|i: int| 0 <= i < vs.len() ==> vs[i] == c,
    ensures
        population_variance(vs) == 0,
{
    let n = vs.len() as int;
    lemma_sum_of_equal(vs, c);
    lemma_no_deviation(vs, n, c);
    if n > 0 {
        assert(n * (n * n) > 0) by (nonlinear_arith)
            requires
                n > 0,
        ;
    }
}

/// Values that all equal `c` sum to `len · c`.
proof fn lemma_sum_of_equal(vs: Seq<nat>, c: nat)
    requires
        forall|i: int| 0 <= i < vs.len() ==> vs[i] == c,
    ensures
        seq_sum(vs) == vs.len() * c,
    decreases vs.len(),
{
    if vs.len() > 0 {
        let rest = vs.drop_last();
        lemma_sum_of_equal(rest, c);
        assert(vs.len() * c == rest.len() * c + c) by (nonlinear_arith)
            requires
                vs.len() == rest.len() + 1,
        ;
    }
}

/// Values that all equal `c` deviate nowhere from the scaled sum `n · c`.
proof fn lemma_no_deviation(vs: Seq<nat>, n: int, c: nat)
    requires
        forall|i: int| 0 <= i < vs.len() ==> vs[i] == c,
    ensures
        scaled_square_deviations(vs, n, n * c) == 0,
    decreases vs.len(),
{
    if vs.len() > 0 {
        lemma_no_deviation(vs.drop_last(), n, c);
        assert(vs.last() == c);
    }
}

/// Σ (n·v − s)² expands into n²·Σv² − 2·n·s·Σv + len·s².
pub proof fn lemma_scaled_square_deviations(vs: Seq<nat>, n: int, s: int)
    ensures
        scaled_square_deviations(vs, n, s) == n * n * seq_sum_sq(vs) - 2 * n * s * seq_sum(vs)
            + vs.len() * s * s,
        scaled_square_deviations(vs, n, s) >= 0,
    decreases vs.len(),
{
    if vs.len() == 0 {
        assert(n * n * 0 - 2 * n * s * 0 + 0 * s * s == 0) by (nonlinear_arith);
    } else {
        let rest = vs.drop_last();
        let v = vs.last() as int;
        lemma_scaled_square_deviations(rest, n, s);
        let q = seq_sum_sq(rest) as int;
        let t = seq_sum(rest) as int;
        let k = rest.len() as int;
        assert(seq_sum_sq(vs) == q + v * v);
        assert(seq_sum(vs) == t + v);
        assert(scaled_square_deviations(vs, n, s) == scaled_square_deviations(rest, n, s) + (n * v
            - s) * (n * v - s));
        assert((n * n * q - 2 * n * s * t + k * s * s) + (n * v - s) * (n * v - s) == n * n * (q
            + v * v) - 2 * n * s * (t + v) + (k + 1) * s * s) by (nonlinear_arith);
        assert((n * v - s) * (n * v - s) >= 0) by (nonlinear_arith);
    }
}

/// With n the number of values and S their sum, the population variance
/// is (n·Σv² − S²) / n², and n·Σv² ≥ S².
pub proof fn lemma_population_variance(vs: Seq<nat>)
    requires
        vs.len() > 0,
    ensures
        vs.len() * seq_sum_sq(vs) >= seq_sum(vs) * seq_sum(vs),
        population_variance(vs) == (vs.len() * seq_sum_sq(vs) - seq_sum(vs) * seq_sum(vs)) / (
        vs.len() * vs.len()) as int,
{
    let n = vs.len() as int;
    let t = seq_sum(vs) as int;
    let q = seq_sum_sq(vs) as int;
    lemma_scaled_square_deviations(vs, n, t);
    let a = n * q - t * t;
    assert(n * n * q - 2 * n * t * t + n * t * t == n * a) by (nonlinear_arith)
        requires
            a == n * q - t * t,
    ;
    assert(a >= 0) by (nonlinear_arith)
        requires
            n * a >= 0,
            n > 0,
    ;
    assert(n * n > 0) by (nonlinear_arith)
        requires
            n > 0,
    ;
    lemma_div_multiples_vanish(a, n);
    lemma_div_denominator(n * a, n, n * n);
}

/// Whether recording `x` keeps every quantity within 128 bits, and the count
/// within 64 bits.
pub open spec fn moments_add_fits(vs: Seq<nat>, x: nat) -> bool {
    &&& vs.len() + 1 <= u64::MAX
    &&& (vs.len() + 1) * (seq_sum_sq(vs) + x * x) <= u128::MAX
}

/// The number, sum and sum of squares of the values recorded, with the
/// values themselves kept as ghost state.
#[derive(Clone, Copy)]
pub(crate) struct Moments {
    count: u64,
    sum: u128,
    sum_sq: u128,
    values: Ghost<Seq<nat>>,
}

impl View for Moments {
    type V = Seq<nat>;

    closed spec fn view(&self) -> Seq<nat> {
        self.values@
    }
}

impl Moments {
    #[verifier::type_invariant]
    spec fn consistent(self) -> bool {
        &&& self.count == self.values@.len()
        &&& self.sum == seq_sum(self.values@)
        &&& self.sum_sq == seq_sum_sq(self.values@)
        &&& self.count * self.sum_sq <= u128::MAX
        &&& self.sum * self.sum <= self.count * self.sum_sq
    }

    /// No value recorded.
    pub(crate) fn new() -> (m: Moments)
        ensures
            m@ == Seq::<nat>::empty(),
    {
        Moments { count: 0, sum: 0, sum_sq: 0, values: Ghost(Seq::empty()) }
    }

    /// The number of values recorded.
    pub(crate) fn count(&self) -> (n: u64)
        ensures
            n == self@.len(),
    {
        proof {
            use_type_invariant(self);
        }
        self.count
    }

    /// Whether `add(x)` stays within range.
    pub(crate) fn add_fits(&self, x: u128) -> (b: bool)
        ensures
            b == moments_add_fits(self@, x as nat),
    {
        proof {
            use_type_invariant(self);
        }
        let ghost vs = self@;
        if self.count == u64::MAX {
            return false;
        }
        let n: u128 = self.count as u128 + 1;
        if x > u64::MAX as u128 {
            proof {
                assert(x * x > u128::MAX) by (nonlinear_arith)
                    requires
                        x > 0xffff_ffff_ffff_ffff,
                ;
                assert(n * (seq_sum_sq(vs) + x * x) >= seq_sum_sq(vs) + x * x) by (nonlinear_arith)
                    requires
                        n >= 1,
                ;
            }
            return false;
        }
        proof {
            assert(x * x <= 0xffff_ffff_ffff_ffff * 0xffff_ffff_ffff_ffff) by (nonlinear_arith)
                requires
                    x <= 0xffff_ffff_ffff_ffff,
            ;
        }
        let sq: u128 = x * x;
        if sq > u128::MAX - self.sum_sq {
            proof {
                assert(n * (seq_sum_sq(vs) + x * x) >= seq_sum_sq(vs) + x * x) by (nonlinear_arith)
                    requires
                        n >= 1,
                ;
            }
            return false;
        }
        let q: u128 = self.sum_sq + sq;
        match n.checked_mul(q) {
            Some(_) => true,
            None => false,
        }
    }

    /// Records `x`.
    pub(crate) fn add(&mut self, x: u128)
        requires
            moments_add_fits(old(self)@, x as nat),
        ensures
            final(self)@ == old(self)@.push(x as nat),
    {
        proof {
            use_type_invariant(&*self);
        }
        let ghost vs = self@.push(x as nat);
        let ghost old_vs = self@;
        proof {
            assert(vs.drop_last() =~= old_vs);
            let n = vs.len() as int;
            let q = seq_sum_sq(vs) as int;
            assert(q == seq_sum_sq(old_vs) + x * x);
            assert(x * x <= q);
            assert(n * q <= u128::MAX);
            assert(q <= n * q) by (nonlinear_arith)
                requires
                    n >= 1,
                    q >= 0,
            ;
            lemma_population_variance(vs);
            assert(x <= x * x || x == 0) by (nonlinear_arith);
            assert(seq_sum(vs) * seq_sum(vs) <= u128::MAX);
            assert(seq_sum(vs) <= seq_sum(vs) * seq_sum(vs) || seq_sum(vs) == 0) by (nonlinear_arith);
        }
        let c = self.count + 1;
        let s = self.sum + x;
        let q = self.sum_sq + x * x;
        *self = Moments { count: c, sum: s, sum_sq: q, values: Ghost(vs) };
    }

    /// The population variance of the values recorded, rounded down; zero
    /// when none is recorded.
    pub(crate) fn variance(&self) -> (v: u128)
        ensures
            v == population_variance(self@),
    {
        proof {
            use_type_invariant(self);
        }
        if self.count == 0 {
            return 0;
        }
        let n: u128 = self.count as u128;
        proof {
            lemma_population_variance(self@);
            assert(n * n <= 0xffff_ffff_ffff_ffff * 0xffff_ffff_ffff_ffff) by (nonlinear_arith)
                requires
                    n <= 0xffff_ffff_ffff_ffff,
            ;
            assert(n * n > 0) by (nonlinear_arith)
                requires
                    n > 0,
            ;
        }
        let nq: u128 = n * self.sum_sq;
        let ss: u128 = self.sum * self.sum;
        (nq - ss) / (n * n)
    }
}

/// The integer square root of `n`, rounded down.
pub open spec fn is_floor_sqrt(r: nat, n: nat) -> bool {
    r * r <= n < (r + 1) * (r + 1)
}

/// The integer square root of `n`, rounded down.
pub(crate) fn floor_sqrt(n: u128) -> (r: u128)
    ensures
        is_floor_sqrt(r as nat, n as nat),
{
    let mut lo: u128 = 0;
    let mut hi: u128 = 0x1_0000_0000_0000_0000;
    proof {
        assert(hi as int * hi as int == 0x1_0000_0000_0000_0000_0000_0000_0000_0000);
    }
    while hi - lo > 1
        invariant
            lo < hi <= 0x1_0000_0000_0000_0000,
            lo as int * lo as int <= n as int,
            (n as int) < (hi as int) * (hi as int),
        decreases hi - lo,
    {
        let mid: u128 = lo + (hi - lo) / 2;
        proof {
            assert(mid as int * mid as int <= 0xffff_ffff_ffff_ffff * 0xffff_ffff_ffff_ffff)
                by (nonlinear_arith)
                requires
                    mid < 0x1_0000_0000_0000_0000,
            ;
        }
        if mid * mid <= n {
            lo = mid;
        } else {
            hi = mid;
        }
    }
    proof {
        assert(hi == lo + 1);
    }
    lo
}

/// The integer square root is the only root that fits: no two numbers are
/// both the floor of the square root of `n`.
pub proof fn lemma_floor_sqrt_unique(r: nat, s: nat, n: nat)
    requires
        is_floor_sqrt(r, n),
        is_floor_sqrt(s, n),
    ensures
        r == s,
        r * r <= n,
{
    if r < s {
        assert((r + 1) * (r + 1) <= s * s) by (nonlinear_arith)
            requires
                r + 1 <= s,
        ;
    }
    if s < r {
        assert((s + 1) * (s + 1) <= r * r) by (nonlinear_arith)
            requires
                s + 1 <= r,
        ;
    }
}

} // verus!
