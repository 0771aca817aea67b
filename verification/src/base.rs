//! General functions, types and the scalar abstraction.

use vstd::prelude::*;

verus! {

/// The scalar the network computes with.
///
/// Every arithmetic step of the engine goes through this trait, and each
/// executable operation is pinned to its own specification-level counterpart,
/// so the contracts of the whole crate state — exactly, operation by
/// operation — which expression over these scalars each output and each
/// updated weight equals.
///
/// The trait makes no numeric promises (no commutativity, no rounding rule):
/// the engine's contracts hold for any implementation, including
/// floating-point ones supplied by the host, which a verifier cannot model
/// directly. This crate grounds the trait with a saturating `i64` scalar.
pub trait Signal: Sized + Copy {
    /// What `add` returns.
    spec fn add_spec(self, o: Self) -> Self;

    /// What `sub` returns.
    spec fn sub_spec(self, o: Self) -> Self;

    /// What `mul` returns.
    spec fn mul_spec(self, o: Self) -> Self;

    /// What `div` returns.
    spec fn div_spec(self, o: Self) -> Self;

    /// What `neg` returns.
    spec fn neg_spec(self) -> Self;

    /// What `exp` returns.
    spec fn exp_spec(self) -> Self;

    /// What `le` returns.
    spec fn le_spec(self, o: Self) -> bool;

    /// What `zero` returns: the additive identity by intent.
    spec fn zero_spec() -> Self;

    /// What `one` returns: the multiplicative identity by intent.
    spec fn one_spec() -> Self;

    /// What `from_usize` returns.
    spec fn from_usize_spec(n: usize) -> Self;

    fn add(self, o: Self) -> (r: Self)
        ensures
            r == self.add_spec(o),
    ;

    fn sub(self, o: Self) -> (r: Self)
        ensures
            r == self.sub_spec(o),
    ;

    fn mul(self, o: Self) -> (r: Self)
        ensures
            r == self.mul_spec(o),
    ;

    fn div(self, o: Self) -> (r: Self)
        ensures
            r == self.div_spec(o),
    ;

    fn neg(self) -> (r: Self)
        ensures
            r == self.neg_spec(),
    ;

    /// The exponential function, or whatever stands in for it.
    fn exp(self) -> (r: Self)
        ensures
            r == self.exp_spec(),
    ;

    /// `self <= o` in the scalar's own order.
    fn le(self, o: Self) -> (r: bool)
        ensures
            r == self.le_spec(o),
    ;

    fn zero() -> (r: Self)
        ensures
            r == Self::zero_spec(),
    ;

    fn one() -> (r: Self)
        ensures
            r == Self::one_spec(),
    ;

    fn from_usize(n: usize) -> (r: Self)
        ensures
            r == Self::from_usize_spec(n),
    ;
}

/// `x` clamped into `i64`'s range.
pub open spec fn sat_i64(x: int) -> i64 {
    if x > i64::MAX {
        i64::MAX
    } else if x < i64::MIN {
        i64::MIN
    } else {
        x as i64
    }
}

/// Division truncated toward zero, as `i64` division rounds.
pub open spec fn trunc_div_i64(x: int, d: int) -> int {
    if x == 0 {
        0
    } else if x > 0 && d > 0 {
        x / d
    } else if x < 0 && d < 0 {
        (x * -1) / (d * -1)
    } else if x < 0 {
        ((x * -1) / d) * -1
    } else {
        (x / (d * -1)) * -1
    }
}

/// A saturating integer scalar: the crate's own grounding of [`Signal`].
///
/// Sums, differences and products clamp at the ends of `i64`'s range instead
/// of overflowing; division by zero saturates high; `exp` is the crudest
/// non-negative monotone stand-in, `x + 1` above zero and `0` below. With
/// `one() == 1`, the sigmoid built from these operations degenerates into a
/// hard threshold unit, which is enough to run every structural guarantee of
/// the engine end to end in verified code.
impl Signal for i64 {
    open spec fn add_spec(self, o: i64) -> i64 {
        sat_i64(self + o)
    }

    open spec fn sub_spec(self, o: i64) -> i64 {
        sat_i64(self - o)
    }

    open spec fn mul_spec(self, o: i64) -> i64 {
        sat_i64(self * o)
    }

    open spec fn div_spec(self, o: i64) -> i64 {
        if o == 0 {
            i64::MAX
        } else {
            sat_i64(trunc_div_i64(self as int, o as int))
        }
    }

    open spec fn neg_spec(self) -> i64 {
        sat_i64(-(self as int))
    }

    open spec fn exp_spec(self) -> i64 {
        if self >= 0 {
            sat_i64(self + 1)
        } else {
            0
        }
    }

    open spec fn le_spec(self, o: i64) -> bool {
        self <= o
    }

    open spec fn zero_spec() -> i64 {
        0
    }

    open spec fn one_spec() -> i64 {
        1
    }

    open spec fn from_usize_spec(n: usize) -> i64 {
        if n > i64::MAX as usize {
            i64::MAX
        } else {
            n as i64
        }
    }

    fn add(self, o: i64) -> (r: i64) {
        match self.checked_add(o) {
            Some(v) => v,
            None => if o >= 0 {
                i64::MAX
            } else {
                i64::MIN
            },
        }
    }

    fn sub(self, o: i64) -> (r: i64) {
        match self.checked_sub(o) {
            Some(v) => v,
            None => if o >= 0 {
                i64::MIN
            } else {
                i64::MAX
            },
        }
    }

    fn mul(self, o: i64) -> (r: i64) {
        match self.checked_mul(o) {
            Some(v) => v,
            None => {
                proof {
                    lemma_mul_overflow_sign(self as int, o as int);
                }
                if (self < 0) == (o < 0) {
                    i64::MAX
                } else {
                    i64::MIN
                }
            },
        }
    }

    fn div(self, o: i64) -> (r: i64) {
        match self.checked_div(o) {
            Some(v) => v,
            None => i64::MAX,
        }
    }

    fn neg(self) -> (r: i64) {
        if self == i64::MIN {
            i64::MAX
        } else {
            -self
        }
    }

    fn exp(self) -> (r: i64) {
        if self < 0 {
            0
        } else if self == i64::MAX {
            i64::MAX
        } else {
            self + 1
        }
    }

    fn le(self, o: i64) -> (r: bool) {
        self <= o
    }

    fn zero() -> (r: i64) {
        0
    }

    fn one() -> (r: i64) {
        1
    }

    fn from_usize(n: usize) -> (r: i64) {
        if n > i64::MAX as usize {
            i64::MAX
        } else {
            n as i64
        }
    }
}

/// When a product of two `i64` values leaves the range, its sign is the sign
/// the factors dictate.
proof fn lemma_mul_overflow_sign(a: int, b: int)
    requires
        i64::MIN <= a <= i64::MAX,
        i64::MIN <= b <= i64::MAX,
        a * b > i64::MAX || a * b < i64::MIN,
    ensures
        ((a < 0) == (b < 0)) ==> a * b > i64::MAX,
        ((a < 0) != (b < 0)) ==> a * b < i64::MIN,
{
    assert(((a < 0) == (b < 0)) ==> a * b >= 0) by (nonlinear_arith);
    assert(((a < 0) != (b < 0)) ==> a * b <= 0) by (nonlinear_arith);
}

/// The sigmoid of `v`, written with the scalar's own operations:
/// `one / (one + exp(neg v))`.
pub open spec fn spec_sigmoid<S: Signal>(v: S) -> S {
    S::one_spec().div_spec(S::one_spec().add_spec(v.neg_spec().exp_spec()))
}

/// The logistic-derivative shortcut, evaluated on an already-computed
/// activation `a`: `a * (one - a)`.
pub open spec fn spec_sigmoid_deriv<S: Signal>(a: S) -> S {
    a.mul_spec(S::one_spec().sub_spec(a))
}

/// The derivative identity: for any activation `a`, the sigmoid's derivative
/// shortcut equals `a * (1 - a)` exactly, in the scalar's own operations.
pub proof fn lemma_derivative_identity<S: Signal>(a: S)
    ensures
        spec_sigmoid_deriv(a) == a.mul_spec(S::one_spec().sub_spec(a)),
{
}

/// An activation algorithm: a forward squashing function together with its
/// derivative, the latter taken on the already-computed forward output.
pub trait Algorithm<S: Signal>: Clone {
    /// What `errors` returns.
    spec fn spec_errors(&self, v: S) -> S;

    /// What `derivative` returns.
    spec fn spec_derivative(&self, v: S) -> S;

    /// The forward squashing function.
    fn errors(&self, liner_combination_factory: S) -> (r: S)
        ensures
            r == self.spec_errors(liner_combination_factory),
    ;

    /// The derivative, in terms of the forward output.
    fn derivative(&self, liner_combination_factor: S) -> (r: S)
        ensures
            r == self.spec_derivative(liner_combination_factor),
    ;
}

/// The sigmoid algorithm: `errors(v) = 1 / (1 + exp(-v))` and
/// `derivative(a) = a * (1 - a)`.
#[derive(Clone, Copy)]
pub struct Sigmoid;

impl<S: Signal> Algorithm<S> for Sigmoid {
    open spec fn spec_errors(&self, v: S) -> S {
        spec_sigmoid(v)
    }

    open spec fn spec_derivative(&self, v: S) -> S {
        spec_sigmoid_deriv(v)
    }

    fn errors(&self, liner_combination_factory: S) -> (r: S) {
        S::one().div(S::one().add(liner_combination_factory.neg().exp()))
    }

    fn derivative(&self, liner_combination_factor: S) -> (r: S) {
        liner_combination_factor.mul(S::one().sub(liner_combination_factor))
    }
}

/// An element-for-element copy of a vector of scalars.
pub fn copy_signals<S: Signal>(v: &Vec<S>) -> (r: Vec<S>)
    ensures
        r@ == v@,
{
    let mut r: Vec<S> = Vec::new();
    let mut i: usize = 0;
    while i < v.len()
        invariant
            i <= v.len(),
            r@ == v@.take(i as int),
        decreases v.len() - i,
    {
        r.push(v[i]);
        i = i + 1;
    }
    proof {
        assert(r@ == v@.take(v@.len() as int));
        assert(v@.take(v@.len() as int) == v@);
    }
    r
}

} // verus!
