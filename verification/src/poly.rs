//! Dense univariate polynomials over the scalar field.
//!
//! Coefficients are stored from lowest to highest degree, with no trailing
//! zero coefficient; the zero polynomial has an empty coefficient vector and
//! degree zero by convention. Evaluation uses Horner's rule, and division by
//! a monic linear divisor `(X - z)` is performed by synthetic division, whose
//! quotient coefficients are exactly the Horner suffix evaluations.

use vstd::prelude::*;

use crate::field::{fr_modulus, lemma_u64_below_modulus, scalar_add, scalar_mul, Scalar};
use crate::group::{scalar_values, scalars_wf};
use vstd::arithmetic::div_mod::{lemma_add_mod_noop, lemma_small_mod};

verus! {

/// The value, below the modulus, of the polynomial with coefficient values
/// `c` (lowest degree first) at the point `x`.
pub open spec fn poly_eval(c: Seq<nat>, x: nat) -> nat
    decreases c.len(),
{
    if c.len() == 0 {
        0
    } else {
        ((c[0] + x * poly_eval(c.subrange(1, c.len() as int), x)) as nat) % fr_modulus()
    }
}

/// The coefficient values of the witness polynomial of an opening at `z`:
/// the quotient of dividing by `(X - z)`, whose coefficient of degree `i` is
/// the Horner evaluation of the coefficients above degree `i`.
pub open spec fn witness_values(c: Seq<nat>, z: nat) -> Seq<nat> {
    if c.len() == 0 {
        Seq::empty()
    } else {
        Seq::new((c.len() - 1) as nat, |i: int| poly_eval(c.subrange(i + 1, c.len() as int), z))
    }
}

/// The number of coefficients left after dropping trailing zero values.
pub open spec fn significant_len(c: Seq<nat>) -> nat
    decreases c.len(),
{
    if c.len() == 0 {
        0
    } else if c.last() == 0 {
        significant_len(c.drop_last())
    } else {
        c.len()
    }
}

/// One Horner step: the suffix evaluation from `i` is the coefficient at `i`
/// plus `z` times the suffix evaluation from `i + 1`, reduced, in the order
/// the executable code computes it.
proof fn lemma_poly_eval_step(c: Seq<nat>, z: nat, i: int)
    requires
        0 <= i < c.len(),
        c[i] < fr_modulus(),
    ensures
        poly_eval(c.subrange(i, c.len() as int), z) == ((z * poly_eval(
            c.subrange(i + 1, c.len() as int),
            z,
        )) % fr_modulus() + c[i]) % fr_modulus(),
{
    let n = c.len() as int;
    let s = c.subrange(i, n);
    assert(s[0] == c[i]);
    assert(s.subrange(1, s.len() as int) =~= c.subrange(i + 1, n));
    let e = poly_eval(c.subrange(i + 1, n), z);
    lemma_u64_below_modulus(0);
    lemma_small_mod(c[i], fr_modulus());
    lemma_add_mod_noop((z * e) as int, c[i] as int, fr_modulus() as int);
}

/// A dense univariate polynomial: coefficients from lowest to highest
/// degree, the last one nonzero.
#[derive(Debug, PartialEq, Eq)]
pub struct DensePolynomial {
    /// Coefficients, index equals degree.
    pub coeffs: Vec<Scalar>,
}

impl DensePolynomial {
    /// The coefficient values, lowest degree first.
    pub open spec fn values(&self) -> Seq<nat> {
        scalar_values(self.coeffs@)
    }

    /// Every coefficient is canonically encoded and the representation
    /// carries no trailing zero coefficient.
    pub open spec fn wf(&self) -> bool {
        &&& scalars_wf(self.coeffs@)
        &&& (self.coeffs@.len() == 0 || self.coeffs@.last().value() != 0)
    }

    /// The degree: the index of the last coefficient, or zero for the zero
    /// polynomial.
    pub open spec fn spec_degree(&self) -> nat {
        if self.coeffs@.len() <= 1 {
            0
        } else {
            (self.coeffs@.len() - 1) as nat
        }
    }

    /// The degree of the polynomial.
    pub fn degree(&self) -> (r: usize)
        ensures
            r == self.spec_degree(),
    {
        if self.coeffs.len() <= 1 {
            0
        } else {
            self.coeffs.len() - 1
        }
    }

    /// Build a polynomial from a coefficient vector, lowest degree first,
    /// dropping trailing zero coefficients.
    pub fn from_coefficients_vec(coeffs: Vec<Scalar>) -> (r: DensePolynomial)
        requires
            scalars_wf(coeffs@),
        ensures
            r.wf(),
            r.values() == scalar_values(coeffs@).subrange(
                0,
                significant_len(scalar_values(coeffs@)) as int,
            ),
    {
        let mut v = coeffs;
        while v.len() > 0 && v[v.len() - 1].is_zero()
            invariant
                scalars_wf(v@),
                v@.len() <= coeffs@.len(),
                v@ == coeffs@.subrange(0, v@.len() as int),
                significant_len(scalar_values(v@)) == significant_len(scalar_values(coeffs@)),
            decreases v@.len(),
        {
            proof {
                let vals = scalar_values(v@);
                assert(vals.last() == 0);
                assert(vals.drop_last() =~= scalar_values(v@.drop_last()));
                assert(v@.drop_last() =~= coeffs@.subrange(0, v@.len() - 1));
            }
            v.pop();
        }
        proof {
            let vals = scalar_values(v@);
            if v@.len() > 0 {
                assert(vals.last() == v@.last().value());
                assert(significant_len(vals) == vals.len());
            }
            assert(scalar_values(v@) =~= scalar_values(coeffs@).subrange(0, v@.len() as int));
        }
        DensePolynomial { coeffs: v }
    }

    /// Evaluate the polynomial at `point` by Horner's rule.
    pub fn evaluate(&self, point: &Scalar) -> (r: Scalar)
        requires
            scalars_wf(self.coeffs@),
            point.wf(),
        ensures
            r.wf(),
            r.value() == poly_eval(self.values(), point.value()),
    {
        let n = self.coeffs.len();
        let mut acc = Scalar::zero();
        let mut i: usize = n;
        proof {
            assert(self.values().subrange(n as int, n as int) =~= Seq::<nat>::empty());
        }
        while i > 0
            invariant
                i <= n,
                n == self.coeffs@.len(),
                scalars_wf(self.coeffs@),
                point.wf(),
                acc.wf(),
                acc.value() == poly_eval(
                    self.values().subrange(i as int, n as int),
                    point.value(),
                ),
            decreases i,
        {
            i = i - 1;
            let t = scalar_mul(&acc, point);
            proof {
                assert(self.values()[i as int] == self.coeffs@[i as int].value());
                assert(self.values()[i as int] < fr_modulus());
                lemma_poly_eval_step(self.values(), point.value(), i as int);
            }
            let e: Ghost<nat> = Ghost(acc.value());
            acc = scalar_add(&t, &self.coeffs[i]);
            proof {
                let c = self.values();
                assert(c.len() == n);
                assert(c.subrange(i as int, n as int) =~= c.subrange(i as int, c.len() as int));
                assert(c.subrange(i as int + 1, n as int) =~= c.subrange(
                    i as int + 1,
                    c.len() as int,
                ));
                assert(e@ == poly_eval(c.subrange(i as int + 1, n as int), point.value()));
                assert(t.value() == (e@ * point.value()) % fr_modulus());
                assert(acc.value() == (t.value() + c[i as int]) % fr_modulus());
                assert(poly_eval(c.subrange(i as int, c.len() as int), point.value()) == ((
                point.value() * poly_eval(c.subrange(i as int + 1, c.len() as int), point.value()))
                    % fr_modulus() + c[i as int]) % fr_modulus());
                assert(e@ * point.value() == point.value() * e@);
                assert(acc.value() == poly_eval(c.subrange(i as int, n as int), point.value()));
            }
        }
        proof {
            assert(self.values().subrange(0, n as int) =~= self.values());
        }
        acc
    }

    /// The quotient of dividing the polynomial by the monic linear divisor
    /// `(X - z)`, by synthetic division; the remainder, which equals the
    /// value at `z`, is discarded.
    pub fn divide_by_linear(&self, z: &Scalar) -> (r: Vec<Scalar>)
        requires
            scalars_wf(self.coeffs@),
            z.wf(),
        ensures
            scalars_wf(r@),
            scalar_values(r@) == witness_values(self.values(), z.value()),
    {
        let n = self.coeffs.len();
        if n <= 1 {
            let r: Vec<Scalar> = Vec::new();
            proof {
                assert(scalar_values(r@) =~= witness_values(self.values(), z.value()));
            }
            return r;
        }
        let d = n - 1;
        let mut rev: Vec<Scalar> = Vec::new();
        let mut acc = Scalar::zero();
        let mut j: usize = d;
        proof {
            assert(self.values().subrange(n as int, n as int) =~= Seq::<nat>::empty());
        }
        while j >= 1
            invariant
                1 <= n == self.coeffs@.len(),
                d == n - 1,
                j <= d,
                scalars_wf(self.coeffs@),
                z.wf(),
                acc.wf(),
                acc.value() == poly_eval(
                    self.values().subrange(j as int + 1, n as int),
                    z.value(),
                ),
                rev@.len() == d - j,
                scalars_wf(rev@),
                forall|k: int|
                    0 <= k < rev@.len() ==> #[trigger] rev@[k].value() == poly_eval(
                        self.values().subrange(d - k, n as int),
                        z.value(),
                    ),
            decreases j,
        {
            let t = scalar_mul(&acc, z);
            proof {
                lemma_poly_eval_step(self.values(), z.value(), j as int);
            }
            acc = scalar_add(&t, &self.coeffs[j]);
            rev.push(acc.duplicate());
            j = j - 1;
        }
        let mut out: Vec<Scalar> = Vec::new();
        let mut i: usize = 0;
        while i < d
            invariant
                d == rev@.len(),
                d == self.coeffs@.len() - 1,
                i <= d,
                scalars_wf(rev@),
                scalars_wf(out@),
                out@.len() == i,
                forall|k: int|
                    0 <= k < rev@.len() ==> #[trigger] rev@[k].value() == poly_eval(
                        self.values().subrange(d - k, self.coeffs@.len() as int),
                        z.value(),
                    ),
                forall|k: int|
                    0 <= k < i ==> #[trigger] out@[k].value() == poly_eval(
                        self.values().subrange(k + 1, self.coeffs@.len() as int),
                        z.value(),
                    ),
            decreases d - i,
        {
            out.push(rev[d - 1 - i].duplicate());
            i = i + 1;
        }
        proof {
            assert(scalar_values(out@) =~= witness_values(self.values(), z.value()));
        }
        out
    }
}

} // verus!
