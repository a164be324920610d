//! Polynomials over the scalar field and power-of-two evaluation domains.
//!
//! A polynomial is held densely, as all its coefficients up to the leading
//! one, or sparsely, as its nonzero terms in the order of their exponents.
//! Either way it stands for the same thing: the sequence of its coefficients
//! without trailing zeros, which is empty for the zero polynomial.

use vstd::prelude::*;
use ark_bls12_381::Fr;
use ark_ff::{BigInt, PrimeField};
use ark_poly::univariate::{DenseOrSparsePolynomial, DensePolynomial};
use ark_poly::{DenseUVPolynomial, EvaluationDomain, Evaluations, Radix2EvaluationDomain};
use crate::field::{
    Scalar, all_wf, canonical_text, decimal_digits, field_add, field_mul, field_neg, field_pow,
    field_sub, modulus,
};
use crate::utils::{ArithmeticError, push_str};

verus! {

/// Failure to build an evaluation domain.
#[derive(Clone, Copy, Debug, PartialEq, Eq, Structural)]
pub enum DomainError {
    /// The field has no subgroup of the order asked for.
    InvalidSize,
}

/// The largest order of a domain: two to the power of the field's
/// two-adicity.
pub const MAX_DOMAIN_SIZE: u64 = 0x1_0000_0000;

/// Some power of two that the field and the machine support is not below
/// `size`.
pub open spec fn domain_exists(size: nat) -> bool {
    exists|m: nat| #[trigger]
        is_power_of_two(m) && m >= size && m <= MAX_DOMAIN_SIZE && m <= usize::MAX
}

/// `n` is a power of two.
pub open spec fn is_power_of_two(n: nat) -> bool
    decreases n,
{
    n == 1 || (n > 1 && n % 2 == 0 && is_power_of_two(n / 2))
}

/// The coefficient of `x^i`, which is zero beyond the stored ones.
pub open spec fn coeff(p: Seq<nat>, i: int) -> nat {
    if 0 <= i < p.len() {
        p[i]
    } else {
        0
    }
}

/// The coefficients without trailing zeros.
pub open spec fn trim(p: Seq<nat>) -> Seq<nat>
    decreases p.len(),
{
    if p.len() > 0 && p.last() == 0 {
        trim(p.drop_last())
    } else {
        p
    }
}

/// Coefficients in canonical form: residues, the leading one not zero.
pub open spec fn is_canonical(p: Seq<nat>) -> bool {
    &&& forall|i: int| 0 <= i < p.len() ==> #[trigger] p[i] < modulus()
    &&& p.len() > 0 ==> p.last() != 0
}

/// The longer of two lengths.
pub open spec fn longer(a: nat, b: nat) -> nat {
    if a >= b {
        a
    } else {
        b
    }
}

/// The sum of two polynomials: term by term.
pub open spec fn poly_sum(a: Seq<nat>, b: Seq<nat>) -> Seq<nat> {
    trim(Seq::new(longer(a.len(), b.len()), |i: int| field_add(coeff(a, i), coeff(b, i))))
}

/// The difference of two polynomials: term by term.
pub open spec fn poly_difference(a: Seq<nat>, b: Seq<nat>) -> Seq<nat> {
    trim(Seq::new(longer(a.len(), b.len()), |i: int| field_sub(coeff(a, i), coeff(b, i))))
}

/// The negation of a polynomial: term by term.
pub open spec fn poly_negation(a: Seq<nat>) -> Seq<nat> {
    Seq::new(a.len(), |i: int| field_neg(a[i]))
}

/// The sum of `a[i] * b[k - i]` over `i` below `upto`.
pub open spec fn convolution_at(a: Seq<nat>, b: Seq<nat>, k: int, upto: int) -> nat
    decreases upto,
{
    if upto <= 0 {
        0
    } else {
        field_add(
            convolution_at(a, b, k, upto - 1),
            field_mul(coeff(a, upto - 1), coeff(b, k - (upto - 1))),
        )
    }
}

/// The product of two polynomials: the convolution of their coefficients.
pub open spec fn poly_product(a: Seq<nat>, b: Seq<nat>) -> Seq<nat> {
    if a.len() == 0 || b.len() == 0 {
        Seq::empty()
    } else {
        trim(Seq::new((a.len() + b.len() - 1) as nat, |k: int| convolution_at(a, b, k, k + 1)))
    }
}

/// The value of a polynomial at `x`.
pub open spec fn poly_eval(p: Seq<nat>, x: nat) -> nat
    decreases p.len(),
{
    if p.len() == 0 {
        0
    } else {
        field_add(p[0], field_mul(x, poly_eval(p.subrange(1, p.len() as int), x)))
    }
}

/// The generator of the subgroup of order `size`.
pub uninterp spec fn root_of_unity(size: nat) -> nat;

/// The `i`-th element of the domain of order `size`: the `i`-th power of its
/// generator.
pub open spec fn domain_element(size: nat, i: nat) -> nat {
    field_pow(root_of_unity(size), i)
}

/// The values of a polynomial at all elements of the domain, in their order.
pub open spec fn evaluations(size: nat, p: Seq<nat>) -> Seq<nat> {
    Seq::new(size, |i: int| poly_eval(p, domain_element(size, i as nat)))
}

/// `p` interpolates `values` on the domain: it has fewer than `size`
/// coefficients and takes the `i`-th value at the `i`-th element.
pub open spec fn interpolates(size: nat, values: Seq<nat>, p: Seq<nat>) -> bool {
    &&& p.len() <= size
    &&& forall|i: int|
        0 <= i < size ==> poly_eval(p, #[trigger] domain_element(size, i as nat)) == coeff(
            values,
            i,
        )
}

/// The vanishing polynomial of the domain of order `size`: `x^size - 1`.
pub open spec fn vanishing_coefficients(size: nat) -> Seq<nat> {
    Seq::new(
        size + 1,
        |i: int|
            if i == 0 {
                field_neg(1)
            } else if i == size {
                1nat
            } else {
                0nat
            },
    )
}

/// The residues of a sequence of scalars.
pub open spec fn residues(v: Seq<Scalar>) -> Seq<nat> {
    Seq::new(v.len(), |i: int| v[i]@)
}

/// The coefficient of `x^i` among sparse terms: that of the last term with
/// this exponent, zero if there is none.
pub open spec fn sparse_coeff(terms: Seq<(usize, Scalar)>, i: int) -> nat
    decreases terms.len(),
{
    if terms.len() == 0 {
        0
    } else if terms.last().0 == i {
        terms.last().1@
    } else {
        sparse_coeff(terms.drop_last(), i)
    }
}

/// The coefficients that sparse terms stand for.
pub open spec fn sparse_coefficients(terms: Seq<(usize, Scalar)>) -> Seq<nat> {
    if terms.len() == 0 {
        Seq::empty()
    } else {
        Seq::new((terms.last().0 + 1) as nat, |i: int| sparse_coeff(terms, i))
    }
}

/// Sparse terms are valid: nonzero residues at strictly rising exponents.
pub open spec fn sparse_valid(terms: Seq<(usize, Scalar)>) -> bool {
    &&& forall|k: int|
        0 <= k < terms.len() ==> (#[trigger] terms[k]).1.wf() && terms[k].1@ != 0 && terms[k].0
            < usize::MAX
    &&& forall|j: int, k: int| 0 <= j < k < terms.len() ==> terms[j].0 < terms[k].0
}

/// Dense coefficients are valid: residues, the leading one not zero.
pub open spec fn dense_valid(coeffs: Seq<Scalar>) -> bool {
    all_wf(coeffs) && is_canonical(residues(coeffs))
}

/// `Radix2EvaluationDomain::element`: the `i`-th power of the generator of
/// the domain, which is one where `i` is the order of the domain.
#[verifier::external_body]
fn domain_element_at(size: usize, i: usize) -> (r: Scalar)
    requires
        is_power_of_two(size as nat),
        size <= MAX_DOMAIN_SIZE,
    ensures
        r.wf(),
        r@ == field_pow(root_of_unity(size as nat), i as nat),
        i == size ==> r@ == 1,
{
    let d = Radix2EvaluationDomain::<Fr>::new(size).unwrap();
    let l = d.element(i).into_bigint().0;
    Scalar { l0: l[0], l1: l[1], l2: l[2], l3: l[3] }
}

/// `Radix2EvaluationDomain::elements`: all elements of the domain, the
/// powers of its generator in rising order.
#[verifier::external_body]
fn domain_elements(size: usize) -> (r: Vec<Scalar>)
    requires
        is_power_of_two(size as nat),
        size <= MAX_DOMAIN_SIZE,
    ensures
        all_wf(r@),
        r@.len() == size,
        forall|i: int| 0 <= i < size ==> (#[trigger] r@[i])@ == domain_element(size as nat, i as nat),
{
    let d = Radix2EvaluationDomain::<Fr>::new(size).unwrap();
    d.elements()
        .map(|y| Scalar::from_limbs(y.into_bigint().0))
        .collect()
}

/// `Evaluations::interpolate` over a radix-2 domain: the canonical
/// polynomial with fewer coefficients than the domain has elements that
/// takes the given values on it.
#[verifier::external_body]
fn domain_interpolate(size: usize, values: &Vec<Scalar>) -> (r: Vec<Scalar>)
    requires
        is_power_of_two(size as nat),
        size <= MAX_DOMAIN_SIZE,
        values@.len() == size,
        all_wf(values@),
    ensures
        dense_valid(r@),
        interpolates(size as nat, residues(values@), residues(r@)),
{
    let d = Radix2EvaluationDomain::<Fr>::new(size).unwrap();
    let v: Vec<Fr> = values.iter()
        .map(|a| Fr::from_bigint(BigInt(a.limbs())).unwrap())
        .collect();
    let p = Evaluations::from_vec_and_domain(v, d).interpolate();
    p.coeffs.iter()
        .map(|y| Scalar::from_limbs(y.into_bigint().0))
        .collect()
}

/// `DenseOrSparsePolynomial::evaluate_over_domain` over a radix-2 domain:
/// the values of the polynomial at all elements of the domain.
#[verifier::external_body]
fn domain_evaluate(size: usize, coeffs: &Vec<Scalar>) -> (r: Vec<Scalar>)
    requires
        is_power_of_two(size as nat),
        size <= MAX_DOMAIN_SIZE,
        dense_valid(coeffs@),
    ensures
        all_wf(r@),
        residues(r@) == evaluations(size as nat, residues(coeffs@)),
{
    let d = Radix2EvaluationDomain::<Fr>::new(size).unwrap();
    let c: Vec<Fr> = coeffs.iter()
        .map(|a| Fr::from_bigint(BigInt(a.limbs())).unwrap())
        .collect();
    let p = DensePolynomial::from_coefficients_vec(c);
    DenseOrSparsePolynomial::evaluate_over_domain(p, d).evals.iter()
        .map(|y| Scalar::from_limbs(y.into_bigint().0))
        .collect()
}

/// `Polynomial::evaluate` of a dense polynomial: its value at the point.
#[verifier::external_body]
fn dense_evaluate(coeffs: &Vec<Scalar>, point: &Scalar) -> (r: Scalar)
    requires
        dense_valid(coeffs@),
        point.wf(),
    ensures
        r.wf(),
        r@ == poly_eval(residues(coeffs@), point@),
{
    let c: Vec<Fr> = coeffs.iter()
        .map(|a| Fr::from_bigint(BigInt(a.limbs())).unwrap())
        .collect();
    let x = Fr::from_bigint(BigInt([point.l0, point.l1, point.l2, point.l3])).unwrap();
    let l = ark_poly::Polynomial::evaluate(&DensePolynomial::from_coefficients_vec(c), &x).into_bigint().0;
    Scalar { l0: l[0], l1: l[1], l2: l[2], l3: l[3] }
}

/// `&DensePolynomial + &DensePolynomial`: the sum, term by term.
#[verifier::external_body]
fn dense_add(a: &Vec<Scalar>, b: &Vec<Scalar>) -> (r: Vec<Scalar>)
    requires
        dense_valid(a@),
        dense_valid(b@),
    ensures
        dense_valid(r@),
        residues(r@) == poly_sum(residues(a@), residues(b@)),
{
    let f = |a: &Scalar| Fr::from_bigint(BigInt(a.limbs())).unwrap();
    let x = DensePolynomial::from_coefficients_vec(a.iter().map(f).collect());
    let y = DensePolynomial::from_coefficients_vec(b.iter().map(f).collect());
    (&x + &y).coeffs.iter()
        .map(|y| Scalar::from_limbs(y.into_bigint().0))
        .collect()
}

/// `&DensePolynomial - &DensePolynomial`: the difference, term by term.
#[verifier::external_body]
fn dense_sub(a: &Vec<Scalar>, b: &Vec<Scalar>) -> (r: Vec<Scalar>)
    requires
        dense_valid(a@),
        dense_valid(b@),
    ensures
        dense_valid(r@),
        residues(r@) == poly_difference(residues(a@), residues(b@)),
{
    let f = |a: &Scalar| Fr::from_bigint(BigInt(a.limbs())).unwrap();
    let x = DensePolynomial::from_coefficients_vec(a.iter().map(f).collect());
    let y = DensePolynomial::from_coefficients_vec(b.iter().map(f).collect());
    (&x - &y).coeffs.iter()
        .map(|y| Scalar::from_limbs(y.into_bigint().0))
        .collect()
}

/// `&DensePolynomial * &DensePolynomial`: the product, for factors whose
/// product fits a domain of the field.
#[verifier::external_body]
fn dense_mul(a: &Vec<Scalar>, b: &Vec<Scalar>) -> (r: Vec<Scalar>)
    requires
        dense_valid(a@),
        dense_valid(b@),
        a@.len() + b@.len() <= MAX_DOMAIN_SIZE,
    ensures
        dense_valid(r@),
        residues(r@) == poly_product(residues(a@), residues(b@)),
{
    let f = |a: &Scalar| Fr::from_bigint(BigInt(a.limbs())).unwrap();
    let x = DensePolynomial::from_coefficients_vec(a.iter().map(f).collect());
    let y = DensePolynomial::from_coefficients_vec(b.iter().map(f).collect());
    (&x * &y).coeffs.iter()
        .map(|y| Scalar::from_limbs(y.into_bigint().0))
        .collect()
}

/// `-DensePolynomial`: the negation, term by term.
#[verifier::external_body]
fn dense_neg(a: &Vec<Scalar>) -> (r: Vec<Scalar>)
    requires
        dense_valid(a@),
    ensures
        dense_valid(r@),
        residues(r@) == poly_negation(residues(a@)),
{
    let f = |a: &Scalar| Fr::from_bigint(BigInt(a.limbs())).unwrap();
    let x = DensePolynomial::from_coefficients_vec(a.iter().map(f).collect());
    (-x).coeffs.iter()
        .map(|y| Scalar::from_limbs(y.into_bigint().0))
        .collect()
}

/// `DenseOrSparsePolynomial::divide_with_q_and_r` with a dense, nonzero
/// divisor: quotient and remainder, where the quotient times the divisor
/// plus the remainder is the dividend and the remainder has fewer
/// coefficients than the divisor.
#[verifier::external_body]
fn dense_divide(a: &Vec<Scalar>, b: &Vec<Scalar>) -> (r: (Vec<Scalar>, Vec<Scalar>))
    requires
        dense_valid(a@),
        dense_valid(b@),
        b@.len() > 0,
    ensures
        dense_valid(r.0@),
        dense_valid(r.1@),
        poly_sum(poly_product(residues(r.0@), residues(b@)), residues(r.1@)) == residues(a@),
        r.1@.len() < b@.len(),
{
    let f = |a: &Scalar| Fr::from_bigint(BigInt(a.limbs())).unwrap();
    let g = |y: &Fr| Scalar::from_limbs(y.into_bigint().0);
    let x = DensePolynomial::from_coefficients_vec(a.iter().map(f).collect());
    let y = DensePolynomial::from_coefficients_vec(b.iter().map(f).collect());
    let x = DenseOrSparsePolynomial::from(x);
    let (q, r) = x.divide_with_q_and_r(&DenseOrSparsePolynomial::from(y)).unwrap();
    (q.coeffs.iter().map(g).collect(), r.coeffs.iter().map(g).collect())
}

/// `DenseOrSparsePolynomial::divide_with_q_and_r` by the sparse vanishing
/// polynomial of a radix-2 domain: quotient and remainder as for any
/// divisor.
#[verifier::external_body]
fn dense_divide_by_vanishing(a: &Vec<Scalar>, size: usize) -> (r: (Vec<Scalar>, Vec<Scalar>))
    requires
        dense_valid(a@),
        is_power_of_two(size as nat),
        size <= MAX_DOMAIN_SIZE,
    ensures
        dense_valid(r.0@),
        dense_valid(r.1@),
        poly_sum(
            poly_product(residues(r.0@), vanishing_coefficients(size as nat)),
            residues(r.1@),
        ) == residues(a@),
        r.1@.len() <= size,
{
    let f = |a: &Scalar| Fr::from_bigint(BigInt(a.limbs())).unwrap();
    let g = |y: &Fr| Scalar::from_limbs(y.into_bigint().0);
    let x = DensePolynomial::from_coefficients_vec(a.iter().map(f).collect());
    let d = Radix2EvaluationDomain::<Fr>::new(size).unwrap();
    let x = DenseOrSparsePolynomial::from(x);
    let (q, r) = x.divide_with_q_and_r(&d.vanishing_polynomial().into()).unwrap();
    (q.coeffs.iter().map(g).collect(), r.coeffs.iter().map(g).collect())
}

/// A multiplicative subgroup of the scalar field whose order is a power of
/// two.
#[derive(Clone, Copy, Debug, PartialEq, Eq, Structural)]
pub struct Domain {
    size: usize,
}

impl Domain {
    /// The order of the domain.
    pub closed spec fn order(&self) -> nat {
        self.size as nat
    }

    /// The order is a power of two that the field supports.
    pub closed spec fn wf(&self) -> bool {
        is_power_of_two(self.size as nat) && self.size <= MAX_DOMAIN_SIZE
    }

    /// The domain whose order is the least power of two that is not below
    /// `size`. A size that no supported power of two reaches is refused.
    pub fn new(size: usize) -> (r: Result<Self, DomainError>)
        ensures
            r is Ok <==> domain_exists(size as nat),
            r is Ok ==> {
                &&& r->Ok_0.wf()
                &&& r->Ok_0.order() >= size
                &&& is_power_of_two(r->Ok_0.order())
                &&& (r->Ok_0.order() == 1 || r->Ok_0.order() / 2 < size)
            },
            r is Err ==> r->Err_0 == DomainError::InvalidSize,
    {
        let mut n: usize = 1;
        while n < size
            invariant
                n >= 1,
                is_power_of_two(n as nat),
                n == 1 || n / 2 < size,
            decreases usize::MAX - n,
        {
            match n.checked_mul(2) {
                Some(m) => {
                    proof {
                        assert(m / 2 == n);
                        assert(is_power_of_two(m as nat));
                    }
                    n = m;
                },
                None => {
                    proof {
                        assert forall|m: nat| #[trigger]
                            is_power_of_two(m) && m >= size implies m > usize::MAX by {
                            lemma_power_of_two_below(n as nat, m);
                        }
                    }
                    return Err(DomainError::InvalidSize);
                },
            }
        }
        if n as u64 > MAX_DOMAIN_SIZE {
            proof {
                assert forall|m: nat| #[trigger] is_power_of_two(m) && m >= size implies m
                    > MAX_DOMAIN_SIZE by {
                    if m < n {
                        lemma_power_of_two_below(m, n as nat);
                    }
                }
            }
            return Err(DomainError::InvalidSize);
        }
        proof {
            assert(is_power_of_two(n as nat) && n >= size && n <= MAX_DOMAIN_SIZE && n
                <= usize::MAX);
        }
        Ok(Domain { size: n })
    }

    /// The order of the domain.
    pub fn size(&self) -> (r: usize)
        ensures
            r == self.order(),
    {
        self.size
    }

    /// The `i`-th element of the domain: the `i`-th power of its generator.
    /// The power whose exponent is the order of the domain is one.
    pub fn element(&self, i: usize) -> (r: Scalar)
        requires
            self.wf(),
        ensures
            r.wf(),
            r@ == domain_element(self.order(), i as nat),
            i == self.order() ==> r@ == 1,
    {
        domain_element_at(self.size, i)
    }

    /// All elements of the domain in their order.
    pub fn elements(&self) -> (r: Vec<Scalar>)
        requires
            self.wf(),
        ensures
            all_wf(r@),
            r@.len() == self.order(),
            forall|i: int|
                0 <= i < self.order() ==> (#[trigger] r@[i])@ == domain_element(
                    self.order(),
                    i as nat,
                ),
    {
        domain_elements(self.size)
    }

    /// The value at `point` of the vanishing polynomial of the domain:
    /// `point` to the power of the order, minus one.
    pub fn evaluate_vanishing_polynomial(&self, point: Scalar) -> (r: Scalar)
        requires
            self.wf(),
            point.wf(),
        ensures
            r.wf(),
            r@ == field_sub(field_pow(point@, self.order()), 1),
    {
        let power = point.pow(self.size as u64);
        power.sub(&Scalar::one())
    }

    /// The vanishing polynomial of the domain, `x^n - 1` for the order `n`,
    /// in sparse form.
    pub fn vanishing_polynomial(&self) -> (r: Polynomial)
        requires
            self.wf(),
        ensures
            r.wf(),
            r.is_sparse(),
            r@ == vanishing_coefficients(self.order()),
    {
        let minus_one = Scalar::one().neg();
        let mut terms: Vec<(usize, Scalar)> = Vec::new();
        terms.push((0, minus_one));
        terms.push((self.size, Scalar::one()));
        proof {
            lemma_small_residues();
            assert(self.size >= 1);
            assert(self.size != usize::MAX);
            reveal_with_fuel(sparse_coeff, 3);
            assert(terms@.drop_last() =~= seq![(0usize, minus_one)]);
            assert(terms@.drop_last().drop_last() =~= Seq::<(usize, Scalar)>::empty());
            assert(sparse_coefficients(terms@) =~= vanishing_coefficients(self.order()));
        }
        Polynomial { repr: Repr::Sparse(terms) }
    }

    /// The polynomial with fewer coefficients than the domain has elements
    /// that takes the `i`-th value at the `i`-th element of the domain.
    pub fn interpolate(&self, values: Vec<Scalar>) -> (r: Polynomial)
        requires
            self.wf(),
            all_wf(values@),
            values@.len() == self.order(),
        ensures
            r.wf(),
            !r.is_sparse(),
            interpolates(self.order(), residues(values@), r@),
            evaluations(self.order(), r@) == residues(values@),
    {
        let coeffs = domain_interpolate(self.size, &values);
        proof {
            lemma_evaluations_of_interpolation(
                self.order(),
                residues(values@),
                residues(coeffs@),
            );
        }
        Polynomial { repr: Repr::Dense(coeffs) }
    }
}

/// The residues one and minus one are not zero.
pub proof fn lemma_small_residues()
    ensures
        field_neg(1) == modulus() - 1,
        field_neg(1) != 0,
        1 < modulus(),
{
    vstd::arithmetic::div_mod::lemma_small_mod((modulus() - 1) as nat, modulus());
}

/// A power of two below another power of two is at most half of it.
pub proof fn lemma_power_of_two_below(n: nat, m: nat)
    requires
        is_power_of_two(n),
        is_power_of_two(m),
        n < m,
    ensures
        2 * n <= m,
    decreases m,
{
    if n > 1 {
        lemma_power_of_two_below(n / 2, m / 2);
    }
}

/// Evaluating over the domain what interpolates given values gives the
/// values back.
pub proof fn lemma_evaluations_of_interpolation(size: nat, values: Seq<nat>, p: Seq<nat>)
    requires
        values.len() == size,
        interpolates(size, values, p),
    ensures
        evaluations(size, p) == values,
{
    assert forall|i: int| 0 <= i < size implies evaluations(size, p)[i] == values[i] by {
        assert(poly_eval(p, domain_element(size, i as nat)) == coeff(values, i));
    }
    assert(evaluations(size, p) =~= values);
}

/// The two forms in which a polynomial is stored.
#[derive(Clone, Debug)]
enum Repr {
    Dense(Vec<Scalar>),
    Sparse(Vec<(usize, Scalar)>),
}

/// A polynomial over the scalar field.
#[derive(Clone, Debug)]
pub struct Polynomial {
    repr: Repr,
}

impl View for Polynomial {
    type V = Seq<nat>;

    closed spec fn view(&self) -> Seq<nat> {
        match self.repr {
            Repr::Dense(coeffs) => residues(coeffs@),
            Repr::Sparse(terms) => sparse_coefficients(terms@),
        }
    }
}

/// The text of the term `c * x^i`: nothing for a zero coefficient, the
/// coefficient alone for the constant term, and otherwise the coefficient
/// and the power of `x` after a plus sign.
pub open spec fn term_text(c: nat, i: nat) -> Seq<char> {
    if c == 0 {
        Seq::empty()
    } else if i == 0 {
        decimal_digits(c)
    } else if i == 1 {
        " + "@ + decimal_digits(c) + " * x"@
    } else {
        " + "@ + decimal_digits(c) + " * x^"@ + canonical_text(i)
    }
}

/// The text of the terms below `x^upto`, lowest first.
pub open spec fn terms_text(p: Seq<nat>, upto: int) -> Seq<char>
    decreases upto,
{
    if upto <= 0 {
        Seq::empty()
    } else {
        terms_text(p, upto - 1) + term_text(coeff(p, upto - 1), (upto - 1) as nat)
    }
}

/// `ToString::to_string` of a `usize`: its decimal digits, `0` for zero.
#[verifier::external_body]
fn exponent_text(i: usize) -> (r: String)
    ensures
        r@ == canonical_text(i as nat),
{
    i.to_string()
}

impl Polynomial {
    /// The stored form is valid.
    pub closed spec fn wf(&self) -> bool {
        match self.repr {
            Repr::Dense(coeffs) => dense_valid(coeffs@),
            Repr::Sparse(terms) => sparse_valid(terms@),
        }
    }

    /// Whether the polynomial is stored sparsely.
    pub closed spec fn is_sparse(&self) -> bool {
        self.repr is Sparse
    }

    /// The coefficients of a valid polynomial are canonical.
    pub proof fn lemma_view_canonical(&self)
        requires
            self.wf(),
        ensures
            is_canonical(self@),
    {
        match self.repr {
            Repr::Dense(coeffs) => {},
            Repr::Sparse(terms) => {
                let t = terms@;
                if t.len() > 0 {
                    assert(t.last() == t[t.len() - 1]);
                    assert forall|i: int| 0 <= i < self@.len() implies #[trigger] self@[i]
                        < modulus() by {
                        Self::lemma_sparse_coeff_residue(t, i);
                    }
                }
            },
        }
    }

    /// Every coefficient among valid sparse terms is a residue.
    proof fn lemma_sparse_coeff_residue(terms: Seq<(usize, Scalar)>, i: int)
        requires
            forall|k: int| 0 <= k < terms.len() ==> (#[trigger] terms[k]).1.wf(),
        ensures
            sparse_coeff(terms, i) < modulus(),
        decreases terms.len(),
    {
        if terms.len() > 0 {
            assert(terms.last() == terms[terms.len() - 1]);
            if terms.last().0 != i {
                assert forall|k: int| 0 <= k < terms.drop_last().len() implies (
                #[trigger] terms.drop_last()[k]).1.wf() by {
                    assert(terms.drop_last()[k] == terms[k]);
                }
                Self::lemma_sparse_coeff_residue(terms.drop_last(), i);
            }
        }
    }

    /// The polynomial `x`, in sparse form.
    #[allow(non_snake_case)]
    pub fn X() -> (r: Self)
        ensures
            r.wf(),
            r.is_sparse(),
            r@ == seq![0nat, 1nat],
    {
        let mut terms: Vec<(usize, Scalar)> = Vec::new();
        terms.push((1, Scalar::one()));
        proof {
            lemma_small_residues();
            reveal_with_fuel(sparse_coeff, 2);
            assert(terms@.drop_last() =~= Seq::<(usize, Scalar)>::empty());
            assert(sparse_coefficients(terms@) =~= seq![0nat, 1nat]);
        }
        Polynomial { repr: Repr::Sparse(terms) }
    }

    /// The constant polynomial `c`, in sparse form; the zero polynomial for
    /// zero.
    pub fn constant(c: Scalar) -> (r: Self)
        requires
            c.wf(),
        ensures
            r.wf(),
            r.is_sparse(),
            r@ == trim(seq![c@]),
    {
        let mut terms: Vec<(usize, Scalar)> = Vec::new();
        if !c.is_zero() {
            terms.push((0, c));
            proof {
                reveal_with_fuel(sparse_coeff, 2);
                assert(terms@.drop_last() =~= Seq::<(usize, Scalar)>::empty());
                assert(sparse_coefficients(terms@) =~= seq![c@]);
            }
        } else {
            proof {
                reveal_with_fuel(trim, 2);
                assert(seq![c@].last() == 0);
                assert(seq![c@].drop_last() =~= Seq::<nat>::empty());
                assert(trim(seq![c@]) =~= Seq::<nat>::empty());
            }
        }
        Polynomial { repr: Repr::Sparse(terms) }
    }

    /// The zero polynomial, in sparse form.
    pub fn zero() -> (r: Self)
        ensures
            r.wf(),
            r.is_sparse(),
            r@ == Seq::<nat>::empty(),
    {
        Polynomial { repr: Repr::Sparse(Vec::new()) }
    }

    /// The polynomial with the given coefficients, lowest first, in dense
    /// form. Trailing zeros are dropped.
    pub fn from_coefficients(coeffs: Vec<Scalar>) -> (r: Self)
        requires
            all_wf(coeffs@),
        ensures
            r.wf(),
            !r.is_sparse(),
            r@ == trim(residues(coeffs@)),
    {
        let mut coeffs = coeffs;
        let ghost given = residues(coeffs@);
        while coeffs.len() > 0 && coeffs[coeffs.len() - 1].is_zero()
            invariant
                all_wf(coeffs@),
                trim(residues(coeffs@)) == trim(given),
            decreases coeffs.len(),
        {
            proof {
                assert(residues(coeffs@).drop_last() =~= residues(coeffs@.drop_last()));
            }
            coeffs.pop();
        }
        Polynomial { repr: Repr::Dense(coeffs) }
    }

    /// The coefficients in dense form, lowest first.
    pub fn coefficients(&self) -> (r: Vec<Scalar>)
        requires
            self.wf(),
        ensures
            dense_valid(r@),
            residues(r@) == self@,
    {
        match &self.repr {
            Repr::Dense(coeffs) => coeffs.clone(),
            Repr::Sparse(terms) => {
                let mut out: Vec<Scalar> = Vec::new();
                if terms.len() == 0 {
                    proof {
                        assert(residues(out@) =~= self@);
                    }
                    return out;
                }
                let n = terms[terms.len() - 1].0 + 1;
                let mut i: usize = 0;
                while i < n
                    invariant
                        i <= n,
                        out@.len() == i,
                        forall|j: int| 0 <= j < i ==> (#[trigger] out@[j])@ == 0,
                    decreases n - i,
                {
                    out.push(Scalar::zero());
                    i += 1;
                }
                let mut k: usize = 0;
                while k < terms.len()
                    invariant
                        k <= terms@.len(),
                        terms@.len() > 0,
                        sparse_valid(terms@),
                        n == terms@[terms@.len() - 1].0 + 1,
                        out@.len() == n,
                        forall|j: int|
                            0 <= j < n ==> (#[trigger] out@[j])@ == sparse_coeff(
                                terms@.take(k as int),
                                j,
                            ),
                    decreases terms@.len() - k,
                {
                    let (e, c) = terms[k];
                    proof {
                        assert(terms@.take(k as int + 1).drop_last() =~= terms@.take(k as int));
                        assert(terms@.take(k as int + 1).last() == terms@[k as int]);
                        assert(terms@[k as int].0 <= terms@[terms@.len() - 1].0);
                    }
                    out.set(e, c);
                    k += 1;
                }
                proof {
                    assert(terms@.take(terms@.len() as int) =~= terms@);
                    assert(residues(out@) =~= self@);
                    self.lemma_view_canonical();
                    assert forall|j: int| 0 <= j < out@.len() implies (#[trigger] out@[j]).wf() by {
                        assert(residues(out@)[j] < modulus());
                    }
                }
                out
            },
        }
    }

    /// The value of the polynomial at `point`.
    pub fn evaluate(&self, point: Scalar) -> (r: Scalar)
        requires
            self.wf(),
            point.wf(),
        ensures
            r.wf(),
            r@ == poly_eval(self@, point@),
    {
        let coeffs = self.coefficients();
        dense_evaluate(&coeffs, &point)
    }

    /// The degree: the exponent of the leading term, and zero for the zero
    /// polynomial.
    pub fn degree(&self) -> (r: usize)
        requires
            self.wf(),
        ensures
            r == (if self@.len() == 0 {
                0
            } else {
                self@.len() - 1
            }),
    {
        match &self.repr {
            Repr::Dense(coeffs) => {
                if coeffs.len() == 0 {
                    0
                } else {
                    coeffs.len() - 1
                }
            },
            Repr::Sparse(terms) => {
                if terms.len() == 0 {
                    0
                } else {
                    terms[terms.len() - 1].0
                }
            },
        }
    }

    /// Quotient and remainder of the division by the vanishing polynomial of
    /// a domain: the quotient times the vanishing polynomial plus the
    /// remainder is `self`, and the degree of the remainder is below the
    /// order of the domain.
    pub fn divide_by_vanishing_poly(&self, domain: Domain) -> (r: (Self, Self))
        requires
            self.wf(),
            domain.wf(),
        ensures
            r.0.wf(),
            r.1.wf(),
            poly_sum(poly_product(r.0@, vanishing_coefficients(domain.order())), r.1@) == self@,
            r.1@.len() <= domain.order(),
    {
        let coeffs = self.coefficients();
        let (q, rem) = dense_divide_by_vanishing(&coeffs, domain.size());
        (Polynomial { repr: Repr::Dense(q) }, Polynomial { repr: Repr::Dense(rem) })
    }

    /// The values of the polynomial at all elements of the domain.
    pub fn evaluate_over_domain(&self, domain: Domain) -> (r: Vec<Scalar>)
        requires
            self.wf(),
            domain.wf(),
        ensures
            all_wf(r@),
            residues(r@) == evaluations(domain.order(), self@),
    {
        let coeffs = self.coefficients();
        domain_evaluate(domain.size(), &coeffs)
    }

    /// The sum, in dense form.
    pub fn add(&self, rhs: &Self) -> (r: Self)
        requires
            self.wf(),
            rhs.wf(),
        ensures
            r.wf(),
            !r.is_sparse(),
            r@ == poly_sum(self@, rhs@),
    {
        let a = self.coefficients();
        let b = rhs.coefficients();
        Polynomial { repr: Repr::Dense(dense_add(&a, &b)) }
    }

    /// The difference, in dense form.
    pub fn sub(&self, rhs: &Self) -> (r: Self)
        requires
            self.wf(),
            rhs.wf(),
        ensures
            r.wf(),
            !r.is_sparse(),
            r@ == poly_difference(self@, rhs@),
    {
        let a = self.coefficients();
        let b = rhs.coefficients();
        Polynomial { repr: Repr::Dense(dense_sub(&a, &b)) }
    }

    /// The product, in dense form. The factors together have no more
    /// coefficients than the largest domain has elements.
    pub fn mul(&self, rhs: &Self) -> (r: Self)
        requires
            self.wf(),
            rhs.wf(),
            self@.len() + rhs@.len() <= MAX_DOMAIN_SIZE,
        ensures
            r.wf(),
            !r.is_sparse(),
            r@ == poly_product(self@, rhs@),
    {
        let a = self.coefficients();
        let b = rhs.coefficients();
        Polynomial { repr: Repr::Dense(dense_mul(&a, &b)) }
    }

    /// The negation, in dense form.
    pub fn neg(&self) -> (r: Self)
        requires
            self.wf(),
        ensures
            r.wf(),
            !r.is_sparse(),
            r@ == poly_negation(self@),
    {
        let a = self.coefficients();
        Polynomial { repr: Repr::Dense(dense_neg(&a)) }
    }

    /// Quotient and remainder of the division by `rhs`: the quotient times
    /// `rhs` plus the remainder is `self`, and the remainder has fewer
    /// coefficients than `rhs`. Division by the zero polynomial is an error.
    pub fn divide(&self, rhs: &Self) -> (r: Result<(Self, Self), ArithmeticError>)
        requires
            self.wf(),
            rhs.wf(),
        ensures
            r is Err <==> rhs@.len() == 0,
            r is Err ==> r->Err_0 == ArithmeticError::DivisionByZero,
            r is Ok ==> {
                &&& r->Ok_0.0.wf()
                &&& r->Ok_0.1.wf()
                &&& poly_sum(poly_product(r->Ok_0.0@, rhs@), r->Ok_0.1@) == self@
                &&& r->Ok_0.1@.len() < rhs@.len()
            },
    {
        let b = rhs.coefficients();
        if b.len() == 0 {
            return Err(ArithmeticError::DivisionByZero);
        }
        let a = self.coefficients();
        let (q, rem) = dense_divide(&a, &b);
        Ok((Polynomial { repr: Repr::Dense(q) }, Polynomial { repr: Repr::Dense(rem) }))
    }

    /// The text of the polynomial: its nonzero terms, lowest first, as
    /// `c`, ` + c * x` and ` + c * x^i`.
    pub fn to_text(&self) -> (r: String)
        requires
            self.wf(),
        ensures
            r@ == terms_text(self@, self@.len() as int),
    {
        let coeffs = self.coefficients();
        let mut result = String::new();
        let mut i: usize = 0;
        while i < coeffs.len()
            invariant
                i <= coeffs@.len(),
                dense_valid(coeffs@),
                residues(coeffs@) == self@,
                result@ == terms_text(self@, i as int),
            decreases coeffs@.len() - i,
        {
            let c = coeffs[i];
            proof {
                assert(c@ == coeff(self@, i as int));
                assert(c.wf());
                reveal_strlit(" + ");
                reveal_strlit(" * x");
                reveal_strlit(" * x^");
            }
            if !c.is_zero() {
                let digits = c.to_text();
                if i == 0 {
                    push_str(&mut result, digits.as_str());
                } else if i == 1 {
                    push_str(&mut result, " + ");
                    push_str(&mut result, digits.as_str());
                    push_str(&mut result, " * x");
                } else {
                    let power = exponent_text(i);
                    push_str(&mut result, " + ");
                    push_str(&mut result, digits.as_str());
                    push_str(&mut result, " * x^");
                    push_str(&mut result, power.as_str());
                }
            }
            proof {
                assert(result@ =~= terms_text(self@, i as int) + term_text(c@, i as nat));
            }
            i += 1;
        }
        result
    }

    /// Whether two polynomials are the same, whatever form each is stored
    /// in.
    pub fn equals(&self, other: &Self) -> (r: bool)
        requires
            self.wf(),
            other.wf(),
        ensures
            r == (self@ == other@),
    {
        let a = self.coefficients();
        let b = other.coefficients();
        if a.len() != b.len() {
            return false;
        }
        let mut i: usize = 0;
        while i < a.len()
            invariant
                i <= a@.len(),
                a@.len() == b@.len(),
                residues(a@) == self@,
                residues(b@) == other@,
                forall|j: int| 0 <= j < i ==> (#[trigger] a@[j])@ == b@[j]@,
            decreases a@.len() - i,
        {
            if !a[i].equals(&b[i]) {
                proof {
                    assert(residues(a@)[i as int] != residues(b@)[i as int]);
                }
                return false;
            }
            i += 1;
        }
        proof {
            assert(residues(a@) =~= residues(b@));
        }
        true
    }
}

} // verus!
