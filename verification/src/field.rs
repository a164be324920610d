//! The scalar field of BLS12-381: residues modulo the prime group order.

use vstd::prelude::*;
use vstd::std_specs::hash::DefaultHasherAdditionalSpecFns;
use std::collections::hash_map::DefaultHasher;
use std::hash::Hasher;
use vstd::arithmetic::div_mod::{lemma_mul_mod_noop_general, lemma_small_mod};
use ark_ff::{Field, PrimeField};
use ark_serialize::{CanonicalDeserialize, CanonicalSerialize};
use ark_std::UniformRand;
use crate::utils::{ArithmeticError, SerializationError};

verus! {

/// The order of the field: the prime `r` of BLS12-381.
pub open spec fn modulus() -> nat {
    52435875175126190479447740508185965837690552500527637822603658699938581184513nat
}

/// The number that four little-endian 64-bit limbs stand for.
pub open spec fn limbs_value(l0: u64, l1: u64, l2: u64, l3: u64) -> nat {
    (l0 as nat) + (l1 as nat) * 0x1_0000_0000_0000_0000nat
        + (l2 as nat) * 0x1_0000_0000_0000_0000_0000_0000_0000_0000nat
        + (l3 as nat) * 0x1_0000_0000_0000_0000_0000_0000_0000_0000_0000_0000_0000_0000nat
}

/// The number that a little-endian byte string stands for.
pub open spec fn le_value(bytes: Seq<u8>) -> nat
    decreases bytes.len(),
{
    if bytes.len() == 0 {
        0
    } else {
        (bytes[0] as nat) + 256 * le_value(bytes.subrange(1, bytes.len() as int))
    }
}

/// The `len` little-endian bytes of a number.
pub open spec fn le_bytes(n: nat, len: nat) -> Seq<u8>
    decreases len,
{
    if len == 0 {
        Seq::empty()
    } else {
        seq![(n % 256) as u8] + le_bytes(n / 256, (len - 1) as nat)
    }
}

/// Sum of two residues.
pub open spec fn field_add(a: nat, b: nat) -> nat {
    (a + b) % modulus()
}

/// Difference of two residues.
pub open spec fn field_sub(a: nat, b: nat) -> nat {
    ((a + modulus() - b) % (modulus() as int)) as nat
}

/// Product of two residues.
pub open spec fn field_mul(a: nat, b: nat) -> nat {
    (a * b) % modulus()
}

/// Additive inverse of a residue.
pub open spec fn field_neg(a: nat) -> nat {
    ((modulus() - a) % (modulus() as int)) as nat
}

/// The residue of a signed integer.
pub open spec fn field_of_int(n: int) -> nat {
    (n % (modulus() as int)) as nat
}

/// `a` raised to the power `e`.
pub open spec fn field_pow(a: nat, e: nat) -> nat
    decreases e,
{
    if e == 0 {
        1
    } else {
        field_mul(a, field_pow(a, (e - 1) as nat))
    }
}

/// `x` is the inverse of `a` under the convention that zero inverts to zero.
pub open spec fn is_inverse_of(x: nat, a: nat) -> bool {
    if a == 0 {
        x == 0
    } else {
        x < modulus() && field_mul(x, a) == 1
    }
}

/// The inverse of `a`, with zero for zero.
pub open spec fn field_inverse(a: nat) -> nat {
    if exists|x: nat| is_inverse_of(x, a) {
        choose|x: nat| is_inverse_of(x, a)
    } else {
        0
    }
}

/// The quotient `a / b`: `a` times the inverse of `b`.
pub open spec fn field_div(a: nat, b: nat) -> nat {
    field_mul(a, field_inverse(b))
}

/// Two elements that stand for one residue are the same element.
pub proof fn lemma_view_injective(a: Scalar, b: Scalar)
    requires
        a@ == b@,
    ensures
        a == b,
{
}

/// Decoding what encoding gave returns the element: where `bytes` stand for
/// the residue of a canonical `x` and `decoded` for what `bytes` stand for,
/// `decoded` is `x`.
pub proof fn lemma_decode_of_encode(x: Scalar, bytes: Seq<u8>, decoded: Scalar)
    requires
        x.wf(),
        le_value(bytes) == x@,
        decoded@ == le_value(bytes),
    ensures
        le_value(bytes) < modulus(),
        decoded == x,
{
    lemma_view_injective(decoded, x);
}

/// A residue has at most one inverse.
pub proof fn lemma_inverse_unique(x: nat, y: nat, a: nat)
    requires
        is_inverse_of(x, a),
        is_inverse_of(y, a),
    ensures
        x == y,
{
    if a != 0 {
        let m = modulus() as int;
        let xi = x as int;
        let yi = y as int;
        let ai = a as int;
        // x == x * (a * y) == (x * a) * y == y, all modulo r.
        lemma_mul_mod_noop_general(xi, ai * yi, m);
        lemma_mul_mod_noop_general(xi * ai, yi, m);
        assert(xi * (ai * yi) == (xi * ai) * yi) by (nonlinear_arith);
        assert(ai * yi == yi * ai) by (nonlinear_arith);
        lemma_small_mod(x, modulus());
        lemma_small_mod(y, modulus());
        assert((xi * 1) == xi && (1 * yi) == yi);
    }
}

/// Whatever inverts `a` is `field_inverse(a)`.
pub proof fn lemma_inverse_is(x: nat, a: nat)
    requires
        is_inverse_of(x, a),
    ensures
        field_inverse(a) == x,
{
    let y = choose|y: nat| is_inverse_of(y, a);
    lemma_inverse_unique(x, y, a);
}

/// Dividing by `b` and multiplying by `b` again gives `a` back, wherever `b`
/// has an inverse `inv`.
pub proof fn lemma_div_mul_cancel(a: nat, b: nat, inv: nat)
    requires
        a < modulus(),
        b != 0,
        is_inverse_of(inv, b),
    ensures
        field_mul(field_div(a, b), b) == a,
{
    lemma_inverse_is(inv, b);
    let m = modulus() as int;
    let ai = a as int;
    let bi = b as int;
    let ii = inv as int;
    // ((a * inv) % r * b) % r == (a * (inv * b % r)) % r == a
    lemma_mul_mod_noop_general(ai * ii, bi, m);
    lemma_mul_mod_noop_general(ai, ii * bi, m);
    assert((ai * ii) * bi == ai * (ii * bi)) by (nonlinear_arith);
    assert(ai * 1 == ai);
    lemma_small_mod(a, modulus());
}

/// An element of the scalar field, held as the four little-endian limbs of
/// its canonical residue.
#[derive(Clone, Copy, Debug, PartialEq, Eq, Structural)]
pub struct Scalar {
    pub(crate) l0: u64,
    pub(crate) l1: u64,
    pub(crate) l2: u64,
    pub(crate) l3: u64,
}

impl View for Scalar {
    type V = nat;

    closed spec fn view(&self) -> nat {
        limbs_value(self.l0, self.l1, self.l2, self.l3)
    }
}

/// Every element of the vector is a canonical residue.
pub open spec fn all_wf(v: Seq<Scalar>) -> bool {
    forall|i: int| 0 <= i < v.len() ==> (#[trigger] v[i]).wf()
}

/// `Fr::from(i128)`: the residue of a signed integer.
#[verifier::external_body]
fn fr_from_i128(n: i128) -> (r: Scalar)
    ensures
        r.wf(),
        r@ == field_of_int(n as int),
{
    let l = ark_bls12_381::Fr::from(n).into_bigint().0;
    Scalar { l0: l[0], l1: l[1], l2: l[2], l3: l[3] }
}

/// `UniformRand::rand` on `Fr` with the generator of `ark_std::test_rng`:
/// some canonical residue, of which nothing more is claimed.
#[verifier::external_body]
fn fr_rand() -> (r: Scalar)
    ensures
        r.wf(),
{
    let l = ark_bls12_381::Fr::rand(&mut ark_std::test_rng()).into_bigint().0;
    Scalar { l0: l[0], l1: l[1], l2: l[2], l3: l[3] }
}

/// `Fr + Fr`: the sum modulo `r`.
#[verifier::external_body]
fn fr_add(a: &Scalar, b: &Scalar) -> (r: Scalar)
    requires
        a.wf(),
        b.wf(),
    ensures
        r.wf(),
        r@ == field_add(a@, b@),
{
    let x = ark_bls12_381::Fr::from_bigint(ark_ff::BigInt([a.l0, a.l1, a.l2, a.l3])).unwrap();
    let y = ark_bls12_381::Fr::from_bigint(ark_ff::BigInt([b.l0, b.l1, b.l2, b.l3])).unwrap();
    let l = (x + y).into_bigint().0;
    Scalar { l0: l[0], l1: l[1], l2: l[2], l3: l[3] }
}

/// `Fr - Fr`: the difference modulo `r`.
#[verifier::external_body]
fn fr_sub(a: &Scalar, b: &Scalar) -> (r: Scalar)
    requires
        a.wf(),
        b.wf(),
    ensures
        r.wf(),
        r@ == field_sub(a@, b@),
{
    let x = ark_bls12_381::Fr::from_bigint(ark_ff::BigInt([a.l0, a.l1, a.l2, a.l3])).unwrap();
    let y = ark_bls12_381::Fr::from_bigint(ark_ff::BigInt([b.l0, b.l1, b.l2, b.l3])).unwrap();
    let l = (x - y).into_bigint().0;
    Scalar { l0: l[0], l1: l[1], l2: l[2], l3: l[3] }
}

/// `Fr * Fr`: the product modulo `r`.
#[verifier::external_body]
fn fr_mul(a: &Scalar, b: &Scalar) -> (r: Scalar)
    requires
        a.wf(),
        b.wf(),
    ensures
        r.wf(),
        r@ == field_mul(a@, b@),
{
    let x = ark_bls12_381::Fr::from_bigint(ark_ff::BigInt([a.l0, a.l1, a.l2, a.l3])).unwrap();
    let y = ark_bls12_381::Fr::from_bigint(ark_ff::BigInt([b.l0, b.l1, b.l2, b.l3])).unwrap();
    let l = (x * y).into_bigint().0;
    Scalar { l0: l[0], l1: l[1], l2: l[2], l3: l[3] }
}

/// `-Fr`: the additive inverse modulo `r`.
#[verifier::external_body]
fn fr_neg(a: &Scalar) -> (r: Scalar)
    requires
        a.wf(),
    ensures
        r.wf(),
        r@ == field_neg(a@),
{
    let x = ark_bls12_381::Fr::from_bigint(ark_ff::BigInt([a.l0, a.l1, a.l2, a.l3])).unwrap();
    let l = (-x).into_bigint().0;
    Scalar { l0: l[0], l1: l[1], l2: l[2], l3: l[3] }
}

/// `Field::pow` with a one-limb exponent: the power modulo `r`.
#[verifier::external_body]
fn fr_pow(a: &Scalar, e: u64) -> (r: Scalar)
    requires
        a.wf(),
    ensures
        r.wf(),
        r@ == field_pow(a@, e as nat),
{
    let x = ark_bls12_381::Fr::from_bigint(ark_ff::BigInt([a.l0, a.l1, a.l2, a.l3])).unwrap();
    let l = x.pow([e]).into_bigint().0;
    Scalar { l0: l[0], l1: l[1], l2: l[2], l3: l[3] }
}

/// `Field::square`: the product of the element with itself.
#[verifier::external_body]
fn fr_square(a: &Scalar) -> (r: Scalar)
    requires
        a.wf(),
    ensures
        r.wf(),
        r@ == field_mul(a@, a@),
{
    let x = ark_bls12_381::Fr::from_bigint(ark_ff::BigInt([a.l0, a.l1, a.l2, a.l3])).unwrap();
    let l = x.square().into_bigint().0;
    Scalar { l0: l[0], l1: l[1], l2: l[2], l3: l[3] }
}

/// `Field::double`: the sum of the element with itself.
#[verifier::external_body]
fn fr_double(a: &Scalar) -> (r: Scalar)
    requires
        a.wf(),
    ensures
        r.wf(),
        r@ == field_add(a@, a@),
{
    let x = ark_bls12_381::Fr::from_bigint(ark_ff::BigInt([a.l0, a.l1, a.l2, a.l3])).unwrap();
    let l = x.double().into_bigint().0;
    Scalar { l0: l[0], l1: l[1], l2: l[2], l3: l[3] }
}

/// `Field::inverse`: nothing for zero; for any other element the residue
/// whose product with it is one.
#[verifier::external_body]
fn fr_inverse(a: &Scalar) -> (r: Option<Scalar>)
    requires
        a.wf(),
    ensures
        r is None <==> a@ == 0,
        r is Some ==> r->0.wf() && field_mul(r->0@, a@) == 1,
{
    let x = ark_bls12_381::Fr::from_bigint(ark_ff::BigInt([a.l0, a.l1, a.l2, a.l3])).unwrap();
    match x.inverse() {
        Some(y) => {
            let l = y.into_bigint().0;
            Some(Scalar { l0: l[0], l1: l[1], l2: l[2], l3: l[3] })
        },
        None => None,
    }
}

/// `ark_ff::batch_inversion`: every nonzero entry is replaced by its
/// inverse, every zero entry stays zero.
#[verifier::external_body]
fn fr_batch_inversion(elems: &Vec<Scalar>) -> (r: Vec<Scalar>)
    requires
        all_wf(elems@),
    ensures
        r@.len() == elems@.len(),
        forall|i: int| 0 <= i < r@.len() ==> (#[trigger] r@[i]).wf() && is_inverse_of(r@[i]@, elems@[i]@),
{
    let mut v: Vec<ark_bls12_381::Fr> = elems
        .iter()
        .map(|a| ark_bls12_381::Fr::from_bigint(ark_ff::BigInt([a.l0, a.l1, a.l2, a.l3])).unwrap())
        .collect();
    ark_ff::batch_inversion(&mut v);
    v.iter()
        .map(|y| y.into_bigint().0)
        .map(|l| Scalar { l0: l[0], l1: l[1], l2: l[2], l3: l[3] })
        .collect()
}

/// `CanonicalSerialize::serialize_compressed` on `Fr` into a buffer of 32
/// bytes: the little-endian bytes of the residue.
#[verifier::external_body]
fn fr_serialize(a: &Scalar) -> (r: Result<[u8; 32], SerializationError>)
    requires
        a.wf(),
    ensures
        r is Ok,
        r->Ok_0@ == le_bytes(a@, 32),
        le_value(r->Ok_0@) == a@,
{
    let x = ark_bls12_381::Fr::from_bigint(ark_ff::BigInt([a.l0, a.l1, a.l2, a.l3])).unwrap();
    let mut bytes = [0u8; 32];
    match x.serialize_compressed(&mut bytes[..]) {
        Ok(()) => Ok(bytes),
        Err(e) => Err(match e {
            ark_serialize::SerializationError::NotEnoughSpace => SerializationError::NotEnoughSpace,
            ark_serialize::SerializationError::InvalidData => SerializationError::InvalidData,
            ark_serialize::SerializationError::UnexpectedFlags => SerializationError::UnexpectedFlags,
            ark_serialize::SerializationError::IoError(err) => SerializationError::IoFailure(err.to_string()),
        }),
    }
}

/// `CanonicalDeserialize::deserialize_compressed` on `Fr` from 32 bytes:
/// the residue that the little-endian bytes stand for, where it is below `r`,
/// and `InvalidData` otherwise.
#[verifier::external_body]
fn fr_deserialize(bytes: &[u8; 32]) -> (r: Result<Scalar, SerializationError>)
    ensures
        r is Ok <==> le_value(bytes@) < modulus(),
        r is Ok ==> r->Ok_0.wf() && r->Ok_0@ == le_value(bytes@),
        r is Err ==> r->Err_0 == SerializationError::InvalidData,
{
    match ark_bls12_381::Fr::deserialize_compressed(&bytes[..]) {
        Ok(x) => {
            let l = x.into_bigint().0;
            Ok(Scalar { l0: l[0], l1: l[1], l2: l[2], l3: l[3] })
        },
        Err(e) => Err(match e {
            ark_serialize::SerializationError::NotEnoughSpace => SerializationError::NotEnoughSpace,
            ark_serialize::SerializationError::InvalidData => SerializationError::InvalidData,
            ark_serialize::SerializationError::UnexpectedFlags => SerializationError::UnexpectedFlags,
            ark_serialize::SerializationError::IoError(err) => SerializationError::IoFailure(err.to_string()),
        }),
    }
}

/// The digits of `n` in base ten, most significant first; empty for zero.
pub open spec fn decimal_digits(n: nat) -> Seq<char>
    decreases n,
{
    if n == 0 {
        Seq::empty()
    } else {
        decimal_digits(n / 10).push(digit_char(n % 10))
    }
}

/// The character of a digit below ten.
pub open spec fn digit_char(d: nat) -> char {
    if d == 0 { '0' }
    else if d == 1 { '1' }
    else if d == 2 { '2' }
    else if d == 3 { '3' }
    else if d == 4 { '4' }
    else if d == 5 { '5' }
    else if d == 6 { '6' }
    else if d == 7 { '7' }
    else if d == 8 { '8' }
    else { '9' }
}

/// The canonical text of a residue: its decimal digits, and `0` for zero.
pub open spec fn canonical_text(n: nat) -> Seq<char> {
    if n == 0 {
        seq!['0']
    } else {
        decimal_digits(n)
    }
}

/// `Display` of `Fr`: the residue in decimal without leading zeros, which
/// leaves nothing for zero.
#[verifier::external_body]
fn fr_display(a: &Scalar) -> (r: String)
    requires
        a.wf(),
    ensures
        r@ == decimal_digits(a@),
{
    let x = ark_bls12_381::Fr::from_bigint(ark_ff::BigInt([a.l0, a.l1, a.l2, a.l3])).unwrap();
    format!("{}", x)
}

impl Scalar {
    /// The element is a canonical residue: below the modulus.
    pub open spec fn wf(&self) -> bool {
        self@ < modulus()
    }

    /// The four little-endian limbs of the residue.
    pub(crate) fn limbs(&self) -> (r: [u64; 4])
        ensures
            limbs_value(r[0], r[1], r[2], r[3]) == self@,
    {
        [self.l0, self.l1, self.l2, self.l3]
    }

    /// The element with the given little-endian limbs.
    pub(crate) fn from_limbs(limbs: [u64; 4]) -> (r: Self)
        requires
            limbs_value(limbs[0], limbs[1], limbs[2], limbs[3]) < modulus(),
        ensures
            r.wf(),
            r@ == limbs_value(limbs[0], limbs[1], limbs[2], limbs[3]),
    {
        Scalar { l0: limbs[0], l1: limbs[1], l2: limbs[2], l3: limbs[3] }
    }

    /// The residue of a signed integer.
    pub fn from_i128(integer: i128) -> (r: Self)
        ensures
            r.wf(),
            r@ == field_of_int(integer as int),
    {
        fr_from_i128(integer)
    }

    /// The additive identity.
    pub fn zero() -> (r: Self)
        ensures
            r.wf(),
            r@ == 0,
    {
        Scalar { l0: 0, l1: 0, l2: 0, l3: 0 }
    }

    /// The multiplicative identity.
    pub fn one() -> (r: Self)
        ensures
            r.wf(),
            r@ == 1,
    {
        Scalar { l0: 1, l1: 0, l2: 0, l3: 0 }
    }

    /// Some element of the field. The source of randomness is meant for
    /// experiments, not for secrets.
    pub fn rand() -> (r: Self)
        ensures
            r.wf(),
    {
        fr_rand()
    }

    /// Sum.
    pub fn add(&self, rhs: &Self) -> (r: Self)
        requires
            self.wf(),
            rhs.wf(),
        ensures
            r.wf(),
            r@ == field_add(self@, rhs@),
    {
        fr_add(self, rhs)
    }

    /// Difference.
    pub fn sub(&self, rhs: &Self) -> (r: Self)
        requires
            self.wf(),
            rhs.wf(),
        ensures
            r.wf(),
            r@ == field_sub(self@, rhs@),
    {
        fr_sub(self, rhs)
    }

    /// Product.
    pub fn mul(&self, rhs: &Self) -> (r: Self)
        requires
            self.wf(),
            rhs.wf(),
        ensures
            r.wf(),
            r@ == field_mul(self@, rhs@),
    {
        fr_mul(self, rhs)
    }

    /// Additive inverse.
    pub fn neg(&self) -> (r: Self)
        requires
            self.wf(),
        ensures
            r.wf(),
            r@ == field_neg(self@),
    {
        fr_neg(self)
    }

    /// Power with a 64-bit exponent.
    pub fn pow(&self, exponent: u64) -> (r: Self)
        requires
            self.wf(),
        ensures
            r.wf(),
            r@ == field_pow(self@, exponent as nat),
    {
        fr_pow(self, exponent)
    }

    /// Square.
    pub fn square(&self) -> (r: Self)
        requires
            self.wf(),
        ensures
            r.wf(),
            r@ == field_mul(self@, self@),
    {
        fr_square(self)
    }

    /// Double.
    pub fn double(&self) -> (r: Self)
        requires
            self.wf(),
        ensures
            r.wf(),
            r@ == field_add(self@, self@),
    {
        fr_double(self)
    }

    /// Multiplicative inverse; the inverse of zero is zero.
    pub fn inverse(&self) -> (r: Self)
        requires
            self.wf(),
        ensures
            r.wf(),
            is_inverse_of(r@, self@),
            r@ == field_inverse(self@),
            self@ == 0 ==> r@ == 0,
    {
        let r = match fr_inverse(self) {
            Some(inv) => inv,
            None => Scalar::zero(),
        };
        proof {
            lemma_inverse_is(r@, self@);
        }
        r
    }

    /// Quotient: `self` times the inverse of `rhs`. A zero divisor is an
    /// error. Multiplying the quotient by the divisor gives `self` back.
    pub fn divide(&self, rhs: &Self) -> (r: Result<Self, ArithmeticError>)
        requires
            self.wf(),
            rhs.wf(),
        ensures
            r is Err <==> rhs@ == 0,
            r is Err ==> r->Err_0 == ArithmeticError::DivisionByZero,
            r is Ok ==> r->Ok_0.wf() && r->Ok_0@ == field_div(self@, rhs@) && field_mul(
                r->Ok_0@,
                rhs@,
            ) == self@,
    {
        match fr_inverse(rhs) {
            Some(inv) => {
                proof {
                    lemma_div_mul_cancel(self@, rhs@, inv@);
                    lemma_inverse_is(inv@, rhs@);
                }
                Ok(fr_mul(self, &inv))
            },
            None => Err(ArithmeticError::DivisionByZero),
        }
    }

    /// Inverts every element of a vector at the cost of one inversion; zero
    /// entries stay zero.
    pub fn batch_inverse(elems: Vec<Self>) -> (r: Vec<Self>)
        requires
            all_wf(elems@),
        ensures
            all_wf(r@),
            r@.len() == elems@.len(),
            forall|i: int| 0 <= i < r@.len() ==> (#[trigger] r@[i])@ == field_inverse(elems@[i]@),
    {
        let r = fr_batch_inversion(&elems);
        proof {
            assert forall|i: int| 0 <= i < r@.len() implies (#[trigger] r@[i])@ == field_inverse(
                elems@[i]@,
            ) by {
                lemma_inverse_is(r@[i]@, elems@[i]@);
            }
        }
        r
    }

    /// Whether the element is zero.
    pub fn is_zero(&self) -> (r: bool)
        ensures
            r == (self@ == 0),
    {
        self.l0 == 0 && self.l1 == 0 && self.l2 == 0 && self.l3 == 0
    }

    /// Whether the element is one.
    pub fn is_one(&self) -> (r: bool)
        ensures
            r == (self@ == 1),
    {
        self.l0 == 1 && self.l1 == 0 && self.l2 == 0 && self.l3 == 0
    }

    /// Whether two elements are the same residue.
    pub fn equals(&self, other: &Self) -> (r: bool)
        ensures
            r == (self@ == other@),
            r == (*self == *other),
    {
        self.l0 == other.l0 && self.l1 == other.l1 && self.l2 == other.l2 && self.l3 == other.l3
    }

    /// The canonical text: the residue in decimal.
    pub fn to_text(&self) -> (r: String)
        requires
            self.wf(),
        ensures
            r@ == canonical_text(self@),
    {
        if self.is_zero() {
            proof {
                reveal_strlit("0");
            }
            "0".to_owned()
        } else {
            fr_display(self)
        }
    }

    /// The 32 little-endian bytes of the residue.
    pub fn to_le_bytes(&self) -> (r: Result<[u8; 32], SerializationError>)
        requires
            self.wf(),
        ensures
            r is Ok,
            r->Ok_0@ == le_bytes(self@, 32),
            le_value(r->Ok_0@) == self@,
    {
        fr_serialize(self)
    }

    /// A hash of the residue: that of its 32 little-endian bytes, written
    /// at once to a fresh default hasher. Equal elements hash alike.
    pub fn hash_code(&self) -> (r: u64)
        requires
            self.wf(),
        ensures
            r == DefaultHasher::spec_finish(seq![le_bytes(self@, 32)]),
    {
        let mut hasher = DefaultHasher::new();
        match fr_serialize(self) {
            Ok(bytes) => {
                hasher.write(bytes.as_slice());
                proof {
                    assert(hasher@ =~= seq![le_bytes(self@, 32)]);
                }
            },
            Err(_) => {},
        }
        hasher.finish()
    }

    /// The element that 32 little-endian bytes stand for. Bytes that stand
    /// for a number not below the modulus are refused as invalid data.
    pub fn from_le_bytes(bytes: [u8; 32]) -> (r: Result<Self, SerializationError>)
        ensures
            r is Ok <==> le_value(bytes@) < modulus(),
            r is Ok ==> r->Ok_0.wf() && r->Ok_0@ == le_value(bytes@),
            r is Err ==> r->Err_0 == SerializationError::InvalidData,
    {
        fr_deserialize(&bytes)
    }
}

} // verus!
