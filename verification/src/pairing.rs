//! The pairing of BLS12-381 and its target group.
//!
//! An element of the target group is held as the little-endian bytes of its
//! twelve coordinates over the base field. The group is written
//! multiplicatively: its identity is one, its operation is the product.

use vstd::prelude::*;
use ark_bls12_381::{Bls12_381, Fq, Fq2, Fq12, Fr};
use ark_ec::pairing::PairingOutput;
use ark_ec::Group;
use ark_ff::{BigInt, PrimeField};
use ark_serialize::{CanonicalDeserialize, CanonicalSerialize};
use crate::coords::pair_text;
use crate::field::{Scalar, field_mul, field_of_int, modulus};
use crate::g1::{G1, G1Affine, g1_affine_valid, g1_all_affine_wf, g1_generator, g1_in_subgroup, g1_scalar_product};
use crate::g2::{G2, G2Affine, g2_affine_valid, g2_all_affine_wf, g2_generator, g2_in_subgroup, g2_scalar_product};
use crate::point::{InputError, all_points_wf, point_values};

verus! {

/// The pairing of an affine point of G1 with an affine point of G2.
pub uninterp spec fn pairing_value(p: Seq<u8>, q: Seq<u8>) -> Seq<u8>;

/// The product of two elements of the target group.
pub uninterp spec fn gt_product(a: Seq<u8>, b: Seq<u8>) -> Seq<u8>;

/// The element `a` raised to the scalar residue `s`.
pub uninterp spec fn gt_power(a: Seq<u8>, s: nat) -> Seq<u8>;

/// The inverse of an element of the target group.
pub uninterp spec fn gt_inverse(a: Seq<u8>) -> Seq<u8>;

/// The identity of the target group: the one of the field it lies in.
pub open spec fn gt_one() -> Seq<u8> {
    Seq::new(576, |i: int| if i == 0 { 1u8 } else { 0u8 })
}

/// The generator of the target group: the pairing of the two generators.
pub open spec fn gt_generator() -> Seq<u8> {
    pairing_value(g1_generator(), g2_generator())
}

/// Membership in the target group: a power of the generator, in 576 bytes.
pub open spec fn gt_valid(v: Seq<u8>) -> bool {
    v.len() == 576 && exists|k: nat| k < modulus() && v == #[trigger] gt_power(gt_generator(), k)
}

/// The product of the pairings of `ps[i]` with `qs[i]`: one for no pairs,
/// the single pairing for one pair.
pub open spec fn multi_pairing_value(ps: Seq<Seq<u8>>, qs: Seq<Seq<u8>>) -> Seq<u8>
    decreases ps.len(),
{
    if ps.len() == 0 || qs.len() == 0 {
        gt_one()
    } else if ps.len() == 1 {
        pairing_value(ps[0], qs[0])
    } else {
        gt_product(
            multi_pairing_value(ps.drop_last(), qs.drop_last()),
            pairing_value(ps.last(), qs.last()),
        )
    }
}

/// The text of the element of the cubic extension whose three components
/// start at byte `at`.
pub open spec fn triple_text(v: Seq<u8>, at: int) -> Seq<char> {
    "CubicExtField("@ + pair_text(v, at) + ", "@ + pair_text(v, at + 96) + ", "@ + pair_text(
        v,
        at + 192,
    ) + ")"@
}

/// The text of an element of the target group: its twelve coordinates in
/// decimal, grouped as the tower of extensions groups them.
pub open spec fn gt_text(v: Seq<u8>) -> Seq<char> {
    "QuadExtField("@ + triple_text(v, 0) + " + "@ + triple_text(v, 288) + " * u)"@
}

/// What bilinearity says of the pairing `r` of `p` and `q`: wherever `p` is
/// `a` times a point `p0` and `q` is `b` times a point `q0`, both in their
/// subgroups of prime order, `r` is the pairing of `p0` and `q0` raised to
/// the product of `a` and `b`.
pub open spec fn bilinear_at(p: Seq<u8>, q: Seq<u8>, r: Seq<u8>) -> bool {
    forall|p0: Seq<u8>, q0: Seq<u8>, a: nat, b: nat|
        g1_affine_valid(p0) && g2_affine_valid(q0) && g1_in_subgroup(p0) && g2_in_subgroup(q0) && a
            < modulus() && b < modulus() && p == #[trigger] g1_scalar_product(p0, a) && q
            == #[trigger] g2_scalar_product(q0, b) ==> r == gt_power(
            pairing_value(p0, q0),
            field_mul(a, b),
        )
}

/// An element of the target group.
#[derive(Clone, Copy, Debug)]
pub struct GT {
    pub(crate) repr: [u8; 576],
}

impl View for GT {
    type V = Seq<u8>;

    closed spec fn view(&self) -> Seq<u8> {
        self.repr@
    }
}

/// `Group::generator` of the target group: the pairing of the generators of
/// the two curve groups.
#[verifier::external_body]
fn gt_make_generator() -> (r: GT)
    ensures
        r.wf(),
        r@ == gt_generator(),
{
    let s = PairingOutput::<Bls12_381>::generator();
    let mut repr = [0u8; 576];
    s.0.serialize_uncompressed(&mut repr[..]).unwrap();
    GT { repr }
}

/// `Zero::zero` of the target group: the one of the field.
#[verifier::external_body]
fn gt_make_one() -> (r: GT)
    ensures
        r.wf(),
        r@ == gt_one(),
{
    let s = <PairingOutput<Bls12_381> as num_traits::Zero>::zero();
    let mut repr = [0u8; 576];
    s.0.serialize_uncompressed(&mut repr[..]).unwrap();
    GT { repr }
}

/// `PairingOutput + PairingOutput`: the product in the target group.
#[verifier::external_body]
fn gt_times(a: &GT, b: &GT) -> (r: GT)
    requires
        a.wf(),
        b.wf(),
    ensures
        r.wf(),
        r@ == gt_product(a@, b@),
{
    let x = Fq12::deserialize_uncompressed_unchecked(&a.repr[..]).unwrap();
    let y = Fq12::deserialize_uncompressed_unchecked(&b.repr[..]).unwrap();
    let p = PairingOutput::<Bls12_381>(x);
    let s = p + PairingOutput::<Bls12_381>(y);
    let mut repr = [0u8; 576];
    s.0.serialize_uncompressed(&mut repr[..]).unwrap();
    GT { repr }
}

/// `PairingOutput * Fr`: the power in the target group.
#[verifier::external_body]
fn gt_raise(a: &GT, k: &Scalar) -> (r: GT)
    requires
        a.wf(),
        k.wf(),
    ensures
        r.wf(),
        r@ == gt_power(a@, k@),
{
    let x = Fq12::deserialize_uncompressed_unchecked(&a.repr[..]).unwrap();
    let f = Fr::from_bigint(BigInt(k.limbs())).unwrap();
    let s = PairingOutput::<Bls12_381>(x) * f;
    let mut repr = [0u8; 576];
    s.0.serialize_uncompressed(&mut repr[..]).unwrap();
    GT { repr }
}

/// `-PairingOutput`: the inverse in the target group.
#[verifier::external_body]
fn gt_invert(a: &GT) -> (r: GT)
    requires
        a.wf(),
    ensures
        r.wf(),
        r@ == gt_inverse(a@),
{
    let x = Fq12::deserialize_uncompressed_unchecked(&a.repr[..]).unwrap();
    let s = -PairingOutput::<Bls12_381>(x);
    let mut repr = [0u8; 576];
    s.0.serialize_uncompressed(&mut repr[..]).unwrap();
    GT { repr }
}

/// `Group::double` of the target group: the product of the element with
/// itself.
#[verifier::external_body]
fn gt_squared(a: &GT) -> (r: GT)
    requires
        a.wf(),
    ensures
        r.wf(),
        r@ == gt_product(a@, a@),
{
    let x = Fq12::deserialize_uncompressed_unchecked(&a.repr[..]).unwrap();
    let s = PairingOutput::<Bls12_381>(x).double();
    let mut repr = [0u8; 576];
    s.0.serialize_uncompressed(&mut repr[..]).unwrap();
    GT { repr }
}

/// `PairingOutput == PairingOutput`: whether the coordinates agree.
#[verifier::external_body]
fn gt_same(a: &GT, b: &GT) -> (r: bool)
    requires
        a.wf(),
        b.wf(),
    ensures
        r == (a@ == b@),
{
    let x = Fq12::deserialize_uncompressed_unchecked(&a.repr[..]).unwrap();
    let y = Fq12::deserialize_uncompressed_unchecked(&b.repr[..]).unwrap();
    let p = PairingOutput::<Bls12_381>(x);
    p == PairingOutput::<Bls12_381>(y)
}

/// `Display` of the field element that a target-group element is.
#[verifier::external_body]
fn gt_format(a: &GT) -> (r: String)
    requires
        a.wf(),
    ensures
        r@ == gt_text(a@),
{
    let x = Fq12::deserialize_uncompressed_unchecked(&a.repr[..]).unwrap();
    format!("{}", x)
}

/// `Pairing::pairing` of BLS12-381: the pairing of the two points, which is
/// bilinear on the subgroups of prime order.
#[verifier::external_body]
fn bls_pairing(p: &G1Affine, q: &G2Affine) -> (r: GT)
    requires
        p.wf(),
        q.wf(),
    ensures
        r.wf(),
        r@ == pairing_value(p.value(), q.value()),
        bilinear_at(p.value(), q.value(), r@),
{
    let (x, y, infinity) = <(Fq, Fq, bool)>::deserialize_uncompressed_unchecked(&p.repr[..]).unwrap();
    let (u, v, w) = <(Fq2, Fq2, bool)>::deserialize_uncompressed_unchecked(&q.repr[..]).unwrap();
    let a = ark_bls12_381::G1Affine { x, y, infinity };
    let b = ark_bls12_381::G2Affine { x: u, y: v, infinity: w };
    let s = <Bls12_381 as ark_ec::pairing::Pairing>::pairing(a, b);
    let mut repr = [0u8; 576];
    s.0.serialize_uncompressed(&mut repr[..]).unwrap();
    GT { repr }
}

/// `Pairing::multi_pairing` of BLS12-381 on sequences of one length: the
/// product of the pairings of the points at each position.
#[verifier::external_body]
fn bls_multi_pairing(ps: &Vec<G1Affine>, qs: &Vec<G2Affine>) -> (r: GT)
    requires
        ps@.len() == qs@.len(),
        g1_all_affine_wf(ps@),
        g2_all_affine_wf(qs@),
    ensures
        r.wf(),
        r@ == multi_pairing_value(
            Seq::new(ps@.len(), |i: int| ps@[i].value()),
            Seq::new(qs@.len(), |i: int| qs@[i].value()),
        ),
{
    let a = ps.iter()
        .map(|p| <(Fq, Fq, bool)>::deserialize_uncompressed_unchecked(&p.repr[..]).unwrap())
        .map(|(x, y, infinity)| ark_bls12_381::G1Affine { x, y, infinity });
    let b = qs.iter()
        .map(|q| <(Fq2, Fq2, bool)>::deserialize_uncompressed_unchecked(&q.repr[..]).unwrap())
        .map(|(x, y, infinity)| ark_bls12_381::G2Affine { x, y, infinity });
    let s = <Bls12_381 as ark_ec::pairing::Pairing>::multi_pairing(a, b);
    let mut repr = [0u8; 576];
    s.0.serialize_uncompressed(&mut repr[..]).unwrap();
    GT { repr }
}

impl GT {
    /// The element lies in the target group.
    pub closed spec fn wf(&self) -> bool {
        gt_valid(self.repr@)
    }

    /// The generator of the target group.
    pub fn generator() -> (r: Self)
        ensures
            r.wf(),
            r@ == gt_generator(),
    {
        gt_make_generator()
    }

    /// The identity of the target group.
    pub fn one() -> (r: Self)
        ensures
            r.wf(),
            r@ == gt_one(),
    {
        gt_make_one()
    }

    /// The product of two elements.
    pub fn mul(&self, rhs: Self) -> (r: Self)
        requires
            self.wf(),
            rhs.wf(),
        ensures
            r.wf(),
            r@ == gt_product(self@, rhs@),
    {
        gt_times(self, &rhs)
    }

    /// The element raised to an integer, taken modulo the group order.
    pub fn pow(&self, exponent: i128) -> (r: Self)
        requires
            self.wf(),
        ensures
            r.wf(),
            r@ == gt_power(self@, field_of_int(exponent as int)),
    {
        let k = Scalar::from_i128(exponent);
        gt_raise(self, &k)
    }

    /// The element raised to a scalar.
    pub fn pow_scalar(&self, exponent: &Scalar) -> (r: Self)
        requires
            self.wf(),
            exponent.wf(),
        ensures
            r.wf(),
            r@ == gt_power(self@, exponent@),
    {
        gt_raise(self, exponent)
    }

    /// The inverse of the element.
    pub fn inverse(&self) -> (r: Self)
        requires
            self.wf(),
        ensures
            r.wf(),
            r@ == gt_inverse(self@),
    {
        gt_invert(self)
    }

    /// The product of the element with itself.
    pub fn square(&self) -> (r: Self)
        requires
            self.wf(),
        ensures
            r.wf(),
            r@ == gt_product(self@, self@),
    {
        gt_squared(self)
    }

    /// The text of the element.
    pub fn to_text(&self) -> (r: String)
        requires
            self.wf(),
        ensures
            r@ == gt_text(self@),
    {
        gt_format(self)
    }

    /// Whether two elements are the same.
    pub fn equals(&self, other: Self) -> (r: bool)
        requires
            self.wf(),
            other.wf(),
        ensures
            r == (self@ == other@),
    {
        gt_same(self, &other)
    }
}

/// The pairing engine of BLS12-381.
#[derive(Clone, Copy, Debug)]
pub struct Pairing;

impl Pairing {
    /// The pairing of a point of G1 with a point of G2. It is bilinear:
    /// scaling the two points by `a` and `b` raises the pairing to `a * b`.
    pub fn pairing(g1: G1, g2: G2) -> (r: GT)
        requires
            g1.wf(),
            g2.wf(),
        ensures
            r.wf(),
            r@ == pairing_value(g1.value(), g2.value()),
            bilinear_at(g1.value(), g2.value(), r@),
    {
        let a = g1.to_affine();
        let b = g2.to_affine();
        bls_pairing(&a, &b)
    }

    /// The product of the pairings of `g1s[i]` with `g2s[i]`, found with one
    /// final exponentiation for all pairs. Sequences of different lengths
    /// are refused.
    pub fn multi_pairing(g1s: Vec<G1>, g2s: Vec<G2>) -> (r: Result<GT, InputError>)
        requires
            all_points_wf(g1s@),
            all_points_wf(g2s@),
        ensures
            r is Err <==> g1s@.len() != g2s@.len(),
            r is Ok ==> r->Ok_0.wf() && r->Ok_0@ == multi_pairing_value(
                point_values(g1s@),
                point_values(g2s@),
            ),
    {
        if g1s.len() != g2s.len() {
            return Err(InputError::LengthMismatch);
        }
        let n = g1s.len();
        let mut a: Vec<G1Affine> = Vec::new();
        let mut b: Vec<G2Affine> = Vec::new();
        let mut i: usize = 0;
        while i < n
            invariant
                n == g1s@.len(),
                n == g2s@.len(),
                i <= n,
                all_points_wf(g1s@),
                all_points_wf(g2s@),
                a@.len() == i,
                b@.len() == i,
                forall|j: int| 0 <= j < i ==> (#[trigger] a@[j]).wf() && a@[j].value() == g1s@[j].value(),
                forall|j: int| 0 <= j < i ==> (#[trigger] b@[j]).wf() && b@[j].value() == g2s@[j].value(),
            decreases n - i,
        {
            a.push(g1s[i].to_affine());
            b.push(g2s[i].to_affine());
            i += 1;
        }
        let r = bls_multi_pairing(&a, &b);
        proof {
            assert(Seq::new(a@.len(), |i: int| a@[i].value()) =~= point_values(g1s@));
            assert(Seq::new(b@.len(), |i: int| b@[i].value()) =~= point_values(g2s@));
        }
        Ok(r)
    }
}

/// The multi-pairing of two pairs is the product of the two pairings.
pub proof fn lemma_multi_pairing_of_two(p1: Seq<u8>, p2: Seq<u8>, q1: Seq<u8>, q2: Seq<u8>)
    ensures
        multi_pairing_value(seq![p1, p2], seq![q1, q2]) == gt_product(
            pairing_value(p1, q1),
            pairing_value(p2, q2),
        ),
{
    let ps = seq![p1, p2];
    let qs = seq![q1, q2];
    assert(ps.drop_last() =~= seq![p1]);
    assert(qs.drop_last() =~= seq![q1]);
    assert(multi_pairing_value(ps.drop_last(), qs.drop_last()) == pairing_value(p1, q1));
}

/// Bilinearity: the pairing of `a * p0` with `b * q0` is the pairing of `p0`
/// with `q0` raised to `a * b`, for points of the subgroups of prime order,
/// wherever `r` is a pairing of the two scaled points.
pub proof fn lemma_bilinear(p0: Seq<u8>, q0: Seq<u8>, a: nat, b: nat, r: Seq<u8>)
    requires
        g1_affine_valid(p0),
        g2_affine_valid(q0),
        g1_in_subgroup(p0),
        g2_in_subgroup(q0),
        a < modulus(),
        b < modulus(),
        bilinear_at(g1_scalar_product(p0, a), g2_scalar_product(q0, b), r),
    ensures
        r == gt_power(pairing_value(p0, q0), field_mul(a, b)),
{
}

} // verus!
