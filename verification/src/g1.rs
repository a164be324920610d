//! The group G1 of BLS12-381, over the base field.
//!
//! An affine point is held as the little-endian bytes of `x`, of `y`, and one
//! byte that is 1 for the point at infinity; a projective point as the bytes
//! of its three Jacobian coordinates.

use vstd::prelude::*;
use ark_ec::{CurveGroup, Group, VariableBaseMSM};
use ark_bls12_381::{Fq, Fr};
use ark_ff::{BigInt, PrimeField};
use ark_serialize::{CanonicalDeserialize, CanonicalSerialize};
use num_traits::Zero;
use crate::coords::{base_modulus, base_neg, coordinate};
use crate::field::{Scalar, all_wf, decimal_digits, le_bytes};
use crate::point::{Curve, refusal};
use crate::utils::SerializationError;

verus! {

/// The coordinate that starts at byte `at` is a canonical residue.
pub open spec fn g1_coordinate_valid(v: Seq<u8>, at: int) -> bool {
    coordinate(v, at) < base_modulus()
}

/// The curve equation `y^2 = x^3 + 4` over the base field.
pub open spec fn g1_on_curve(v: Seq<u8>) -> bool {
    let x = coordinate(v, 0) as int;
    let y = coordinate(v, 48) as int;
    (y * y) % (base_modulus() as int) == (x * x * x + 4) % (base_modulus() as int)
}

/// The inverse of an affine point: the same `x`, and `y` negated.
pub open spec fn g1_negation(a: Seq<u8>) -> Seq<u8> {
    a.subrange(0, 48) + le_bytes(base_neg(coordinate(a, 48)), 48) + a.subrange(96, 97)
}

/// The generator of the subgroup, by its coordinates.
pub open spec fn g1_generator() -> Seq<u8> {
    le_bytes(
        3685416753713387016781088315183077757961620795782546409894578378688607592378376318836054947676345821548104185464507nat,
        48,
    ) + le_bytes(
        1339506544944476473020471379941921221584933875938349620426543736416511423956333506472724655353366534992391756441569nat,
        48,
    ) + seq![0u8]
}

/// The text of an affine point: `infinity`, or the two coordinates in
/// decimal. A coordinate that is zero leaves its place empty.
pub open spec fn g1_text(a: Seq<u8>) -> Seq<char> {
    if a[96] == 1 {
        "infinity"@
    } else {
        "("@ + decimal_digits(coordinate(a, 0)) + ", "@ + decimal_digits(coordinate(a, 48)) + ")"@
    }
}

/// The point at infinity: zero coordinates and the flag set.
pub open spec fn g1_identity() -> Seq<u8> {
    Seq::new(97, |i: int| if i == 96 { 1u8 } else { 0u8 })
}

/// Affine coordinates are valid: in range, flagged by 0 or 1, zero at
/// infinity and on the curve elsewhere.
pub open spec fn g1_affine_valid(v: Seq<u8>) -> bool {
    &&& v.len() == 97
    &&& g1_coordinate_valid(v, 0)
    &&& g1_coordinate_valid(v, 48)
    &&& (v[96] == 0 || v[96] == 1)
    &&& v[96] == 1 ==> v == g1_identity()
    &&& v[96] == 0 ==> g1_on_curve(v)
}

/// Projective coordinates are valid: in range, and standing for a valid
/// affine point.
pub open spec fn g1_projective_valid(c: Seq<u8>) -> bool {
    &&& c.len() == 144
    &&& g1_coordinate_valid(c, 0)
    &&& g1_coordinate_valid(c, 48)
    &&& g1_coordinate_valid(c, 96)
    &&& g1_affine_valid(g1_normalized(c))
}

/// The affine point that projective coordinates stand for.
pub uninterp spec fn g1_normalized(c: Seq<u8>) -> Seq<u8>;

/// The group sum of two affine points.
pub uninterp spec fn g1_sum(a: Seq<u8>, b: Seq<u8>) -> Seq<u8>;

/// The affine point `s * a`.
pub uninterp spec fn g1_scalar_product(a: Seq<u8>, s: nat) -> Seq<u8>;

/// Whether an affine point lies in the subgroup of prime order.
pub uninterp spec fn g1_in_subgroup(a: Seq<u8>) -> bool;

/// The compressed encoding of an affine point.
pub uninterp spec fn g1_encoding(a: Seq<u8>) -> Seq<u8>;

/// What decoding without the subgroup test makes of a byte string.
pub uninterp spec fn g1_decoding(bytes: Seq<u8>) -> Result<Seq<u8>, SerializationError>;

/// The sum of `scalars[i] * points[i]`, built up from the left.
pub open spec fn g1_inner_product(points: Seq<Seq<u8>>, scalars: Seq<nat>) -> Seq<u8>
    decreases points.len(),
{
    if points.len() == 0 || scalars.len() == 0 {
        g1_identity()
    } else if points.len() == 1 {
        g1_scalar_product(points[0], scalars[0])
    } else {
        g1_sum(
            g1_inner_product(points.drop_last(), scalars.drop_last()),
            g1_scalar_product(points.last(), scalars.last()),
        )
    }
}

/// A point of G1 in affine coordinates.
#[derive(Clone, Copy, Debug)]
pub struct G1Affine {
    pub(crate) repr: [u8; 97],
}

/// A point of G1 in Jacobian coordinates.
#[derive(Clone, Copy, Debug)]
pub struct G1Projective {
    pub(crate) repr: [u8; 144],
}

impl G1Affine {
    /// The stored coordinates are valid.
    pub closed spec fn wf(&self) -> bool {
        g1_affine_valid(self.repr@)
    }

    /// The stored coordinates.
    pub closed spec fn value(&self) -> Seq<u8> {
        self.repr@
    }
}

/// A point of G1 in either form.
pub type G1 = crate::point::Point<G1Projective>;

/// Every projective point of the sequence is valid.
pub open spec fn g1_all_wf(v: Seq<G1Projective>) -> bool {
    forall|i: int| 0 <= i < v.len() ==> (#[trigger] v[i]).wf()
}

/// Every affine point of the sequence is valid.
pub open spec fn g1_all_affine_wf(v: Seq<G1Affine>) -> bool {
    forall|i: int| 0 <= i < v.len() ==> (#[trigger] v[i]).wf()
}

/// `AffineRepr::generator` of G1: the fixed generator, which lies in the
/// subgroup.
#[verifier::external_body]
fn g1_affine_generator() -> (r: G1Affine)
    ensures
        r.wf(),
        r.value() == g1_generator(),
        g1_in_subgroup(r.value()),
{
    let s = <ark_bls12_381::G1Affine as ark_ec::AffineRepr>::generator();
    let mut repr = [0u8; 97];
    (s.x, s.y, s.infinity).serialize_uncompressed(&mut repr[..]).unwrap();
    G1Affine { repr }
}

/// `AffineRepr::zero` of G1: the point at infinity, which lies in the
/// subgroup.
#[verifier::external_body]
fn g1_affine_identity() -> (r: G1Affine)
    ensures
        r.wf(),
        r.value() == g1_identity(),
        g1_in_subgroup(r.value()),
{
    let s = <ark_bls12_381::G1Affine as ark_ec::AffineRepr>::zero();
    let mut repr = [0u8; 97];
    (s.x, s.y, s.infinity).serialize_uncompressed(&mut repr[..]).unwrap();
    G1Affine { repr }
}

/// `CurveGroup::into_affine` of G1: the affine point that the projective
/// coordinates stand for.
#[verifier::external_body]
fn g1_into_affine(a: &G1Projective) -> (r: G1Affine)
    requires
        a.wf(),
    ensures
        r.wf(),
        r.value() == g1_normalized(a.repr@),
{
    let (x, y, z) = <(Fq, Fq, Fq)>::deserialize_uncompressed_unchecked(&a.repr[..]).unwrap();
    let s = ark_bls12_381::G1Projective { x, y, z }.into_affine();
    let mut repr = [0u8; 97];
    (s.x, s.y, s.infinity).serialize_uncompressed(&mut repr[..]).unwrap();
    G1Affine { repr }
}

/// `AffineRepr::into_group` of G1: projective coordinates that stand for
/// the same point.
#[verifier::external_body]
fn g1_from_affine(a: &G1Affine) -> (r: G1Projective)
    requires
        a.wf(),
    ensures
        r.wf(),
        g1_normalized(r.repr@) == a.value(),
{
    let (x, y, infinity) = <(Fq, Fq, bool)>::deserialize_uncompressed_unchecked(&a.repr[..]).unwrap();
    let s = ark_ec::AffineRepr::into_group(ark_bls12_381::G1Affine { x, y, infinity });
    let mut repr = [0u8; 144];
    (s.x, s.y, s.z).serialize_uncompressed(&mut repr[..]).unwrap();
    G1Projective { repr }
}

/// `Projective + Projective` of G1: the group sum. Adding the identity
/// gives the other point; adding the inverse gives the identity.
#[verifier::external_body]
fn g1_plus(a: &G1Projective, b: &G1Projective) -> (r: G1Projective)
    requires
        a.wf(),
        b.wf(),
    ensures
        r.wf(),
        g1_normalized(r.repr@) == g1_sum(g1_normalized(a.repr@), g1_normalized(b.repr@)),
        g1_normalized(b.repr@) == g1_identity() ==> g1_normalized(r.repr@) == g1_normalized(a.repr@),
        g1_normalized(b.repr@) == g1_negation(g1_normalized(a.repr@)) ==> g1_normalized(r.repr@)
            == g1_identity(),
{
    let (x, y, z) = <(Fq, Fq, Fq)>::deserialize_uncompressed_unchecked(&a.repr[..]).unwrap();
    let (u, v, w) = <(Fq, Fq, Fq)>::deserialize_uncompressed_unchecked(&b.repr[..]).unwrap();
    let s = ark_bls12_381::G1Projective { x, y, z } + ark_bls12_381::G1Projective { x: u, y: v, z: w };
    let mut repr = [0u8; 144];
    (s.x, s.y, s.z).serialize_uncompressed(&mut repr[..]).unwrap();
    G1Projective { repr }
}

/// `Projective + Affine` of G1: the group sum, with the same two laws.
#[verifier::external_body]
fn g1_plus_affine(a: &G1Projective, b: &G1Affine) -> (r: G1Projective)
    requires
        a.wf(),
        b.wf(),
    ensures
        r.wf(),
        g1_normalized(r.repr@) == g1_sum(g1_normalized(a.repr@), b.value()),
        b.value() == g1_identity() ==> g1_normalized(r.repr@) == g1_normalized(a.repr@),
        b.value() == g1_negation(g1_normalized(a.repr@)) ==> g1_normalized(r.repr@) == g1_identity(),
{
    let (x, y, z) = <(Fq, Fq, Fq)>::deserialize_uncompressed_unchecked(&a.repr[..]).unwrap();
    let (u, v, infinity) = <(Fq, Fq, bool)>::deserialize_uncompressed_unchecked(&b.repr[..]).unwrap();
    let s = ark_bls12_381::G1Projective { x, y, z } + ark_bls12_381::G1Affine { x: u, y: v, infinity };
    let mut repr = [0u8; 144];
    (s.x, s.y, s.z).serialize_uncompressed(&mut repr[..]).unwrap();
    G1Projective { repr }
}

/// `Projective - Projective` of G1: the sum with the inverse of the second
/// point. A point minus itself is the identity.
#[verifier::external_body]
fn g1_minus(a: &G1Projective, b: &G1Projective) -> (r: G1Projective)
    requires
        a.wf(),
        b.wf(),
    ensures
        r.wf(),
        g1_normalized(r.repr@) == g1_sum(
            g1_normalized(a.repr@),
            g1_negation(g1_normalized(b.repr@)),
        ),
        g1_normalized(b.repr@) == g1_normalized(a.repr@) ==> g1_normalized(r.repr@) == g1_identity(),
{
    let (x, y, z) = <(Fq, Fq, Fq)>::deserialize_uncompressed_unchecked(&a.repr[..]).unwrap();
    let (u, v, w) = <(Fq, Fq, Fq)>::deserialize_uncompressed_unchecked(&b.repr[..]).unwrap();
    let s = ark_bls12_381::G1Projective { x, y, z } - ark_bls12_381::G1Projective { x: u, y: v, z: w };
    let mut repr = [0u8; 144];
    (s.x, s.y, s.z).serialize_uncompressed(&mut repr[..]).unwrap();
    G1Projective { repr }
}

/// `-Projective` of G1: the inverse, which negates `y`.
#[verifier::external_body]
fn g1_negated(a: &G1Projective) -> (r: G1Projective)
    requires
        a.wf(),
    ensures
        r.wf(),
        g1_normalized(r.repr@) == g1_negation(g1_normalized(a.repr@)),
{
    let (x, y, z) = <(Fq, Fq, Fq)>::deserialize_uncompressed_unchecked(&a.repr[..]).unwrap();
    let s = -ark_bls12_381::G1Projective { x, y, z };
    let mut repr = [0u8; 144];
    (s.x, s.y, s.z).serialize_uncompressed(&mut repr[..]).unwrap();
    G1Projective { repr }
}

/// `Group::double` of G1: the point added to itself.
#[verifier::external_body]
fn g1_doubled(a: &G1Projective) -> (r: G1Projective)
    requires
        a.wf(),
    ensures
        r.wf(),
        g1_normalized(r.repr@) == g1_sum(g1_normalized(a.repr@), g1_normalized(a.repr@)),
{
    let (x, y, z) = <(Fq, Fq, Fq)>::deserialize_uncompressed_unchecked(&a.repr[..]).unwrap();
    let s = ark_bls12_381::G1Projective { x, y, z }.double();
    let mut repr = [0u8; 144];
    (s.x, s.y, s.z).serialize_uncompressed(&mut repr[..]).unwrap();
    G1Projective { repr }
}

/// `Projective * Fr` of G1: the point multiplied by the scalar.
#[verifier::external_body]
fn g1_times(a: &G1Projective, k: &Scalar) -> (r: G1Projective)
    requires
        a.wf(),
        k.wf(),
    ensures
        r.wf(),
        g1_normalized(r.repr@) == g1_scalar_product(g1_normalized(a.repr@), k@),
{
    let (x, y, z) = <(Fq, Fq, Fq)>::deserialize_uncompressed_unchecked(&a.repr[..]).unwrap();
    let f = Fr::from_bigint(BigInt(k.limbs())).unwrap();
    let s = ark_bls12_381::G1Projective { x, y, z } * f;
    let mut repr = [0u8; 144];
    (s.x, s.y, s.z).serialize_uncompressed(&mut repr[..]).unwrap();
    G1Projective { repr }
}

/// `Projective == Projective` of G1: whether both stand for the same point.
#[verifier::external_body]
fn g1_same(a: &G1Projective, b: &G1Projective) -> (r: bool)
    requires
        a.wf(),
        b.wf(),
    ensures
        r == (g1_normalized(a.repr@) == g1_normalized(b.repr@)),
{
    let (x, y, z) = <(Fq, Fq, Fq)>::deserialize_uncompressed_unchecked(&a.repr[..]).unwrap();
    let (u, v, w) = <(Fq, Fq, Fq)>::deserialize_uncompressed_unchecked(&b.repr[..]).unwrap();
    ark_bls12_381::G1Projective { x, y, z } == ark_bls12_381::G1Projective { x: u, y: v, z: w }
}

/// `CanonicalSerialize::serialize_compressed` of an affine point of G1:
/// its 48 bytes, from which decoding gives the point back.
#[verifier::external_body]
fn g1_encode(a: &G1Affine) -> (r: Result<Vec<u8>, SerializationError>)
    requires
        a.wf(),
    ensures
        r is Ok,
        r->Ok_0@ == g1_encoding(a.value()),
        r->Ok_0@.len() == 48,
        g1_decoding(r->Ok_0@) is Ok && g1_decoding(r->Ok_0@)->Ok_0 == a.value(),
{
    let (x, y, infinity) = <(Fq, Fq, bool)>::deserialize_uncompressed_unchecked(&a.repr[..]).unwrap();
    let mut bytes = Vec::new();
    match (ark_bls12_381::G1Affine { x, y, infinity }).serialize_compressed(&mut bytes) {
        Ok(()) => Ok(bytes),
        Err(e) => Err(match e {
            ark_serialize::SerializationError::NotEnoughSpace => SerializationError::NotEnoughSpace,
            ark_serialize::SerializationError::InvalidData => SerializationError::InvalidData,
            ark_serialize::SerializationError::UnexpectedFlags => SerializationError::UnexpectedFlags,
            ark_serialize::SerializationError::IoError(err) => SerializationError::IoFailure(err.to_string()),
        }),
    }
}

/// `CanonicalDeserialize::deserialize_compressed` of G1: decodes, then
/// refuses as invalid data a point outside the subgroup.
#[verifier::external_body]
fn g1_decode(bytes: &[u8]) -> (r: Result<G1Affine, SerializationError>)
    ensures
        r is Ok <==> (g1_decoding(bytes@) is Ok && g1_in_subgroup(g1_decoding(bytes@)->Ok_0)),
        r is Ok ==> r->Ok_0.wf() && r->Ok_0.value() == g1_decoding(bytes@)->Ok_0,
        r is Err ==> r->Err_0 == refusal(g1_decoding(bytes@)),
{
    match ark_bls12_381::G1Affine::deserialize_compressed(bytes) {
        Ok(s) => {
            let mut repr = [0u8; 97];
            (s.x, s.y, s.infinity).serialize_uncompressed(&mut repr[..]).unwrap();
            Ok(G1Affine { repr })
        },
        Err(ark_serialize::SerializationError::NotEnoughSpace) => Err(SerializationError::NotEnoughSpace),
        Err(ark_serialize::SerializationError::InvalidData) => Err(SerializationError::InvalidData),
        Err(ark_serialize::SerializationError::UnexpectedFlags) => Err(SerializationError::UnexpectedFlags),
        Err(ark_serialize::SerializationError::IoError(err)) => Err(SerializationError::IoFailure(err.to_string())),
    }
}

/// `CanonicalDeserialize::deserialize_compressed_unchecked` of G1: decodes
/// without the subgroup test.
#[verifier::external_body]
fn g1_decode_unchecked(bytes: &[u8]) -> (r: Result<G1Affine, SerializationError>)
    ensures
        r is Ok <==> g1_decoding(bytes@) is Ok,
        r is Ok ==> r->Ok_0.wf() && r->Ok_0.value() == g1_decoding(bytes@)->Ok_0,
        r is Err ==> r->Err_0 == g1_decoding(bytes@)->Err_0,
{
    match ark_bls12_381::G1Affine::deserialize_compressed_unchecked(bytes) {
        Ok(s) => {
            let mut repr = [0u8; 97];
            (s.x, s.y, s.infinity).serialize_uncompressed(&mut repr[..]).unwrap();
            Ok(G1Affine { repr })
        },
        Err(ark_serialize::SerializationError::NotEnoughSpace) => Err(SerializationError::NotEnoughSpace),
        Err(ark_serialize::SerializationError::InvalidData) => Err(SerializationError::InvalidData),
        Err(ark_serialize::SerializationError::UnexpectedFlags) => Err(SerializationError::UnexpectedFlags),
        Err(ark_serialize::SerializationError::IoError(err)) => Err(SerializationError::IoFailure(err.to_string())),
    }
}

/// `Display` of an affine point of G1: `infinity`, or the coordinates in
/// brackets.
#[verifier::external_body]
fn g1_affine_text(a: &G1Affine) -> (r: String)
    requires
        a.wf(),
    ensures
        r@ == g1_text(a.value()),
{
    let (x, y, infinity) = <(Fq, Fq, bool)>::deserialize_uncompressed_unchecked(&a.repr[..]).unwrap();
    format!("{}", ark_bls12_381::G1Affine { x, y, infinity })
}

/// `CurveGroup::normalize_batch` of G1: the affine point of every entry,
/// found with one shared inversion.
#[verifier::external_body]
fn g1_normalize_batch(v: &Vec<G1Projective>) -> (r: Vec<G1Affine>)
    requires
        g1_all_wf(v@),
    ensures
        r@.len() == v@.len(),
        forall|i: int|
            0 <= i < r@.len() ==> (#[trigger] r@[i]).wf() && r@[i].value() == g1_normalized(v@[i].repr@),
{
    let ps: Vec<ark_bls12_381::G1Projective> = v.iter()
        .map(|a| <(Fq, Fq, Fq)>::deserialize_uncompressed_unchecked(&a.repr[..]).unwrap())
        .map(|(x, y, z)| ark_bls12_381::G1Projective { x, y, z })
        .collect();
    let mut out = Vec::new();
    for s in ark_bls12_381::G1Projective::normalize_batch(&ps) {
        let mut repr = [0u8; 97];
        (s.x, s.y, s.infinity).serialize_uncompressed(&mut repr[..]).unwrap();
        out.push(G1Affine { repr });
    }
    out
}

/// `VariableBaseMSM::msm_unchecked` of G1 on sequences of one length: the
/// inner product of the scalars and the points.
#[verifier::external_body]
fn g1_msm_unchecked(bases: &Vec<G1Affine>, scalars: &Vec<Scalar>) -> (r: G1Projective)
    requires
        bases@.len() == scalars@.len(),
        g1_all_affine_wf(bases@),
        all_wf(scalars@),
    ensures
        r.wf(),
        g1_normalized(r.repr@) == g1_inner_product(
            Seq::new(bases@.len(), |i: int| bases@[i].value()),
            Seq::new(scalars@.len(), |i: int| scalars@[i]@),
        ),
{
    let ps: Vec<ark_bls12_381::G1Affine> = bases.iter()
        .map(|a| <(Fq, Fq, bool)>::deserialize_uncompressed_unchecked(&a.repr[..]).unwrap())
        .map(|(x, y, infinity)| ark_bls12_381::G1Affine { x, y, infinity })
        .collect();
    let ks: Vec<Fr> = scalars.iter()
        .map(|k| Fr::from_bigint(BigInt(k.limbs())).unwrap())
        .collect();
    let s = ark_bls12_381::G1Projective::msm_unchecked(&ps, &ks);
    let mut repr = [0u8; 144];
    (s.x, s.y, s.z).serialize_uncompressed(&mut repr[..]).unwrap();
    G1Projective { repr }
}

impl Curve for G1Projective {
    type Affine = G1Affine;

    closed spec fn wf(&self) -> bool {
        g1_projective_valid(self.repr@)
    }

    closed spec fn value(&self) -> Seq<u8> {
        g1_normalized(self.repr@)
    }

    open spec fn affine_wf(a: G1Affine) -> bool {
        a.wf()
    }

    open spec fn affine_value(a: G1Affine) -> Seq<u8> {
        a.value()
    }

    open spec fn identity_value() -> Seq<u8> {
        g1_identity()
    }

    open spec fn generator_value() -> Seq<u8> {
        g1_generator()
    }

    open spec fn sum(a: Seq<u8>, b: Seq<u8>) -> Seq<u8> {
        g1_sum(a, b)
    }

    open spec fn negation(a: Seq<u8>) -> Seq<u8> {
        g1_negation(a)
    }

    open spec fn scalar_product(a: Seq<u8>, s: nat) -> Seq<u8> {
        g1_scalar_product(a, s)
    }

    open spec fn in_subgroup(a: Seq<u8>) -> bool {
        g1_in_subgroup(a)
    }

    open spec fn encoding(a: Seq<u8>) -> Seq<u8> {
        g1_encoding(a)
    }

    open spec fn text(a: Seq<u8>) -> Seq<char> {
        g1_text(a)
    }

    open spec fn compressed_size() -> nat {
        48
    }

    open spec fn decoding(bytes: Seq<u8>) -> Result<Seq<u8>, SerializationError> {
        g1_decoding(bytes)
    }

    open spec fn inner_product(points: Seq<Seq<u8>>, scalars: Seq<nat>) -> Seq<u8> {
        g1_inner_product(points, scalars)
    }

    proof fn inner_product_unfold(points: Seq<Seq<u8>>, scalars: Seq<nat>) {
    }

    fn affine_generator() -> (r: G1Affine) {
        g1_affine_generator()
    }

    fn affine_identity() -> (r: G1Affine) {
        g1_affine_identity()
    }

    fn into_affine(&self) -> (r: G1Affine) {
        g1_into_affine(self)
    }

    fn from_affine(a: &G1Affine) -> (r: Self) {
        g1_from_affine(a)
    }

    fn plus(&self, rhs: &Self) -> (r: Self) {
        g1_plus(self, rhs)
    }

    fn plus_affine(&self, rhs: &G1Affine) -> (r: Self) {
        g1_plus_affine(self, rhs)
    }

    fn minus(&self, rhs: &Self) -> (r: Self) {
        g1_minus(self, rhs)
    }

    fn negated(&self) -> (r: Self) {
        g1_negated(self)
    }

    fn doubled(&self) -> (r: Self) {
        g1_doubled(self)
    }

    fn times(&self, s: &Scalar) -> (r: Self) {
        g1_times(self, s)
    }

    fn same(&self, other: &Self) -> (r: bool) {
        g1_same(self, other)
    }

    fn encode(a: &G1Affine) -> (r: Result<Vec<u8>, SerializationError>) {
        g1_encode(a)
    }

    fn decode(bytes: &[u8]) -> (r: Result<G1Affine, SerializationError>) {
        g1_decode(bytes)
    }

    fn decode_unchecked(bytes: &[u8]) -> (r: Result<G1Affine, SerializationError>) {
        g1_decode_unchecked(bytes)
    }

    fn affine_text(a: &G1Affine) -> (r: String) {
        g1_affine_text(a)
    }

    fn normalize_batch(v: &Vec<Self>) -> (r: Vec<G1Affine>) {
        g1_normalize_batch(v)
    }

    fn msm_unchecked(bases: &Vec<G1Affine>, scalars: &Vec<Scalar>) -> (r: Self) {
        let r = g1_msm_unchecked(bases, scalars);
        proof {
            assert(Seq::new(bases@.len(), |i: int| Self::affine_value(bases@[i])) =~= Seq::new(
                bases@.len(),
                |i: int| bases@[i].value(),
            ));
        }
        r
    }
}

} // verus!
