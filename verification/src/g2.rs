//! The group G2 of BLS12-381, over the quadratic extension of the base field.
//!
//! An affine point is held as the little-endian bytes of `x`, of `y`, and one
//! byte that is 1 for the point at infinity; a projective point as the bytes
//! of its three Jacobian coordinates.

use vstd::prelude::*;
use ark_ec::{CurveGroup, Group, VariableBaseMSM};
use ark_bls12_381::{Fq2, Fr};
use ark_ff::{BigInt, PrimeField};
use ark_serialize::{CanonicalDeserialize, CanonicalSerialize};
use num_traits::Zero;
use crate::coords::{base_modulus, base_neg, coordinate, pair_text};
use crate::field::{Scalar, all_wf, decimal_digits, le_bytes};
use crate::point::{Curve, refusal};
use crate::utils::SerializationError;

verus! {

/// The coordinate that starts at byte `at` is a pair of canonical residues.
pub open spec fn g2_coordinate_valid(v: Seq<u8>, at: int) -> bool {
    coordinate(v, at) < base_modulus() && coordinate(v, at + 48) < base_modulus()
}

/// The curve equation `y^2 = x^3 + 4(1 + u)` over the quadratic extension,
/// where `u^2 = -1`, written out for the two components.
pub open spec fn g2_on_curve(v: Seq<u8>) -> bool {
    let x0 = coordinate(v, 0) as int;
    let x1 = coordinate(v, 48) as int;
    let y0 = coordinate(v, 96) as int;
    let y1 = coordinate(v, 144) as int;
    let s0 = x0 * x0 - x1 * x1;
    let s1 = 2 * x0 * x1;
    let c0 = x0 * s0 - x1 * s1;
    let c1 = x0 * s1 + x1 * s0;
    let q = base_modulus() as int;
    (y0 * y0 - y1 * y1 - c0 - 4) % q == 0 && (2 * y0 * y1 - c1 - 4) % q == 0
}

/// The inverse of an affine point: the same `x`, and both components of `y`
/// negated.
pub open spec fn g2_negation(a: Seq<u8>) -> Seq<u8> {
    a.subrange(0, 96) + le_bytes(base_neg(coordinate(a, 96)), 48) + le_bytes(
        base_neg(coordinate(a, 144)),
        48,
    ) + a.subrange(192, 193)
}

/// The generator of the subgroup, by its coordinates.
pub open spec fn g2_generator() -> Seq<u8> {
    le_bytes(
        352701069587466618187139116011060144890029952792775240219908644239793785735715026873347600343865175952761926303160nat,
        48,
    ) + le_bytes(
        3059144344244213709971259814753781636986470325476647558659373206291635324768958432433509563104347017837885763365758nat,
        48,
    ) + le_bytes(
        1985150602287291935568054521177171638300868978215655730859378665066344726373823718423869104263333984641494340347905nat,
        48,
    ) + le_bytes(
        927553665492332455747201965776037880757740193453592970025027978793976877002675564980949289727957565575433344219582nat,
        48,
    ) + seq![0u8]
}

/// The text of an affine point: `infinity`, or the two coordinates, each
/// with its two components in decimal.
pub open spec fn g2_text(a: Seq<u8>) -> Seq<char> {
    if a[192] == 1 {
        "infinity"@
    } else {
        "("@ + pair_text(a, 0) + ", "@ + pair_text(a, 96) + ")"@
    }
}

/// The point at infinity: zero coordinates and the flag set.
pub open spec fn g2_identity() -> Seq<u8> {
    Seq::new(193, |i: int| if i == 192 { 1u8 } else { 0u8 })
}

/// Affine coordinates are valid: in range, flagged by 0 or 1, zero at
/// infinity and on the curve elsewhere.
pub open spec fn g2_affine_valid(v: Seq<u8>) -> bool {
    &&& v.len() == 193
    &&& g2_coordinate_valid(v, 0)
    &&& g2_coordinate_valid(v, 96)
    &&& (v[192] == 0 || v[192] == 1)
    &&& v[192] == 1 ==> v == g2_identity()
    &&& v[192] == 0 ==> g2_on_curve(v)
}

/// Projective coordinates are valid: in range, and standing for a valid
/// affine point.
pub open spec fn g2_projective_valid(c: Seq<u8>) -> bool {
    &&& c.len() == 288
    &&& g2_coordinate_valid(c, 0)
    &&& g2_coordinate_valid(c, 96)
    &&& g2_coordinate_valid(c, 192)
    &&& g2_affine_valid(g2_normalized(c))
}

/// The affine point that projective coordinates stand for.
pub uninterp spec fn g2_normalized(c: Seq<u8>) -> Seq<u8>;

/// The group sum of two affine points.
pub uninterp spec fn g2_sum(a: Seq<u8>, b: Seq<u8>) -> Seq<u8>;

/// The affine point `s * a`.
pub uninterp spec fn g2_scalar_product(a: Seq<u8>, s: nat) -> Seq<u8>;

/// Whether an affine point lies in the subgroup of prime order.
pub uninterp spec fn g2_in_subgroup(a: Seq<u8>) -> bool;

/// The compressed encoding of an affine point.
pub uninterp spec fn g2_encoding(a: Seq<u8>) -> Seq<u8>;

/// What decoding without the subgroup test makes of a byte string.
pub uninterp spec fn g2_decoding(bytes: Seq<u8>) -> Result<Seq<u8>, SerializationError>;

/// The sum of `scalars[i] * points[i]`, built up from the left.
pub open spec fn g2_inner_product(points: Seq<Seq<u8>>, scalars: Seq<nat>) -> Seq<u8>
    decreases points.len(),
{
    if points.len() == 0 || scalars.len() == 0 {
        g2_identity()
    } else if points.len() == 1 {
        g2_scalar_product(points[0], scalars[0])
    } else {
        g2_sum(
            g2_inner_product(points.drop_last(), scalars.drop_last()),
            g2_scalar_product(points.last(), scalars.last()),
        )
    }
}

/// A point of G2 in affine coordinates.
#[derive(Clone, Copy, Debug)]
pub struct G2Affine {
    pub(crate) repr: [u8; 193],
}

/// A point of G2 in Jacobian coordinates.
#[derive(Clone, Copy, Debug)]
pub struct G2Projective {
    pub(crate) repr: [u8; 288],
}

impl G2Affine {
    /// The stored coordinates are valid.
    pub closed spec fn wf(&self) -> bool {
        g2_affine_valid(self.repr@)
    }

    /// The stored coordinates.
    pub closed spec fn value(&self) -> Seq<u8> {
        self.repr@
    }
}

/// A point of G2 in either form.
pub type G2 = crate::point::Point<G2Projective>;

/// Every projective point of the sequence is valid.
pub open spec fn g2_all_wf(v: Seq<G2Projective>) -> bool {
    forall|i: int| 0 <= i < v.len() ==> (#[trigger] v[i]).wf()
}

/// Every affine point of the sequence is valid.
pub open spec fn g2_all_affine_wf(v: Seq<G2Affine>) -> bool {
    forall|i: int| 0 <= i < v.len() ==> (#[trigger] v[i]).wf()
}

/// `AffineRepr::generator` of G2: the fixed generator, which lies in the
/// subgroup.
#[verifier::external_body]
fn g2_affine_generator() -> (r: G2Affine)
    ensures
        r.wf(),
        r.value() == g2_generator(),
        g2_in_subgroup(r.value()),
{
    let s = <ark_bls12_381::G2Affine as ark_ec::AffineRepr>::generator();
    let mut repr = [0u8; 193];
    (s.x, s.y, s.infinity).serialize_uncompressed(&mut repr[..]).unwrap();
    G2Affine { repr }
}

/// `AffineRepr::zero` of G2: the point at infinity, which lies in the
/// subgroup.
#[verifier::external_body]
fn g2_affine_identity() -> (r: G2Affine)
    ensures
        r.wf(),
        r.value() == g2_identity(),
        g2_in_subgroup(r.value()),
{
    let s = <ark_bls12_381::G2Affine as ark_ec::AffineRepr>::zero();
    let mut repr = [0u8; 193];
    (s.x, s.y, s.infinity).serialize_uncompressed(&mut repr[..]).unwrap();
    G2Affine { repr }
}

/// `CurveGroup::into_affine` of G2: the affine point that the projective
/// coordinates stand for.
#[verifier::external_body]
fn g2_into_affine(a: &G2Projective) -> (r: G2Affine)
    requires
        a.wf(),
    ensures
        r.wf(),
        r.value() == g2_normalized(a.repr@),
{
    let (x, y, z) = <(Fq2, Fq2, Fq2)>::deserialize_uncompressed_unchecked(&a.repr[..]).unwrap();
    let s = ark_bls12_381::G2Projective { x, y, z }.into_affine();
    let mut repr = [0u8; 193];
    (s.x, s.y, s.infinity).serialize_uncompressed(&mut repr[..]).unwrap();
    G2Affine { repr }
}

/// `AffineRepr::into_group` of G2: projective coordinates that stand for
/// the same point.
#[verifier::external_body]
fn g2_from_affine(a: &G2Affine) -> (r: G2Projective)
    requires
        a.wf(),
    ensures
        r.wf(),
        g2_normalized(r.repr@) == a.value(),
{
    let (x, y, infinity) = <(Fq2, Fq2, bool)>::deserialize_uncompressed_unchecked(&a.repr[..]).unwrap();
    let s = ark_ec::AffineRepr::into_group(ark_bls12_381::G2Affine { x, y, infinity });
    let mut repr = [0u8; 288];
    (s.x, s.y, s.z).serialize_uncompressed(&mut repr[..]).unwrap();
    G2Projective { repr }
}

/// `Projective + Projective` of G2: the group sum. Adding the identity
/// gives the other point; adding the inverse gives the identity.
#[verifier::external_body]
fn g2_plus(a: &G2Projective, b: &G2Projective) -> (r: G2Projective)
    requires
        a.wf(),
        b.wf(),
    ensures
        r.wf(),
        g2_normalized(r.repr@) == g2_sum(g2_normalized(a.repr@), g2_normalized(b.repr@)),
        g2_normalized(b.repr@) == g2_identity() ==> g2_normalized(r.repr@) == g2_normalized(a.repr@),
        g2_normalized(b.repr@) == g2_negation(g2_normalized(a.repr@)) ==> g2_normalized(r.repr@)
            == g2_identity(),
{
    let (x, y, z) = <(Fq2, Fq2, Fq2)>::deserialize_uncompressed_unchecked(&a.repr[..]).unwrap();
    let (u, v, w) = <(Fq2, Fq2, Fq2)>::deserialize_uncompressed_unchecked(&b.repr[..]).unwrap();
    let s = ark_bls12_381::G2Projective { x, y, z } + ark_bls12_381::G2Projective { x: u, y: v, z: w };
    let mut repr = [0u8; 288];
    (s.x, s.y, s.z).serialize_uncompressed(&mut repr[..]).unwrap();
    G2Projective { repr }
}

/// `Projective + Affine` of G2: the group sum, with the same two laws.
#[verifier::external_body]
fn g2_plus_affine(a: &G2Projective, b: &G2Affine) -> (r: G2Projective)
    requires
        a.wf(),
        b.wf(),
    ensures
        r.wf(),
        g2_normalized(r.repr@) == g2_sum(g2_normalized(a.repr@), b.value()),
        b.value() == g2_identity() ==> g2_normalized(r.repr@) == g2_normalized(a.repr@),
        b.value() == g2_negation(g2_normalized(a.repr@)) ==> g2_normalized(r.repr@) == g2_identity(),
{
    let (x, y, z) = <(Fq2, Fq2, Fq2)>::deserialize_uncompressed_unchecked(&a.repr[..]).unwrap();
    let (u, v, infinity) = <(Fq2, Fq2, bool)>::deserialize_uncompressed_unchecked(&b.repr[..]).unwrap();
    let s = ark_bls12_381::G2Projective { x, y, z } + ark_bls12_381::G2Affine { x: u, y: v, infinity };
    let mut repr = [0u8; 288];
    (s.x, s.y, s.z).serialize_uncompressed(&mut repr[..]).unwrap();
    G2Projective { repr }
}

/// `Projective - Projective` of G2: the sum with the inverse of the second
/// point. A point minus itself is the identity.
#[verifier::external_body]
fn g2_minus(a: &G2Projective, b: &G2Projective) -> (r: G2Projective)
    requires
        a.wf(),
        b.wf(),
    ensures
        r.wf(),
        g2_normalized(r.repr@) == g2_sum(
            g2_normalized(a.repr@),
            g2_negation(g2_normalized(b.repr@)),
        ),
        g2_normalized(b.repr@) == g2_normalized(a.repr@) ==> g2_normalized(r.repr@) == g2_identity(),
{
    let (x, y, z) = <(Fq2, Fq2, Fq2)>::deserialize_uncompressed_unchecked(&a.repr[..]).unwrap();
    let (u, v, w) = <(Fq2, Fq2, Fq2)>::deserialize_uncompressed_unchecked(&b.repr[..]).unwrap();
    let s = ark_bls12_381::G2Projective { x, y, z } - ark_bls12_381::G2Projective { x: u, y: v, z: w };
    let mut repr = [0u8; 288];
    (s.x, s.y, s.z).serialize_uncompressed(&mut repr[..]).unwrap();
    G2Projective { repr }
}

/// `-Projective` of G2: the inverse, which negates `y`.
#[verifier::external_body]
fn g2_negated(a: &G2Projective) -> (r: G2Projective)
    requires
        a.wf(),
    ensures
        r.wf(),
        g2_normalized(r.repr@) == g2_negation(g2_normalized(a.repr@)),
{
    let (x, y, z) = <(Fq2, Fq2, Fq2)>::deserialize_uncompressed_unchecked(&a.repr[..]).unwrap();
    let s = -ark_bls12_381::G2Projective { x, y, z };
    let mut repr = [0u8; 288];
    (s.x, s.y, s.z).serialize_uncompressed(&mut repr[..]).unwrap();
    G2Projective { repr }
}

/// `Group::double` of G2: the point added to itself.
#[verifier::external_body]
fn g2_doubled(a: &G2Projective) -> (r: G2Projective)
    requires
        a.wf(),
    ensures
        r.wf(),
        g2_normalized(r.repr@) == g2_sum(g2_normalized(a.repr@), g2_normalized(a.repr@)),
{
    let (x, y, z) = <(Fq2, Fq2, Fq2)>::deserialize_uncompressed_unchecked(&a.repr[..]).unwrap();
    let s = ark_bls12_381::G2Projective { x, y, z }.double();
    let mut repr = [0u8; 288];
    (s.x, s.y, s.z).serialize_uncompressed(&mut repr[..]).unwrap();
    G2Projective { repr }
}

/// `Projective * Fr` of G2: the point multiplied by the scalar.
#[verifier::external_body]
fn g2_times(a: &G2Projective, k: &Scalar) -> (r: G2Projective)
    requires
        a.wf(),
        k.wf(),
    ensures
        r.wf(),
        g2_normalized(r.repr@) == g2_scalar_product(g2_normalized(a.repr@), k@),
{
    let (x, y, z) = <(Fq2, Fq2, Fq2)>::deserialize_uncompressed_unchecked(&a.repr[..]).unwrap();
    let f = Fr::from_bigint(BigInt(k.limbs())).unwrap();
    let s = ark_bls12_381::G2Projective { x, y, z } * f;
    let mut repr = [0u8; 288];
    (s.x, s.y, s.z).serialize_uncompressed(&mut repr[..]).unwrap();
    G2Projective { repr }
}

/// `Projective == Projective` of G2: whether both stand for the same point.
#[verifier::external_body]
fn g2_same(a: &G2Projective, b: &G2Projective) -> (r: bool)
    requires
        a.wf(),
        b.wf(),
    ensures
        r == (g2_normalized(a.repr@) == g2_normalized(b.repr@)),
{
    let (x, y, z) = <(Fq2, Fq2, Fq2)>::deserialize_uncompressed_unchecked(&a.repr[..]).unwrap();
    let (u, v, w) = <(Fq2, Fq2, Fq2)>::deserialize_uncompressed_unchecked(&b.repr[..]).unwrap();
    ark_bls12_381::G2Projective { x, y, z } == ark_bls12_381::G2Projective { x: u, y: v, z: w }
}

/// `CanonicalSerialize::serialize_compressed` of an affine point of G2:
/// its 96 bytes, from which decoding gives the point back.
#[verifier::external_body]
fn g2_encode(a: &G2Affine) -> (r: Result<Vec<u8>, SerializationError>)
    requires
        a.wf(),
    ensures
        r is Ok,
        r->Ok_0@ == g2_encoding(a.value()),
        r->Ok_0@.len() == 96,
        g2_decoding(r->Ok_0@) is Ok && g2_decoding(r->Ok_0@)->Ok_0 == a.value(),
{
    let (x, y, infinity) = <(Fq2, Fq2, bool)>::deserialize_uncompressed_unchecked(&a.repr[..]).unwrap();
    let mut bytes = Vec::new();
    match (ark_bls12_381::G2Affine { x, y, infinity }).serialize_compressed(&mut bytes) {
        Ok(()) => Ok(bytes),
        Err(e) => Err(match e {
            ark_serialize::SerializationError::NotEnoughSpace => SerializationError::NotEnoughSpace,
            ark_serialize::SerializationError::InvalidData => SerializationError::InvalidData,
            ark_serialize::SerializationError::UnexpectedFlags => SerializationError::UnexpectedFlags,
            ark_serialize::SerializationError::IoError(err) => SerializationError::IoFailure(err.to_string()),
        }),
    }
}

/// `CanonicalDeserialize::deserialize_compressed` of G2: decodes, then
/// refuses as invalid data a point outside the subgroup.
#[verifier::external_body]
fn g2_decode(bytes: &[u8]) -> (r: Result<G2Affine, SerializationError>)
    ensures
        r is Ok <==> (g2_decoding(bytes@) is Ok && g2_in_subgroup(g2_decoding(bytes@)->Ok_0)),
        r is Ok ==> r->Ok_0.wf() && r->Ok_0.value() == g2_decoding(bytes@)->Ok_0,
        r is Err ==> r->Err_0 == refusal(g2_decoding(bytes@)),
{
    match ark_bls12_381::G2Affine::deserialize_compressed(bytes) {
        Ok(s) => {
            let mut repr = [0u8; 193];
            (s.x, s.y, s.infinity).serialize_uncompressed(&mut repr[..]).unwrap();
            Ok(G2Affine { repr })
        },
        Err(ark_serialize::SerializationError::NotEnoughSpace) => Err(SerializationError::NotEnoughSpace),
        Err(ark_serialize::SerializationError::InvalidData) => Err(SerializationError::InvalidData),
        Err(ark_serialize::SerializationError::UnexpectedFlags) => Err(SerializationError::UnexpectedFlags),
        Err(ark_serialize::SerializationError::IoError(err)) => Err(SerializationError::IoFailure(err.to_string())),
    }
}

/// `CanonicalDeserialize::deserialize_compressed_unchecked` of G2: decodes
/// without the subgroup test.
#[verifier::external_body]
fn g2_decode_unchecked(bytes: &[u8]) -> (r: Result<G2Affine, SerializationError>)
    ensures
        r is Ok <==> g2_decoding(bytes@) is Ok,
        r is Ok ==> r->Ok_0.wf() && r->Ok_0.value() == g2_decoding(bytes@)->Ok_0,
        r is Err ==> r->Err_0 == g2_decoding(bytes@)->Err_0,
{
    match ark_bls12_381::G2Affine::deserialize_compressed_unchecked(bytes) {
        Ok(s) => {
            let mut repr = [0u8; 193];
            (s.x, s.y, s.infinity).serialize_uncompressed(&mut repr[..]).unwrap();
            Ok(G2Affine { repr })
        },
        Err(ark_serialize::SerializationError::NotEnoughSpace) => Err(SerializationError::NotEnoughSpace),
        Err(ark_serialize::SerializationError::InvalidData) => Err(SerializationError::InvalidData),
        Err(ark_serialize::SerializationError::UnexpectedFlags) => Err(SerializationError::UnexpectedFlags),
        Err(ark_serialize::SerializationError::IoError(err)) => Err(SerializationError::IoFailure(err.to_string())),
    }
}

/// `Display` of an affine point of G2: `infinity`, or the coordinates in
/// brackets.
#[verifier::external_body]
fn g2_affine_text(a: &G2Affine) -> (r: String)
    requires
        a.wf(),
    ensures
        r@ == g2_text(a.value()),
{
    let (x, y, infinity) = <(Fq2, Fq2, bool)>::deserialize_uncompressed_unchecked(&a.repr[..]).unwrap();
    format!("{}", ark_bls12_381::G2Affine { x, y, infinity })
}

/// `CurveGroup::normalize_batch` of G2: the affine point of every entry,
/// found with one shared inversion.
#[verifier::external_body]
fn g2_normalize_batch(v: &Vec<G2Projective>) -> (r: Vec<G2Affine>)
    requires
        g2_all_wf(v@),
    ensures
        r@.len() == v@.len(),
        forall|i: int|
            0 <= i < r@.len() ==> (#[trigger] r@[i]).wf() && r@[i].value() == g2_normalized(v@[i].repr@),
{
    let ps: Vec<ark_bls12_381::G2Projective> = v.iter()
        .map(|a| <(Fq2, Fq2, Fq2)>::deserialize_uncompressed_unchecked(&a.repr[..]).unwrap())
        .map(|(x, y, z)| ark_bls12_381::G2Projective { x, y, z })
        .collect();
    let mut out = Vec::new();
    for s in ark_bls12_381::G2Projective::normalize_batch(&ps) {
        let mut repr = [0u8; 193];
        (s.x, s.y, s.infinity).serialize_uncompressed(&mut repr[..]).unwrap();
        out.push(G2Affine { repr });
    }
    out
}

/// `VariableBaseMSM::msm_unchecked` of G2 on sequences of one length: the
/// inner product of the scalars and the points.
#[verifier::external_body]
fn g2_msm_unchecked(bases: &Vec<G2Affine>, scalars: &Vec<Scalar>) -> (r: G2Projective)
    requires
        bases@.len() == scalars@.len(),
        g2_all_affine_wf(bases@),
        all_wf(scalars@),
    ensures
        r.wf(),
        g2_normalized(r.repr@) == g2_inner_product(
            Seq::new(bases@.len(), |i: int| bases@[i].value()),
            Seq::new(scalars@.len(), |i: int| scalars@[i]@),
        ),
{
    let ps: Vec<ark_bls12_381::G2Affine> = bases.iter()
        .map(|a| <(Fq2, Fq2, bool)>::deserialize_uncompressed_unchecked(&a.repr[..]).unwrap())
        .map(|(x, y, infinity)| ark_bls12_381::G2Affine { x, y, infinity })
        .collect();
    let ks: Vec<Fr> = scalars.iter()
        .map(|k| Fr::from_bigint(BigInt(k.limbs())).unwrap())
        .collect();
    let s = ark_bls12_381::G2Projective::msm_unchecked(&ps, &ks);
    let mut repr = [0u8; 288];
    (s.x, s.y, s.z).serialize_uncompressed(&mut repr[..]).unwrap();
    G2Projective { repr }
}

impl Curve for G2Projective {
    type Affine = G2Affine;

    closed spec fn wf(&self) -> bool {
        g2_projective_valid(self.repr@)
    }

    closed spec fn value(&self) -> Seq<u8> {
        g2_normalized(self.repr@)
    }

    open spec fn affine_wf(a: G2Affine) -> bool {
        a.wf()
    }

    open spec fn affine_value(a: G2Affine) -> Seq<u8> {
        a.value()
    }

    open spec fn identity_value() -> Seq<u8> {
        g2_identity()
    }

    open spec fn generator_value() -> Seq<u8> {
        g2_generator()
    }

    open spec fn sum(a: Seq<u8>, b: Seq<u8>) -> Seq<u8> {
        g2_sum(a, b)
    }

    open spec fn negation(a: Seq<u8>) -> Seq<u8> {
        g2_negation(a)
    }

    open spec fn scalar_product(a: Seq<u8>, s: nat) -> Seq<u8> {
        g2_scalar_product(a, s)
    }

    open spec fn in_subgroup(a: Seq<u8>) -> bool {
        g2_in_subgroup(a)
    }

    open spec fn encoding(a: Seq<u8>) -> Seq<u8> {
        g2_encoding(a)
    }

    open spec fn text(a: Seq<u8>) -> Seq<char> {
        g2_text(a)
    }

    open spec fn compressed_size() -> nat {
        96
    }

    open spec fn decoding(bytes: Seq<u8>) -> Result<Seq<u8>, SerializationError> {
        g2_decoding(bytes)
    }

    open spec fn inner_product(points: Seq<Seq<u8>>, scalars: Seq<nat>) -> Seq<u8> {
        g2_inner_product(points, scalars)
    }

    proof fn inner_product_unfold(points: Seq<Seq<u8>>, scalars: Seq<nat>) {
    }

    fn affine_generator() -> (r: G2Affine) {
        g2_affine_generator()
    }

    fn affine_identity() -> (r: G2Affine) {
        g2_affine_identity()
    }

    fn into_affine(&self) -> (r: G2Affine) {
        g2_into_affine(self)
    }

    fn from_affine(a: &G2Affine) -> (r: Self) {
        g2_from_affine(a)
    }

    fn plus(&self, rhs: &Self) -> (r: Self) {
        g2_plus(self, rhs)
    }

    fn plus_affine(&self, rhs: &G2Affine) -> (r: Self) {
        g2_plus_affine(self, rhs)
    }

    fn minus(&self, rhs: &Self) -> (r: Self) {
        g2_minus(self, rhs)
    }

    fn negated(&self) -> (r: Self) {
        g2_negated(self)
    }

    fn doubled(&self) -> (r: Self) {
        g2_doubled(self)
    }

    fn times(&self, s: &Scalar) -> (r: Self) {
        g2_times(self, s)
    }

    fn same(&self, other: &Self) -> (r: bool) {
        g2_same(self, other)
    }

    fn encode(a: &G2Affine) -> (r: Result<Vec<u8>, SerializationError>) {
        g2_encode(a)
    }

    fn decode(bytes: &[u8]) -> (r: Result<G2Affine, SerializationError>) {
        g2_decode(bytes)
    }

    fn decode_unchecked(bytes: &[u8]) -> (r: Result<G2Affine, SerializationError>) {
        g2_decode_unchecked(bytes)
    }

    fn affine_text(a: &G2Affine) -> (r: String) {
        g2_affine_text(a)
    }

    fn normalize_batch(v: &Vec<Self>) -> (r: Vec<G2Affine>) {
        g2_normalize_batch(v)
    }

    fn msm_unchecked(bases: &Vec<G2Affine>, scalars: &Vec<Scalar>) -> (r: Self) {
        let r = g2_msm_unchecked(bases, scalars);
        proof {
            assert(Seq::new(bases@.len(), |i: int| Self::affine_value(bases@[i])) =~= Seq::new(
                bases@.len(),
                |i: int| bases@[i].value(),
            ));
        }
        r
    }
}

} // verus!
