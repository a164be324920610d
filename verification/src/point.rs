//! Points of a curve group in two interchangeable representations.
//!
//! A point is stored either in affine form, which is canonical, or in
//! projective form, which is cheaper to compute with. What a point *is* does
//! not depend on the form: it is the canonical affine coordinates, and every
//! contract here speaks of those.

use vstd::prelude::*;
use crate::field::{Scalar, all_wf};
use crate::utils::SerializationError;

verus! {

/// Two sequences that must pair up did not have the same length.
#[derive(Clone, Copy, Debug, PartialEq, Eq, Structural)]
pub enum InputError {
    LengthMismatch,
}

/// The error with which checked decoding refuses a byte string: the error of
/// decoding where that fails, and invalid data where the point decoded but
/// lies outside the subgroup.
pub open spec fn refusal(decoded: Result<Seq<u8>, SerializationError>) -> SerializationError {
    match decoded {
        Ok(_) => SerializationError::InvalidData,
        Err(e) => e,
    }
}

/// What a curve group must offer: the projective form is `Self`, the affine
/// form is `Affine`. The abstract value of either form is its canonical
/// affine coordinates as a byte string.
pub trait Curve: Copy + Sized {
    type Affine: Copy;

    /// The projective coordinates are in range and lie on the curve.
    spec fn wf(&self) -> bool;

    /// The canonical affine coordinates of the point.
    spec fn value(&self) -> Seq<u8>;

    /// The affine coordinates are in range and lie on the curve.
    spec fn affine_wf(a: Self::Affine) -> bool;

    /// The affine coordinates as they are stored.
    spec fn affine_value(a: Self::Affine) -> Seq<u8>;

    /// The point at infinity.
    spec fn identity_value() -> Seq<u8>;

    /// The fixed generator of the prime-order subgroup.
    spec fn generator_value() -> Seq<u8>;

    /// The group sum of two points.
    spec fn sum(a: Seq<u8>, b: Seq<u8>) -> Seq<u8>;

    /// The group inverse of a point.
    spec fn negation(a: Seq<u8>) -> Seq<u8>;

    /// The point `s * a` for a scalar residue `s`.
    spec fn scalar_product(a: Seq<u8>, s: nat) -> Seq<u8>;

    /// The point lies in the subgroup of prime order.
    spec fn in_subgroup(a: Seq<u8>) -> bool;

    /// The compressed encoding of a point.
    spec fn encoding(a: Seq<u8>) -> Seq<u8>;

    /// The number of bytes of a compressed encoding.
    spec fn compressed_size() -> nat;

    /// The text of a point.
    spec fn text(a: Seq<u8>) -> Seq<char>;

    /// What decoding without the subgroup test makes of a byte string.
    spec fn decoding(bytes: Seq<u8>) -> Result<Seq<u8>, SerializationError>;

    /// The sum of `scalars[i] * points[i]` over all positions.
    spec fn inner_product(points: Seq<Seq<u8>>, scalars: Seq<nat>) -> Seq<u8>;

    /// How the inner product is built up: the identity for no terms, the
    /// single product for one term, and otherwise the inner product of all
    /// terms but the last plus the last product.
    proof fn inner_product_unfold(points: Seq<Seq<u8>>, scalars: Seq<nat>)
        requires
            points.len() == scalars.len(),
        ensures
            points.len() == 0 ==> Self::inner_product(points, scalars) == Self::identity_value(),
            points.len() == 1 ==> Self::inner_product(points, scalars) == Self::scalar_product(
                points[0],
                scalars[0],
            ),
            points.len() > 1 ==> Self::inner_product(points, scalars) == Self::sum(
                Self::inner_product(points.drop_last(), scalars.drop_last()),
                Self::scalar_product(points.last(), scalars.last()),
            ),
    ;

    /// The generator in affine form.
    fn affine_generator() -> (r: Self::Affine)
        ensures
            Self::affine_wf(r),
            Self::affine_value(r) == Self::generator_value(),
            Self::in_subgroup(Self::affine_value(r)),
    ;

    /// The point at infinity in affine form.
    fn affine_identity() -> (r: Self::Affine)
        ensures
            Self::affine_wf(r),
            Self::affine_value(r) == Self::identity_value(),
            Self::in_subgroup(Self::affine_value(r)),
    ;

    /// The affine form of a projective point.
    fn into_affine(&self) -> (r: Self::Affine)
        requires
            self.wf(),
        ensures
            Self::affine_wf(r),
            Self::affine_value(r) == self.value(),
    ;

    /// The projective form of an affine point.
    fn from_affine(a: &Self::Affine) -> (r: Self)
        requires
            Self::affine_wf(*a),
        ensures
            r.wf(),
            r.value() == Self::affine_value(*a),
    ;

    /// The sum of two projective points.
    fn plus(&self, rhs: &Self) -> (r: Self)
        requires
            self.wf(),
            rhs.wf(),
        ensures
            r.wf(),
            r.value() == Self::sum(self.value(), rhs.value()),
            rhs.value() == Self::identity_value() ==> r.value() == self.value(),
            rhs.value() == Self::negation(self.value()) ==> r.value() == Self::identity_value(),
    ;

    /// The sum of a projective and an affine point.
    fn plus_affine(&self, rhs: &Self::Affine) -> (r: Self)
        requires
            self.wf(),
            Self::affine_wf(*rhs),
        ensures
            r.wf(),
            r.value() == Self::sum(self.value(), Self::affine_value(*rhs)),
            Self::affine_value(*rhs) == Self::identity_value() ==> r.value() == self.value(),
            Self::affine_value(*rhs) == Self::negation(self.value()) ==> r.value()
                == Self::identity_value(),
    ;

    /// The difference of two projective points.
    fn minus(&self, rhs: &Self) -> (r: Self)
        requires
            self.wf(),
            rhs.wf(),
        ensures
            r.wf(),
            r.value() == Self::sum(self.value(), Self::negation(rhs.value())),
            rhs.value() == self.value() ==> r.value() == Self::identity_value(),
    ;

    /// The inverse of a projective point.
    fn negated(&self) -> (r: Self)
        requires
            self.wf(),
        ensures
            r.wf(),
            r.value() == Self::negation(self.value()),
    ;

    /// A projective point added to itself.
    fn doubled(&self) -> (r: Self)
        requires
            self.wf(),
        ensures
            r.wf(),
            r.value() == Self::sum(self.value(), self.value()),
    ;

    /// A projective point multiplied by a scalar.
    fn times(&self, s: &Scalar) -> (r: Self)
        requires
            self.wf(),
            s.wf(),
        ensures
            r.wf(),
            r.value() == Self::scalar_product(self.value(), s@),
    ;

    /// Whether two projective points are the same point.
    fn same(&self, other: &Self) -> (r: bool)
        requires
            self.wf(),
            other.wf(),
        ensures
            r == (self.value() == other.value()),
    ;

    /// The compressed encoding of an affine point.
    fn encode(a: &Self::Affine) -> (r: Result<Vec<u8>, SerializationError>)
        requires
            Self::affine_wf(*a),
        ensures
            r is Ok,
            r->Ok_0@ == Self::encoding(Self::affine_value(*a)),
            r->Ok_0@.len() == Self::compressed_size(),
            Self::decoding(r->Ok_0@) is Ok && Self::decoding(r->Ok_0@)->Ok_0 == Self::affine_value(
                *a,
            ),
    ;

    /// Decodes a compressed point and tests that it lies in the subgroup.
    fn decode(bytes: &[u8]) -> (r: Result<Self::Affine, SerializationError>)
        ensures
            r is Ok <==> (Self::decoding(bytes@) is Ok && Self::in_subgroup(
                Self::decoding(bytes@)->Ok_0,
            )),
            r is Ok ==> Self::affine_wf(r->Ok_0) && Self::affine_value(r->Ok_0) == Self::decoding(
                bytes@,
            )->Ok_0,
            r is Err ==> r->Err_0 == refusal(Self::decoding(bytes@)),
    ;

    /// Decodes a compressed point without the subgroup test.
    fn decode_unchecked(bytes: &[u8]) -> (r: Result<Self::Affine, SerializationError>)
        ensures
            r is Ok <==> Self::decoding(bytes@) is Ok,
            r is Ok ==> Self::affine_wf(r->Ok_0) && Self::affine_value(r->Ok_0) == Self::decoding(
                bytes@,
            )->Ok_0,
            r is Err ==> r->Err_0 == Self::decoding(bytes@)->Err_0,
    ;

    /// The text of an affine point.
    fn affine_text(a: &Self::Affine) -> (r: String)
        requires
            Self::affine_wf(*a),
        ensures
            r@ == Self::text(Self::affine_value(*a)),
    ;

    /// The affine forms of many projective points, found together.
    fn normalize_batch(v: &Vec<Self>) -> (r: Vec<Self::Affine>)
        requires
            forall|i: int| 0 <= i < v@.len() ==> (#[trigger] v@[i]).wf(),
        ensures
            r@.len() == v@.len(),
            forall|i: int|
                0 <= i < r@.len() ==> Self::affine_wf(#[trigger] r@[i]) && Self::affine_value(r@[i])
                    == v@[i].value(),
    ;

    /// The inner product of scalars and affine points of one length.
    fn msm_unchecked(bases: &Vec<Self::Affine>, scalars: &Vec<Scalar>) -> (r: Self)
        requires
            bases@.len() == scalars@.len(),
            forall|i: int| 0 <= i < bases@.len() ==> Self::affine_wf(#[trigger] bases@[i]),
            all_wf(scalars@),
        ensures
            r.wf(),
            r.value() == Self::inner_product(
                Seq::new(bases@.len(), |i: int| Self::affine_value(bases@[i])),
                Seq::new(scalars@.len(), |i: int| scalars@[i]@),
            ),
    ;
}

/// A point of the group `G`, in projective or in affine form.
#[derive(Clone, Copy)]
pub enum Point<G: Curve> {
    Point(G),
    Affine(G::Affine),
}

/// The values of a sequence of points.
pub open spec fn point_values<G: Curve>(points: Seq<Point<G>>) -> Seq<Seq<u8>> {
    Seq::new(points.len(), |i: int| points[i].value())
}

/// The residues of a sequence of scalars.
pub open spec fn scalar_values(scalars: Seq<Scalar>) -> Seq<nat> {
    Seq::new(scalars.len(), |i: int| scalars[i]@)
}

/// Every point of the sequence is well formed.
pub open spec fn all_points_wf<G: Curve>(points: Seq<Point<G>>) -> bool {
    forall|i: int| 0 <= i < points.len() ==> (#[trigger] points[i]).wf()
}

impl<G: Curve> Point<G> {
    /// The stored coordinates are valid for the form they are stored in.
    pub open spec fn wf(&self) -> bool {
        match *self {
            Point::Point(p) => p.wf(),
            Point::Affine(a) => G::affine_wf(a),
        }
    }

    /// The point itself: its canonical affine coordinates, whatever the form.
    pub open spec fn value(&self) -> Seq<u8> {
        match *self {
            Point::Point(p) => p.value(),
            Point::Affine(a) => G::affine_value(a),
        }
    }

    /// The generator of the group, in affine form.
    pub fn generator() -> (r: Self)
        ensures
            r.wf(),
            r is Affine,
            r.value() == G::generator_value(),
            G::in_subgroup(r.value()),
    {
        Point::Affine(G::affine_generator())
    }

    /// The identity of the group, in affine form.
    pub fn identity() -> (r: Self)
        ensures
            r.wf(),
            r is Affine,
            r.value() == G::identity_value(),
            G::in_subgroup(r.value()),
    {
        Point::Affine(G::affine_identity())
    }

    /// The affine coordinates, if the point is stored in affine form.
    pub fn as_affine(&self) -> (r: Option<&G::Affine>)
        ensures
            r is Some <==> *self is Affine,
            r is Some ==> *r->0 == self->Affine_0,
    {
        match self {
            Point::Affine(p) => Some(p),
            Point::Point(_) => None,
        }
    }

    /// The affine coordinates of the point, computed if need be.
    pub fn to_affine(&self) -> (r: G::Affine)
        requires
            self.wf(),
        ensures
            G::affine_wf(r),
            G::affine_value(r) == self.value(),
            *self is Affine ==> r == self->Affine_0,
    {
        match self {
            Point::Affine(p) => *p,
            Point::Point(p) => p.into_affine(),
        }
    }

    /// The point in projective form.
    pub fn to_group(&self) -> (r: G)
        requires
            self.wf(),
        ensures
            r.wf(),
            r.value() == self.value(),
            *self is Point ==> r == self->Point_0,
    {
        match self {
            Point::Affine(p) => G::from_affine(p),
            Point::Point(p) => *p,
        }
    }

    /// The projective coordinates, if the point is stored in projective form.
    pub fn as_point(&self) -> (r: Option<&G>)
        ensures
            r is Some <==> *self is Point,
            r is Some ==> *r->0 == self->Point_0,
    {
        match self {
            Point::Point(p) => Some(p),
            Point::Affine(_) => None,
        }
    }

    /// The sum of two points. Adding the identity changes nothing, and a
    /// point plus its inverse is the identity.
    pub fn add(&self, rhs: Self) -> (r: Self)
        requires
            self.wf(),
            rhs.wf(),
        ensures
            r.wf(),
            r is Point,
            r.value() == G::sum(self.value(), rhs.value()),
            rhs.value() == G::identity_value() ==> r.value() == self.value(),
            rhs.value() == G::negation(self.value()) ==> r.value() == G::identity_value(),
    {
        let result = match (*self, rhs) {
            (Point::Point(lhs), Point::Point(rhs)) => lhs.plus(&rhs),
            (Point::Point(lhs), Point::Affine(rhs)) => lhs.plus_affine(&rhs),
            (Point::Affine(lhs), Point::Point(rhs)) => G::from_affine(&lhs).plus(&rhs),
            (Point::Affine(lhs), Point::Affine(rhs)) => G::from_affine(&lhs).plus_affine(&rhs),
        };
        Point::Point(result)
    }

    /// The difference of two points. A point minus itself is the identity.
    pub fn sub(&self, rhs: Self) -> (r: Self)
        requires
            self.wf(),
            rhs.wf(),
        ensures
            r.wf(),
            r is Point,
            r.value() == G::sum(self.value(), G::negation(rhs.value())),
            rhs.value() == self.value() ==> r.value() == G::identity_value(),
    {
        let result = match (*self, rhs) {
            (Point::Point(lhs), Point::Point(rhs)) => lhs.minus(&rhs),
            (Point::Point(lhs), Point::Affine(rhs)) => lhs.minus(&G::from_affine(&rhs)),
            (Point::Affine(lhs), Point::Point(rhs)) => G::from_affine(&lhs).minus(&rhs),
            (Point::Affine(lhs), Point::Affine(rhs)) => G::from_affine(&lhs).minus(
                &G::from_affine(&rhs),
            ),
        };
        Point::Point(result)
    }

    /// The point multiplied by a scalar.
    pub fn mul(&self, rhs: &Scalar) -> (r: Self)
        requires
            self.wf(),
            rhs.wf(),
        ensures
            r.wf(),
            r is Point,
            r.value() == G::scalar_product(self.value(), rhs@),
    {
        let result = match *self {
            Point::Point(lhs) => lhs.times(rhs),
            Point::Affine(lhs) => G::from_affine(&lhs).times(rhs),
        };
        Point::Point(result)
    }

    /// The inverse of the point.
    pub fn neg(&self) -> (r: Self)
        requires
            self.wf(),
        ensures
            r.wf(),
            r is Point,
            r.value() == G::negation(self.value()),
    {
        match *self {
            Point::Point(lhs) => Point::Point(lhs.negated()),
            Point::Affine(lhs) => Point::Point(G::from_affine(&lhs).negated()),
        }
    }

    /// The point added to itself.
    pub fn double(&self) -> (r: Self)
        requires
            self.wf(),
        ensures
            r.wf(),
            r is Point,
            r.value() == G::sum(self.value(), self.value()),
    {
        match *self {
            Point::Point(lhs) => Point::Point(lhs.doubled()),
            Point::Affine(lhs) => Point::Point(G::from_affine(&lhs).doubled()),
        }
    }

    /// Whether two points are the same, whatever form each is stored in.
    pub fn equals(&self, other: Self) -> (r: bool)
        requires
            self.wf(),
            other.wf(),
        ensures
            r == (self.value() == other.value()),
    {
        let other = other.to_group();
        let this = self.to_group();
        this.same(&other)
    }

    /// The text of the point, which is that of its affine form.
    pub fn to_text(&self) -> (r: String)
        requires
            self.wf(),
        ensures
            r@ == G::text(self.value()),
    {
        let a = self.to_affine();
        G::affine_text(&a)
    }

    /// The compressed encoding of the point. Decoding it gives the point back.
    pub fn to_compressed_bytes(&self) -> (r: Result<Vec<u8>, SerializationError>)
        requires
            self.wf(),
        ensures
            r is Ok,
            r->Ok_0@ == G::encoding(self.value()),
            r->Ok_0@.len() == G::compressed_size(),
            G::decoding(r->Ok_0@) is Ok && G::decoding(r->Ok_0@)->Ok_0 == self.value(),
    {
        let a = self.to_affine();
        G::encode(&a)
    }

    /// Decodes a compressed point and accepts it only if it lies in the
    /// subgroup of prime order. A point that decodes but lies outside the
    /// subgroup is refused as invalid data.
    pub fn from_compressed_bytes(bytes: &[u8]) -> (r: Result<Self, SerializationError>)
        ensures
            r is Ok <==> (G::decoding(bytes@) is Ok && G::in_subgroup(G::decoding(bytes@)->Ok_0)),
            r is Ok ==> r->Ok_0.wf() && r->Ok_0 is Affine && r->Ok_0.value() == G::decoding(
                bytes@,
            )->Ok_0 && G::in_subgroup(r->Ok_0.value()),
            r is Err ==> r->Err_0 == refusal(G::decoding(bytes@)),
    {
        match G::decode(bytes) {
            Ok(g) => Ok(Point::Affine(g)),
            Err(e) => Err(e),
        }
    }

    /// Decodes a compressed point without the subgroup test.
    pub fn from_compressed_bytes_unchecked(bytes: &[u8]) -> (r: Result<Self, SerializationError>)
        ensures
            r is Ok <==> G::decoding(bytes@) is Ok,
            r is Ok ==> r->Ok_0.wf() && r->Ok_0 is Affine && r->Ok_0.value() == G::decoding(
                bytes@,
            )->Ok_0,
            r is Err ==> r->Err_0 == G::decoding(bytes@)->Err_0,
    {
        match G::decode_unchecked(bytes) {
            Ok(g) => Ok(Point::Affine(g)),
            Err(e) => Err(e),
        }
    }

    /// The sum of `scalars[i] * points[i]`. Sequences of different lengths
    /// are refused. Points stored in projective form are first brought to
    /// affine form together, at the cost of one inversion for all of them.
    pub fn msm(points: Vec<Self>, scalars: Vec<Scalar>) -> (r: Result<Self, InputError>)
        requires
            all_points_wf(points@),
            all_wf(scalars@),
        ensures
            r is Err <==> points@.len() != scalars@.len(),
            r is Ok ==> r->Ok_0.wf() && r->Ok_0 is Point && r->Ok_0.value() == G::inner_product(
                point_values(points@),
                scalar_values(scalars@),
            ),
    {
        if points.len() != scalars.len() {
            return Err(InputError::LengthMismatch);
        }
        let n = points.len();
        let mut rest: Vec<G> = Vec::new();
        let mut i: usize = 0;
        while i < n
            invariant
                n == points@.len(),
                i <= n,
                all_points_wf(points@),
                rest@ == projective_among(points@, i as int),
            decreases n - i,
        {
            match points[i].as_point() {
                Some(p) => {
                    rest.push(*p);
                },
                None => {},
            }
            i += 1;
        }
        proof {
            lemma_projective_among_wf(points@, n as int);
        }
        let rest_affine = G::normalize_batch(&rest);
        let m = rest_affine.len();
        let mut bases: Vec<G::Affine> = Vec::new();
        let mut k: usize = 0;
        i = 0;
        while i < n
            invariant
                n == points@.len(),
                i <= n,
                all_points_wf(points@),
                rest@ == projective_among(points@, n as int),
                rest_affine@.len() == rest@.len(),
                m == rest_affine@.len(),
                forall|j: int|
                    0 <= j < rest_affine@.len() ==> G::affine_wf(#[trigger] rest_affine@[j])
                        && G::affine_value(rest_affine@[j]) == rest@[j].value(),
                k == projective_among(points@, i as int).len(),
                bases@.len() == i,
                forall|j: int|
                    0 <= j < i ==> G::affine_wf(#[trigger] bases@[j]) && G::affine_value(bases@[j])
                        == points@[j].value(),
            decreases n - i,
        {
            proof {
                lemma_projective_among_prefix(points@, i as int + 1, n as int);
            }
            match points[i] {
                Point::Affine(a) => {
                    bases.push(a);
                },
                Point::Point(p) => {
                    proof {
                        let upto = projective_among(points@, i as int + 1);
                        assert(upto == projective_among(points@, i as int).push(p));
                        assert(upto[k as int] == p);
                        assert(rest@[k as int] == p);
                        assert(k < m);
                    }
                    bases.push(rest_affine[k]);
                    k += 1;
                },
            }
            i += 1;
        }
        let result = G::msm_unchecked(&bases, &scalars);
        proof {
            assert(Seq::new(bases@.len(), |i: int| G::affine_value(bases@[i])) =~= point_values(
                points@,
            ));
            assert(Seq::new(scalars@.len(), |i: int| scalars@[i]@) =~= scalar_values(scalars@));
        }
        Ok(Point::Point(result))
    }
}

/// The points among the first `n` that are stored in projective form, in
/// their order.
pub open spec fn projective_among<G: Curve>(points: Seq<Point<G>>, n: int) -> Seq<G>
    decreases n,
{
    if n <= 0 {
        Seq::empty()
    } else {
        match points[n - 1] {
            Point::Point(p) => projective_among(points, n - 1).push(p),
            Point::Affine(_) => projective_among(points, n - 1),
        }
    }
}

/// The projective points among well-formed points are well formed.
pub proof fn lemma_projective_among_wf<G: Curve>(points: Seq<Point<G>>, n: int)
    requires
        all_points_wf(points),
        0 <= n <= points.len(),
    ensures
        forall|j: int|
            0 <= j < projective_among(points, n).len() ==> (#[trigger] projective_among(
                points,
                n,
            )[j]).wf(),
    decreases n,
{
    if n > 0 {
        lemma_projective_among_wf(points, n - 1);
        assert(points[n - 1].wf());
        let before = projective_among(points, n - 1);
        assert forall|j: int| 0 <= j < projective_among(points, n).len() implies (
        #[trigger] projective_among(points, n)[j]).wf() by {
            if j < before.len() {
                assert(before[j].wf());
            }
        }
    }
}

/// The projective points among the first `m` points begin the projective
/// points among the first `n`, for `m <= n`.
pub proof fn lemma_projective_among_prefix<G: Curve>(points: Seq<Point<G>>, m: int, n: int)
    requires
        0 <= m <= n <= points.len(),
    ensures
        projective_among(points, m).len() <= projective_among(points, n).len(),
        forall|j: int|
            0 <= j < projective_among(points, m).len() ==> projective_among(points, n)[j]
                == #[trigger] projective_among(points, m)[j],
    decreases n - m,
{
    if m < n {
        lemma_projective_among_prefix(points, m, n - 1);
    }
}

/// The inner product of two points with two scalars is the sum of the two
/// products.
pub proof fn lemma_inner_product_of_two<G: Curve>(p1: Seq<u8>, p2: Seq<u8>, s1: nat, s2: nat)
    ensures
        G::inner_product(seq![p1, p2], seq![s1, s2]) == G::sum(
            G::scalar_product(p1, s1),
            G::scalar_product(p2, s2),
        ),
{
    let points = seq![p1, p2];
    let scalars = seq![s1, s2];
    G::inner_product_unfold(points, scalars);
    G::inner_product_unfold(points.drop_last(), scalars.drop_last());
    assert(points.drop_last() =~= seq![p1]);
    assert(scalars.drop_last() =~= seq![s1]);
}

/// Changing the form in which a point is stored does not change the point:
/// where `group` is the projective form of `p`, the affine form `via_group`
/// of `group` and the affine form `direct` of `p` hold the same coordinates.
pub proof fn lemma_representation_round_trip<G: Curve>(
    p: Point<G>,
    group: G,
    via_group: G::Affine,
    direct: G::Affine,
)
    requires
        group.value() == p.value(),
        G::affine_value(via_group) == Point::<G>::Point(group).value(),
        G::affine_value(direct) == p.value(),
    ensures
        G::affine_value(via_group) == G::affine_value(direct),
{
}

} // verus!
