use ark_algebra_py::field::Scalar;
use ark_algebra_py::g1::G1;
use ark_algebra_py::g2::G2;
use ark_algebra_py::pairing::{Pairing, GT};
use ark_algebra_py::point::InputError;

#[test]
fn pairing_is_bilinear() {
    let p = G1::generator();
    let q = G2::generator();
    let a = Scalar::from_i128(3);
    let b = Scalar::from_i128(5);
    let lhs = Pairing::pairing(p.mul(&a), q.mul(&b));
    let base = Pairing::pairing(p, q);
    assert!(lhs.equals(base.pow(15)));
    assert!(lhs.equals(base.pow_scalar(&a.mul(&b))));
    assert!(!lhs.equals(base));
    assert!(Pairing::pairing(p.mul(&a), q).equals(Pairing::pairing(p, q.mul(&a))));
}

#[test]
fn pairing_with_identity_is_one() {
    assert!(Pairing::pairing(G1::identity(), G2::generator()).equals(GT::one()));
    assert!(Pairing::pairing(G1::generator(), G2::identity()).equals(GT::one()));
}

#[test]
fn multi_pairing_is_product_of_pairings() {
    let p1 = G1::generator().mul(&Scalar::from_i128(2));
    let p2 = G1::generator().mul(&Scalar::from_i128(7));
    let q1 = G2::generator().mul(&Scalar::from_i128(11));
    let q2 = G2::Affine(G2::generator().double().to_affine());
    let both = Pairing::multi_pairing(vec![p1, p2], vec![q1, q2]).unwrap();
    let product = Pairing::pairing(p1, q1).mul(Pairing::pairing(p2, q2));
    assert!(both.equals(product));
    assert!(both.equals(GT::generator().pow(2 * 11 + 7 * 2)));
    let single = Pairing::multi_pairing(vec![p1], vec![q1]).unwrap();
    assert!(single.equals(Pairing::pairing(p1, q1)));
    assert!(Pairing::multi_pairing(Vec::new(), Vec::new()).unwrap().equals(GT::one()));
}

#[test]
fn multi_pairing_refuses_different_lengths() {
    let p = G1::generator();
    let q = G2::generator();
    assert_eq!(Pairing::multi_pairing(vec![p, p], vec![q]).err(), Some(InputError::LengthMismatch));
    assert_eq!(Pairing::multi_pairing(vec![], vec![q]).err(), Some(InputError::LengthMismatch));
}

#[test]
fn target_group_operations() {
    let g = GT::generator();
    assert!(g.equals(Pairing::pairing(G1::generator(), G2::generator())));
    assert!(!g.equals(GT::one()));
    assert!(g.mul(GT::one()).equals(g));
    assert!(g.mul(g.inverse()).equals(GT::one()));
    assert!(g.square().equals(g.mul(g)));
    assert!(g.pow(2).equals(g.square()));
    assert!(g.pow(-1).equals(g.inverse()));
    assert!(g.pow(0).equals(GT::one()));
    assert!(g.pow(3).equals(g.mul(g).mul(g)));
    assert!(GT::one().inverse().equals(GT::one()));
}

#[test]
fn text_of_the_identity_of_the_target_group() {
    let zero = "QuadExtField( +  * u)";
    let one = "QuadExtField(1 +  * u)";
    let expected = format!(
        "QuadExtField(CubicExtField({one}, {zero}, {zero}) + CubicExtField({zero}, {zero}, {zero}) * u)"
    );
    assert_eq!(GT::one().to_text(), expected);
    assert_ne!(GT::generator().to_text(), expected);
}
