use ark_algebra_py::field::Scalar;
use ark_algebra_py::g1::G1;
use ark_algebra_py::point::InputError;
use ark_algebra_py::utils::SerializationError;

#[test]
fn g1_identity_is_neutral() {
    let g = G1::generator();
    let sum = g.add(G1::identity());
    assert!(sum.equals(g));
    assert!(G1::identity().add(g).equals(g));
    assert!(G1::identity().add(G1::identity()).equals(G1::identity()));
    assert!(!g.equals(G1::identity()));
}

#[test]
fn g1_point_plus_inverse_is_identity() {
    let g = G1::generator();
    assert!(g.add(g.neg()).equals(G1::identity()));
    assert!(g.neg().add(g).equals(G1::identity()));
    assert!(g.sub(g).equals(G1::identity()));
    let p = g.double();
    assert!(p.add(p.neg()).equals(G1::identity()));
    assert!(p.sub(p).equals(G1::identity()));
    assert!(p.sub(g).equals(g));
    assert!(g.sub(p).equals(g.neg()));
}

#[test]
fn g1_double_is_self_plus_self() {
    let g = G1::generator();
    assert!(g.double().equals(g.add(g)));
    let p = g.double();
    assert!(p.double().equals(p.add(p)));
    assert!(!g.double().equals(g));
    assert!(g.mul(&Scalar::from_i128(2)).equals(g.double()));
    assert!(g.mul(&Scalar::from_i128(4)).equals(p.double()));
    assert!(g.mul(&Scalar::zero()).equals(G1::identity()));
    assert!(p.mul(&Scalar::from_i128(-1)).equals(p.neg()));
}

#[test]
fn g1_representation_round_trip() {
    let g = G1::generator();
    assert!(g.as_affine().is_some());
    assert!(g.as_point().is_none());
    let p = G1::Point(g.to_group());
    assert!(p.as_point().is_some());
    assert!(p.as_affine().is_none());
    assert!(p.equals(g));
    let q = G1::Affine(p.to_affine());
    assert_eq!(q.to_compressed_bytes().unwrap(), g.to_compressed_bytes().unwrap());
    let d = g.double();
    let back = G1::Affine(G1::Point(d.to_group()).to_affine());
    assert!(back.equals(d));
    assert_eq!(
        G1::Affine(back.to_affine()).to_compressed_bytes().unwrap(),
        G1::Affine(d.to_affine()).to_compressed_bytes().unwrap()
    );
}

#[test]
fn g1_compressed_round_trip() {
    let g = G1::generator();
    let p = g.mul(&Scalar::from_i128(12345));
    for x in [g, p, G1::identity(), p.neg()] {
        let bytes = x.to_compressed_bytes().unwrap();
        assert_eq!(bytes.len(), 48);
        let back = G1::from_compressed_bytes(&bytes).unwrap();
        assert!(back.equals(x));
        assert!(back.as_affine().is_some());
        let unchecked = G1::from_compressed_bytes_unchecked(&bytes).unwrap();
        assert!(unchecked.equals(x));
    }
    assert_ne!(g.to_compressed_bytes().unwrap(), p.to_compressed_bytes().unwrap());
}

#[test]
fn g1_malformed_bytes_are_refused() {
    assert_eq!(
        G1::from_compressed_bytes(&[0u8; 48]).err(),
        Some(SerializationError::UnexpectedFlags)
    );
    assert_eq!(
        G1::from_compressed_bytes(&[0xffu8; 3]).err(),
        Some(SerializationError::InvalidData)
    );
    let mut bytes = [0xffu8; 48];
    bytes[0] = 0x9f;
    assert_eq!(G1::from_compressed_bytes(&bytes).err(), Some(SerializationError::InvalidData));
    assert_eq!(
        G1::from_compressed_bytes_unchecked(&bytes).err(),
        Some(SerializationError::InvalidData)
    );
}

#[test]
fn g1_msm_of_two() {
    let g = G1::generator();
    let p1 = g.mul(&Scalar::from_i128(3));
    let p2 = G1::Affine(g.double().to_affine());
    let s1 = Scalar::from_i128(5);
    let s2 = Scalar::from_i128(-7);
    let r = G1::msm(vec![p1, p2], vec![s1, s2]).unwrap();
    assert!(r.equals(p1.mul(&s1).add(p2.mul(&s2))));
    assert!(r.equals(g.mul(&Scalar::from_i128(1))));
}

#[test]
fn g1_msm_mixed_forms_keep_their_order() {
    let g = G1::generator();
    let points = vec![
        g.double(),
        g,
        g.mul(&Scalar::from_i128(3)),
        G1::identity(),
        g.mul(&Scalar::from_i128(4)),
    ];
    let scalars: Vec<Scalar> = [1i128, 10, 100, 1000, 10000].iter().map(|k| Scalar::from_i128(*k)).collect();
    let r = G1::msm(points, scalars).unwrap();
    assert!(r.equals(g.mul(&Scalar::from_i128(2 + 10 + 300 + 40000))));
    assert!(G1::msm(Vec::new(), Vec::new()).unwrap().equals(G1::identity()));
}

#[test]
fn g1_msm_refuses_different_lengths() {
    let g = G1::generator();
    assert_eq!(G1::msm(vec![g, g], vec![Scalar::one()]).err(), Some(InputError::LengthMismatch));
    assert_eq!(G1::msm(vec![g], vec![Scalar::one(), Scalar::one()]).err(), Some(InputError::LengthMismatch));
}

#[test]
fn g1_text_shows_the_affine_coordinates() {
    assert_eq!(G1::identity().to_text(), "infinity");
    assert_eq!(G1::generator().sub(G1::generator()).to_text(), "infinity");
    let expected = "(3685416753713387016781088315183077757961620795782546409894578378688607592378376318836054947676345821548104185464507, 1339506544944476473020471379941921221584933875938349620426543736416511423956333506472724655353366534992391756441569)";
    assert_eq!(G1::generator().to_text(), expected);
    assert_eq!(G1::Point(G1::generator().to_group()).to_text(), expected);
}
