use ark_algebra_py::field::Scalar;
use ark_algebra_py::g2::G2;
use ark_algebra_py::point::InputError;
use ark_algebra_py::utils::SerializationError;

#[test]
fn g2_identity_is_neutral() {
    let g = G2::generator();
    let sum = g.add(G2::identity());
    assert!(sum.equals(g));
    assert!(G2::identity().add(g).equals(g));
    assert!(G2::identity().add(G2::identity()).equals(G2::identity()));
    assert!(!g.equals(G2::identity()));
}

#[test]
fn g2_point_plus_inverse_is_identity() {
    let g = G2::generator();
    assert!(g.add(g.neg()).equals(G2::identity()));
    assert!(g.neg().add(g).equals(G2::identity()));
    assert!(g.sub(g).equals(G2::identity()));
    let p = g.double();
    assert!(p.add(p.neg()).equals(G2::identity()));
    assert!(p.sub(p).equals(G2::identity()));
    assert!(p.sub(g).equals(g));
    assert!(g.sub(p).equals(g.neg()));
}

#[test]
fn g2_double_is_self_plus_self() {
    let g = G2::generator();
    assert!(g.double().equals(g.add(g)));
    let p = g.double();
    assert!(p.double().equals(p.add(p)));
    assert!(!g.double().equals(g));
    assert!(g.mul(&Scalar::from_i128(2)).equals(g.double()));
    assert!(g.mul(&Scalar::from_i128(4)).equals(p.double()));
    assert!(g.mul(&Scalar::zero()).equals(G2::identity()));
    assert!(p.mul(&Scalar::from_i128(-1)).equals(p.neg()));
}

#[test]
fn g2_representation_round_trip() {
    let g = G2::generator();
    assert!(g.as_affine().is_some());
    assert!(g.as_point().is_none());
    let p = G2::Point(g.to_group());
    assert!(p.as_point().is_some());
    assert!(p.as_affine().is_none());
    assert!(p.equals(g));
    let q = G2::Affine(p.to_affine());
    assert_eq!(q.to_compressed_bytes().unwrap(), g.to_compressed_bytes().unwrap());
    let d = g.double();
    let back = G2::Affine(G2::Point(d.to_group()).to_affine());
    assert!(back.equals(d));
    assert_eq!(
        G2::Affine(back.to_affine()).to_compressed_bytes().unwrap(),
        G2::Affine(d.to_affine()).to_compressed_bytes().unwrap()
    );
}

#[test]
fn g2_compressed_round_trip() {
    let g = G2::generator();
    let p = g.mul(&Scalar::from_i128(12345));
    for x in [g, p, G2::identity(), p.neg()] {
        let bytes = x.to_compressed_bytes().unwrap();
        assert_eq!(bytes.len(), 96);
        let back = G2::from_compressed_bytes(&bytes).unwrap();
        assert!(back.equals(x));
        assert!(back.as_affine().is_some());
        let unchecked = G2::from_compressed_bytes_unchecked(&bytes).unwrap();
        assert!(unchecked.equals(x));
    }
    assert_ne!(g.to_compressed_bytes().unwrap(), p.to_compressed_bytes().unwrap());
}

#[test]
fn g2_malformed_bytes_are_refused() {
    assert_eq!(
        G2::from_compressed_bytes(&[0u8; 96]).err(),
        Some(SerializationError::UnexpectedFlags)
    );
    assert_eq!(
        G2::from_compressed_bytes(&[0xffu8; 3]).err(),
        Some(SerializationError::InvalidData)
    );
    let mut bytes = [0xffu8; 96];
    bytes[0] = 0x9f;
    assert_eq!(G2::from_compressed_bytes(&bytes).err(), Some(SerializationError::InvalidData));
    assert_eq!(
        G2::from_compressed_bytes_unchecked(&bytes).err(),
        Some(SerializationError::InvalidData)
    );
}

#[test]
fn g2_msm_of_two() {
    let g = G2::generator();
    let p1 = g.mul(&Scalar::from_i128(3));
    let p2 = G2::Affine(g.double().to_affine());
    let s1 = Scalar::from_i128(5);
    let s2 = Scalar::from_i128(-7);
    let r = G2::msm(vec![p1, p2], vec![s1, s2]).unwrap();
    assert!(r.equals(p1.mul(&s1).add(p2.mul(&s2))));
    assert!(r.equals(g.mul(&Scalar::from_i128(1))));
}

#[test]
fn g2_msm_mixed_forms_keep_their_order() {
    let g = G2::generator();
    let points = vec![
        g.double(),
        g,
        g.mul(&Scalar::from_i128(3)),
        G2::identity(),
        g.mul(&Scalar::from_i128(4)),
    ];
    let scalars: Vec<Scalar> = [1i128, 10, 100, 1000, 10000].iter().map(|k| Scalar::from_i128(*k)).collect();
    let r = G2::msm(points, scalars).unwrap();
    assert!(r.equals(g.mul(&Scalar::from_i128(2 + 10 + 300 + 40000))));
    assert!(G2::msm(Vec::new(), Vec::new()).unwrap().equals(G2::identity()));
}

#[test]
fn g2_msm_refuses_different_lengths() {
    let g = G2::generator();
    assert_eq!(G2::msm(vec![g, g], vec![Scalar::one()]).err(), Some(InputError::LengthMismatch));
    assert_eq!(G2::msm(vec![g], vec![Scalar::one(), Scalar::one()]).err(), Some(InputError::LengthMismatch));
}

#[test]
fn g2_text_shows_the_affine_coordinates() {
    assert_eq!(G2::identity().to_text(), "infinity");
    let expected = "(QuadExtField(352701069587466618187139116011060144890029952792775240219908644239793785735715026873347600343865175952761926303160 + 3059144344244213709971259814753781636986470325476647558659373206291635324768958432433509563104347017837885763365758 * u), QuadExtField(1985150602287291935568054521177171638300868978215655730859378665066344726373823718423869104263333984641494340347905 + 927553665492332455747201965776037880757740193453592970025027978793976877002675564980949289727957565575433344219582 * u))";
    assert_eq!(G2::generator().to_text(), expected);
    assert_eq!(G2::Point(G2::generator().to_group()).to_text(), expected);
}
