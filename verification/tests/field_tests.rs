use ark_algebra_py::field::Scalar;
use ark_algebra_py::utils::{ArithmeticError, SerializationError};

const MODULUS_MINUS_5: &str =
    "52435875175126190479447740508185965837690552500527637822603658699938581184508";

#[test]
fn negative_five_round_trips_and_prints_its_residue() {
    let x = Scalar::from_i128(-5);
    let bytes = x.to_le_bytes().unwrap();
    let back = Scalar::from_le_bytes(bytes).unwrap();
    assert!(back.equals(&x));
    assert_eq!(back, x);
    assert_eq!(x.to_text(), MODULUS_MINUS_5);
}

#[test]
fn small_values_have_small_encodings() {
    let bytes = Scalar::from_i128(258).to_le_bytes().unwrap();
    let mut expected = [0u8; 32];
    expected[0] = 2;
    expected[1] = 1;
    assert_eq!(bytes, expected);
    assert!(Scalar::from_le_bytes(expected).unwrap().equals(&Scalar::from_i128(258)));
}

#[test]
fn zero_and_one() {
    assert!(Scalar::zero().is_zero());
    assert!(!Scalar::zero().is_one());
    assert!(Scalar::one().is_one());
    assert!(Scalar::from_i128(0).equals(&Scalar::zero()));
    assert!(Scalar::from_i128(1).equals(&Scalar::one()));
    assert_eq!(Scalar::zero().to_text(), "0");
    assert_eq!(Scalar::one().to_text(), "1");
    assert_eq!(Scalar::from_i128(1234567890).to_text(), "1234567890");
}

#[test]
fn ring_operations() {
    let a = Scalar::from_i128(7);
    let b = Scalar::from_i128(5);
    assert!(a.add(&b).equals(&Scalar::from_i128(12)));
    assert!(a.sub(&b).equals(&Scalar::from_i128(2)));
    assert!(b.sub(&a).equals(&Scalar::from_i128(-2)));
    assert!(a.mul(&b).equals(&Scalar::from_i128(35)));
    assert!(a.neg().equals(&Scalar::from_i128(-7)));
    assert!(a.neg().add(&a).is_zero());
    assert!(a.square().equals(&Scalar::from_i128(49)));
    assert!(a.double().equals(&Scalar::from_i128(14)));
    assert!(Scalar::from_i128(2).pow(10).equals(&Scalar::from_i128(1024)));
    assert!(a.pow(0).is_one());
    assert!(Scalar::zero().pow(0).is_one());
}

#[test]
fn inverse_of_zero_is_zero() {
    assert!(Scalar::zero().inverse().is_zero());
}

#[test]
fn inverse_times_element_is_one() {
    let a = Scalar::from_i128(123456789);
    assert!(a.inverse().mul(&a).is_one());
    assert!(!a.inverse().equals(&a));
}

#[test]
fn division_by_zero_is_an_error() {
    let a = Scalar::from_i128(3);
    assert_eq!(a.divide(&Scalar::zero()), Err(ArithmeticError::DivisionByZero));
    assert_eq!(Scalar::zero().divide(&Scalar::zero()), Err(ArithmeticError::DivisionByZero));
}

#[test]
fn quotient_times_divisor_is_dividend() {
    let a = Scalar::from_i128(-17);
    let b = Scalar::from_i128(9001);
    let q = a.divide(&b).unwrap();
    assert!(q.mul(&b).equals(&a));
    assert!(Scalar::from_i128(35).divide(&Scalar::from_i128(5)).unwrap().equals(&Scalar::from_i128(7)));
    assert!(Scalar::zero().divide(&b).unwrap().is_zero());
}

#[test]
fn batch_inverse_matches_single_inverses() {
    let v = vec![
        Scalar::from_i128(2),
        Scalar::zero(),
        Scalar::from_i128(-3),
        Scalar::one(),
        Scalar::zero(),
        Scalar::from_i128(99),
    ];
    let inv = Scalar::batch_inverse(v.clone());
    assert_eq!(inv.len(), v.len());
    for i in 0..v.len() {
        assert!(inv[i].equals(&v[i].inverse()));
    }
    assert!(inv[1].is_zero());
    assert!(Scalar::batch_inverse(Vec::new()).is_empty());
}

#[test]
fn bytes_not_below_the_modulus_are_invalid() {
    assert_eq!(Scalar::from_le_bytes([0xffu8; 32]), Err(SerializationError::InvalidData));
    // the modulus itself
    let modulus: [u8; 32] = [
        0x01, 0x00, 0x00, 0x00, 0xff, 0xff, 0xff, 0xff, 0xfe, 0x5b, 0xfe, 0xff, 0x02, 0xa4, 0xbd,
        0x53, 0x05, 0xd8, 0xa1, 0x09, 0x08, 0xd8, 0x39, 0x33, 0x48, 0x7d, 0x9d, 0x29, 0x53, 0xa7,
        0xed, 0x73,
    ];
    assert_eq!(Scalar::from_le_bytes(modulus), Err(SerializationError::InvalidData));
    let mut below = modulus;
    below[0] = 0;
    assert!(Scalar::from_le_bytes(below).unwrap().equals(&Scalar::from_i128(-1)));
}

#[test]
fn random_elements_are_canonical() {
    let x = Scalar::rand();
    let bytes = x.to_le_bytes().unwrap();
    assert!(Scalar::from_le_bytes(bytes).unwrap().equals(&x));
}

#[test]
fn equal_elements_hash_alike() {
    let a = Scalar::from_i128(41).add(&Scalar::one());
    let b = Scalar::from_i128(42);
    assert_eq!(a.hash_code(), b.hash_code());
    assert_ne!(a.hash_code(), Scalar::from_i128(43).hash_code());
    assert_eq!(Scalar::from_i128(-1).hash_code(), Scalar::zero().sub(&Scalar::one()).hash_code());
}

#[test]
fn extreme_integers_reduce_to_their_residues() {
    assert_eq!(Scalar::from_i128(i128::MIN).to_text(), "52435875175126190479447740508185965837520411317067168590871971396222697078785");
    assert_eq!(Scalar::from_i128(i128::MAX).to_text(), "170141183460469231731687303715884105727");
}

#[test]
fn powers_with_large_exponents() {
    assert_eq!(Scalar::from_i128(3).pow(u64::MAX).to_text(), "19445483379013351121184687138924901701763624176679769498039554446184191659202");
    assert_eq!(Scalar::from_i128(7).inverse().to_text(), "14981678621464625851270783002338847382197300714436467949315331057125308909861");
}
