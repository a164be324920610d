use ark_algebra_py::field::Scalar;
use ark_algebra_py::polynomial::{Domain, DomainError, Polynomial};
use ark_algebra_py::utils::ArithmeticError;

fn scalars(v: &[i128]) -> Vec<Scalar> {
    v.iter().map(|k| Scalar::from_i128(*k)).collect()
}

fn poly(v: &[i128]) -> Polynomial {
    Polynomial::from_coefficients(scalars(v))
}

fn same(a: &[Scalar], b: &[Scalar]) -> bool {
    a.len() == b.len() && a.iter().zip(b.iter()).all(|(x, y)| x.equals(y))
}

#[test]
fn interpolate_then_evaluate_gives_values_back() {
    let domain = Domain::new(4).unwrap();
    let values = scalars(&[1, 2, 3, 4]);
    let p = domain.interpolate(values.clone());
    assert!(p.degree() < 4);
    let back = p.evaluate_over_domain(domain);
    assert!(same(&back, &values));
    for i in 0..4 {
        assert!(p.evaluate(domain.element(i)).equals(&values[i]));
    }
}

#[test]
fn interpolate_constant_values() {
    let domain = Domain::new(8).unwrap();
    let p = domain.interpolate(scalars(&[7; 8]));
    assert!(p.equals(&Polynomial::constant(Scalar::from_i128(7))));
    assert_eq!(p.degree(), 0);
    let zero = domain.interpolate(scalars(&[0; 8]));
    assert!(zero.equals(&Polynomial::zero()));
}

#[test]
fn domain_sizes_round_up_to_powers_of_two() {
    assert_eq!(Domain::new(4).unwrap().size(), 4);
    assert_eq!(Domain::new(5).unwrap().size(), 8);
    assert_eq!(Domain::new(1).unwrap().size(), 1);
    assert_eq!(Domain::new(0).unwrap().size(), 1);
    assert_eq!(Domain::new(1000).unwrap().size(), 1024);
    assert_eq!(Domain::new(1usize << 32).unwrap().size(), 1usize << 32);
}

#[test]
fn unsupported_domain_sizes_are_refused() {
    assert_eq!(Domain::new((1usize << 32) + 1).err(), Some(DomainError::InvalidSize));
    assert_eq!(Domain::new(1usize << 40).err(), Some(DomainError::InvalidSize));
    assert_eq!(Domain::new(usize::MAX).err(), Some(DomainError::InvalidSize));
}

#[test]
fn domain_elements_are_powers_of_the_generator() {
    let domain = Domain::new(8).unwrap();
    let all = domain.elements();
    assert_eq!(all.len(), 8);
    assert!(all[0].is_one());
    let g = domain.element(1);
    assert!(!g.is_one());
    assert!(g.pow(8).is_one());
    assert!(!g.pow(4).is_one());
    for i in 0..8 {
        assert!(all[i].equals(&domain.element(i)));
        assert!(all[i].equals(&g.pow(i as u64)));
        assert!(domain.evaluate_vanishing_polynomial(all[i]).is_zero());
    }
    assert!(domain.element(8).is_one());
}

#[test]
fn vanishing_polynomial_is_x_to_the_n_minus_one() {
    let domain = Domain::new(4).unwrap();
    assert!(domain.evaluate_vanishing_polynomial(Scalar::from_i128(2)).equals(&Scalar::from_i128(15)));
    let v = domain.vanishing_polynomial();
    assert_eq!(v.degree(), 4);
    assert!(same(&v.coefficients(), &scalars(&[-1, 0, 0, 0, 1])));
    assert!(v.equals(&poly(&[-1, 0, 0, 0, 1])));
    assert!(v.evaluate(Scalar::from_i128(2)).equals(&Scalar::from_i128(15)));
    let one = Domain::new(1).unwrap().vanishing_polynomial();
    assert!(same(&one.coefficients(), &scalars(&[-1, 1])));
}

#[test]
fn constructors() {
    assert!(same(&Polynomial::X().coefficients(), &scalars(&[0, 1])));
    assert_eq!(Polynomial::X().degree(), 1);
    assert!(same(&Polynomial::constant(Scalar::from_i128(5)).coefficients(), &scalars(&[5])));
    assert!(Polynomial::constant(Scalar::zero()).coefficients().is_empty());
    assert!(Polynomial::zero().coefficients().is_empty());
    assert_eq!(Polynomial::zero().degree(), 0);
    assert_eq!(Polynomial::constant(Scalar::one()).degree(), 0);
    let p = poly(&[1, 2, 0, 0]);
    assert!(same(&p.coefficients(), &scalars(&[1, 2])));
    assert_eq!(p.degree(), 1);
    assert!(poly(&[0, 0, 0]).equals(&Polynomial::zero()));
    assert!(Polynomial::X().equals(&poly(&[0, 1])));
    assert!(!Polynomial::X().equals(&poly(&[1, 1])));
    assert!(!Polynomial::X().equals(&poly(&[0, 1, 1])));
}

#[test]
fn ring_operations_on_polynomials() {
    let a = poly(&[1, 2]);
    let b = poly(&[3, 0, 1]);
    assert!(a.add(&b).equals(&poly(&[4, 2, 1])));
    assert!(b.add(&a).equals(&poly(&[4, 2, 1])));
    assert!(a.sub(&b).equals(&poly(&[-2, 2, -1])));
    assert!(a.sub(&a).equals(&Polynomial::zero()));
    assert!(b.add(&poly(&[0, 0, -1])).equals(&poly(&[3])));
    assert!(poly(&[1, 1]).mul(&poly(&[1, -1])).equals(&poly(&[1, 0, -1])));
    assert!(a.mul(&b).equals(&poly(&[3, 6, 1, 2])));
    assert!(a.mul(&Polynomial::zero()).equals(&Polynomial::zero()));
    assert!(a.neg().equals(&poly(&[-1, -2])));
    assert!(Polynomial::X().add(&Polynomial::constant(Scalar::one())).equals(&poly(&[1, 1])));
    assert!(Polynomial::X().mul(&Polynomial::X()).equals(&poly(&[0, 0, 1])));
    assert!(Polynomial::X().neg().equals(&poly(&[0, -1])));
    assert!(Polynomial::X().sub(&poly(&[0, 1])).equals(&Polynomial::zero()));
}

#[test]
fn evaluation_at_a_point() {
    let p = poly(&[1, 2, 3]);
    assert!(p.evaluate(Scalar::from_i128(2)).equals(&Scalar::from_i128(17)));
    assert!(p.evaluate(Scalar::zero()).is_one());
    assert!(Polynomial::zero().evaluate(Scalar::from_i128(9)).is_zero());
    assert!(Polynomial::X().evaluate(Scalar::from_i128(9)).equals(&Scalar::from_i128(9)));
}

#[test]
fn evaluation_over_a_domain_matches_pointwise_evaluation() {
    let domain = Domain::new(4).unwrap();
    let p = poly(&[5, 0, 1, 2, 0, 7, 1]);
    let values = p.evaluate_over_domain(domain);
    assert_eq!(values.len(), 4);
    for i in 0..4 {
        assert!(values[i].equals(&p.evaluate(domain.element(i))));
    }
}

#[test]
fn division_with_remainder() {
    let (q, r) = poly(&[-1, 0, 1]).divide(&poly(&[-1, 1])).unwrap();
    assert!(q.equals(&poly(&[1, 1])));
    assert!(r.equals(&Polynomial::zero()));
    let p = poly(&[1, 0, 1]);
    let d = poly(&[-1, 1]);
    let (q, r) = p.divide(&d).unwrap();
    assert!(q.equals(&poly(&[1, 1])));
    assert!(r.equals(&poly(&[2])));
    assert!(q.mul(&d).add(&r).equals(&p));
    let (q, r) = d.divide(&p).unwrap();
    assert!(q.equals(&Polynomial::zero()));
    assert!(r.equals(&d));
}

#[test]
fn division_by_the_zero_polynomial_is_an_error() {
    assert_eq!(poly(&[1, 2]).divide(&Polynomial::zero()).err(), Some(ArithmeticError::DivisionByZero));
    assert_eq!(
        Polynomial::zero().divide(&poly(&[0, 0])).err(),
        Some(ArithmeticError::DivisionByZero)
    );
}

#[test]
fn division_by_the_vanishing_polynomial() {
    let domain = Domain::new(4).unwrap();
    let p = poly(&[3, 0, 0, 0, 0, 1]);
    let (q, r) = p.divide_by_vanishing_poly(domain);
    assert!(q.equals(&Polynomial::X()));
    assert!(r.equals(&poly(&[3, 1])));
    assert!(r.degree() < 4);
    let v = domain.vanishing_polynomial();
    assert!(q.mul(&v).add(&r).equals(&p));
    let (q2, r2) = p.divide(&v).unwrap();
    assert!(q2.equals(&q));
    assert!(r2.equals(&r));
    let (q, r) = poly(&[1, 2]).divide_by_vanishing_poly(domain);
    assert!(q.equals(&Polynomial::zero()));
    assert!(r.equals(&poly(&[1, 2])));
}

#[test]
fn text_lists_the_nonzero_terms() {
    assert_eq!(poly(&[1, 2, 3]).to_text(), "1 + 2 * x + 3 * x^2");
    assert_eq!(poly(&[0, 0, 5]).to_text(), " + 5 * x^2");
    assert_eq!(poly(&[7]).to_text(), "7");
    assert_eq!(Polynomial::X().to_text(), " + 1 * x");
    assert_eq!(Polynomial::zero().to_text(), "");
    let mut v = vec![0i128; 13];
    v[0] = 4;
    v[12] = 9;
    assert_eq!(poly(&v).to_text(), "4 + 9 * x^12");
}

#[test]
fn product_is_the_convolution_of_the_coefficients() {
    let a = [3i128, -1, 4, 1, -5];
    let b = [9i128, 2, -6];
    let mut expected = vec![0i128; a.len() + b.len() - 1];
    for i in 0..a.len() {
        for j in 0..b.len() {
            expected[i + j] += a[i] * b[j];
        }
    }
    assert!(poly(&a).mul(&poly(&b)).equals(&poly(&expected)));
    assert!(same(&poly(&a).mul(&poly(&b)).coefficients(), &scalars(&expected)));
}
