use tone_detector::CSample;
use tone_detector::QSample;
use tone_detector::convert_block;
use tone_detector::conjugate_slice;
use tone_detector::magnitude_squared;
use tone_detector::multiply_slice;
use tone_detector::sum_slice;

fn c(re: i64, im: i64) -> CSample {
    CSample { re, im }
}

#[test]
fn multiply_is_elementwise_complex_product() {
    let a = vec![c(1, 2), c(-3, 4), c(0, 0), c(7, -5)];
    let b = vec![c(5, -1), c(2, 2), c(9, 9), c(-1, -1)];
    let mut out = vec![c(0, 0); 4];
    multiply_slice(&a, &b, &mut out);
    for k in 0..4 {
        let expect_re = a[k].re * b[k].re - a[k].im * b[k].im;
        let expect_im = a[k].re * b[k].im + a[k].im * b[k].re;
        assert_eq!(out[k], c(expect_re, expect_im));
    }
    assert_eq!(out[0], c(7, 9));
    assert_eq!(out[1], c(-14, 2));
    assert_eq!(out[2], c(0, 0));
    assert_eq!(out[3], c(-12, -2));
}

#[test]
fn conjugate_negates_quadrature_only() {
    let mut a = vec![c(10, -3), c(0, 5), c(-2, 0)];
    conjugate_slice(&mut a);
    assert_eq!(a, vec![c(10, 3), c(0, -5), c(-2, 0)]);
}

#[test]
fn conjugate_is_its_own_inverse() {
    let original = vec![c(1, 1), c(-4, 7), c(2000, -2000), c(0, 0), c(i64::MAX, i64::MAX)];
    let mut a = original.clone();
    conjugate_slice(&mut a);
    conjugate_slice(&mut a);
    assert_eq!(a, original);
}

#[test]
fn sum_is_componentwise() {
    let a = vec![c(1, -1), c(2, -2), c(3, -3)];
    let s = sum_slice(&a);
    assert_eq!(s, c(6, -6));
}

#[test]
fn sum_of_empty_block_is_zero() {
    let a: Vec<CSample> = Vec::new();
    let s = sum_slice(&a);
    assert_eq!(s, c(0, 0));
}

#[test]
fn sum_does_not_depend_on_element_order() {
    let a = vec![c(5, 8), c(-7, 2), c(11, -4), c(0, 1)];
    let permuted = vec![c(11, -4), c(0, 1), c(5, 8), c(-7, 2)];
    let sa = sum_slice(&a);
    let sp = sum_slice(&permuted);
    assert_eq!(sa, sp);
    assert_eq!(magnitude_squared(sa), magnitude_squared(sp));
}

#[test]
fn magnitude_squared_is_sum_of_squares() {
    assert_eq!(magnitude_squared(c(3, 4)), 25);
    assert_eq!(magnitude_squared(c(-3, 4)), 25);
    assert_eq!(magnitude_squared(c(0, 0)), 0);
    let big = c(i64::MAX, i64::MAX);
    let sq = i64::MAX as i128 * i64::MAX as i128;
    assert_eq!(magnitude_squared(big), 2 * sq);
}

#[test]
fn convert_widens_each_component_exactly() {
    let q = vec![
        QSample { re: 0, im: 0 },
        QSample { re: 1, im: -1 },
        QSample { re: i16::MAX, im: i16::MIN },
        QSample { re: -2000, im: 1999 },
    ];
    let wide = convert_block(&q);
    let direct: Vec<CSample> = q.iter().map(|s| c(s.re as i64, s.im as i64)).collect();
    assert_eq!(wide, direct);
}
