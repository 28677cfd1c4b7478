use raytrace::fixed::Fx;
use raytrace::linalg::matrix::Matrix;
use raytrace::linalg::tuple::Tuple;

fn fx(v: f64) -> Fx {
    Fx::from_raw((v * 4294967296.0) as i64)
}

fn approx(a: Fx, b: f64) -> bool {
    ((a.raw as f64) / 4294967296.0 - b).abs() < 0.001
}

#[test]
fn test_equal() {
    let (rows, cols) = (4, 4);
    let mut a: Matrix = Matrix::new(rows, cols);
    let mut b: Matrix = Matrix::new(rows, cols);

    for i in 0..rows {
        for j in 0..cols {
            let value = fx(rand::random::<f64>());
            a.data[i][j] = value;
            b.data[i][j] = value;
        }
    }

    assert_eq!(a, b);
}

#[test]
fn test_identity() {
    for _ in 0..10 {
        let n = 4;

        let m = Matrix::random(n, n, fx(-10.0), fx(10.0));
        let u = Matrix::identity(n);

        assert_eq!(m, m.multiply_matrix(&u));
    }
}

#[test]
fn test_transpose() {
    for _ in 0..10 {
        let rows = rand::random::<u8>();
        let cols = rand::random::<u8>();

        let m = Matrix::random(rows as usize, cols as usize, fx(-10.0), fx(10.0));

        assert_eq!(m, m.transpose().transpose());
    }
}

#[test]
fn test_transpose_identity() {
    for _ in 0..10 {
        let n = rand::random::<u8>();
        let u = Matrix::identity(n as usize);

        assert_eq!(u, u.transpose());
    }
}

#[test]
fn test_determinant() {
    let m = Matrix::from_values(&vec![
        vec![fx(1.0), fx(2.0), fx(6.0)],
        vec![fx(-5.0), fx(8.0), fx(-4.0)],
        vec![fx(2.0), fx(6.0), fx(4.0)],
    ]);
    assert!(approx(m.determinant(), -196.0));

    let m = Matrix::from_values(&vec![
        vec![fx(-2.0), fx(-8.0), fx(3.0), fx(5.0)],
        vec![fx(-3.0), fx(1.0), fx(7.0), fx(3.0)],
        vec![fx(1.0), fx(2.0), fx(-9.0), fx(6.0)],
        vec![fx(-6.0), fx(7.0), fx(7.0), fx(-9.0)],
    ]);
    assert!(approx(m.determinant(), -4071.0));
}

#[test]
fn test_invert() {
    let mut c = 0;
    for _ in 0..100 {
        let n = 4;

        let m = Matrix::random(n, n, fx(-10.0), fx(10.0));
        if m.is_invertible() {
            let inv = m.invert();
            if inv.is_invertible() {
                c += 1;
                assert_eq!(m, inv.invert());
            }
        }
    }
    assert_ne!(c, 0);
}

#[test]
fn test_multiply_invert() {
    let mut counter = 0;
    let n = 4;
    for _ in 0..100 {
        let a = Matrix::random(n, n, fx(-10.0), fx(10.0));
        let b = Matrix::random(n, n, fx(-10.0), fx(10.0));
        let c = a.multiply_matrix(&b);

        if b.is_invertible() {
            assert_eq!(a, c.multiply_matrix(&b.invert()));
            counter += 1;
        }
    }
    assert_ne!(counter, 0);
}

#[test]
fn test_add_subtract() {
    let n: f64 = 123_f64;
    for _ in 1..10 {
        let a = Tuple::new(
            fx(rand::random::<f64>() * n),
            fx(rand::random::<f64>() * n),
            fx(rand::random::<f64>() * n),
            fx(rand::random::<f64>() * n),
        );
        let b = Tuple::new(
            fx(rand::random::<f64>() * n),
            fx(rand::random::<f64>() * n),
            fx(rand::random::<f64>() * n),
            fx(rand::random::<f64>() * n),
        );
        assert_eq!(a, a.add(&b).subtract(&b));
    }
}

#[test]
fn test_scalar_arithmetic_exact() {
    assert_eq!(Fx::from_ratio(3, 2).raw, 6442450944);
    assert_eq!(Fx::from_int(6).times(Fx::from_int(7)), Fx::from_int(42));
    assert_eq!(Fx::from_int(9).sqrt(), Fx::from_int(3));
    assert_eq!(Fx::from_ratio(1, 2).powi(2), Fx::from_ratio(1, 4));
    assert_eq!(Fx::from_int(-7).abs(), Fx::from_int(7));
    assert_eq!(Fx::from_int(5).over(Fx::zero()), Fx::zero());
}

#[test]
fn test_trig_values() {
    let pi = Fx::from_raw(13493037705);
    assert!(approx(pi.sin(), 0.0));
    assert!(approx(pi.over(Fx::from_int(2)).sin(), 1.0));
    assert!(approx(pi.cos(), -1.0));
    assert!(approx(pi.over(Fx::from_int(4)).tan(), 1.0));
    assert!(approx(Fx::one().atan2(Fx::one()), std::f64::consts::FRAC_PI_4));
    assert!(approx(Fx::zero().acos(), std::f64::consts::FRAC_PI_2));
}

#[test]
fn test_translation_moves_points_not_vectors() {
    let m = Matrix::translation(fx(5.0), fx(-3.0), fx(2.0));
    let p = Tuple::point(fx(-3.0), fx(4.0), fx(5.0));
    let v = Tuple::vector(fx(-3.0), fx(4.0), fx(5.0));
    assert_eq!(m.multiply_tuple(&p), Tuple::point(fx(2.0), fx(1.0), fx(7.0)));
    assert_eq!(m.multiply_tuple(&v), v);
}
