use lumol_energy::fx;
use lumol_energy::types::matrix::Matrix3;
use lumol_energy::types::vectors::Vector3D;

fn v(a: i64, b: i64, c: i64) -> Vector3D {
    Vector3D::new(fx::of_milli(a), fx::of_milli(b), fx::of_milli(c))
}

#[test]
fn vectors_add() {
    let a = v(2000, 3500, 4800);
    let b = v(6100, -8500, 7300);

    let c = a.add_v(&b);
    assert_eq!(c.x, fx::of_milli(2000) + fx::of_milli(6100));
    assert_eq!(c.y, fx::of_milli(3500) + fx::of_milli(-8500));
    assert_eq!(c.z, fx::of_milli(4800) + fx::of_milli(7300));
    // exact decimal checks where the fixed-point representation is exact
    assert_eq!(fx::to_milli(v(2000, 3500, 0).add_v(&v(6000, -8500, 0)).x), 8000);
    assert_eq!(fx::to_milli(v(2000, 3500, 0).add_v(&v(6000, -8500, 0)).y), -5000);
}

#[test]
fn vectors_sub() {
    let a = v(2000, 3500, 4800);
    let b = v(6100, -8500, 7300);

    let c = a.sub_v(&b);
    assert_eq!(c.x, fx::of_milli(2000) - fx::of_milli(6100));
    assert_eq!(c.y, fx::of_milli(3500) - fx::of_milli(-8500));
    assert_eq!(c.z, fx::of_milli(4800) - fx::of_milli(7300));
}

#[test]
fn mul() {
    let a = Vector3D::new(fx::of_int(2), fx::of_milli(3500), fx::of_int(5));
    let b = fx::of_int(2);

    let c = a.scale(b);
    assert_eq!(c.x, fx::of_int(4));
    assert_eq!(c.y, fx::of_int(7));
    assert_eq!(c.z, fx::of_int(10));
}

#[test]
fn dot_product() {
    let a = Vector3D::new(fx::of_int(2), fx::of_int(3), fx::of_int(4));
    let b = Vector3D::new(fx::of_int(6), fx::of_int(-8), fx::of_int(7));

    let c = a.dot(&b);
    assert_eq!(c, fx::of_int(12 - 24 + 28));
}

#[test]
fn norm() {
    let a = Vector3D::new(fx::of_int(3), fx::of_int(4), 0);
    assert_eq!(a.norm(), fx::of_int(5));
}

#[test]
fn specials_matrix() {
    let a = Matrix3::zero();
    let b = Matrix3::one();

    for i in 0..3 {
        for j in 0..3 {
            assert_eq!(a.get(i, j), 0);
            if i == j {
                assert_eq!(b.get(i, j), fx::of_int(1));
            } else {
                assert_eq!(b.get(i, j), 0);
            }
        }
    }
}

fn m_of_ints(v: [[i64; 3]; 3]) -> Matrix3 {
    Matrix3::new(
        fx::of_int(v[0][0]),
        fx::of_int(v[0][1]),
        fx::of_int(v[0][2]),
        fx::of_int(v[1][0]),
        fx::of_int(v[1][1]),
        fx::of_int(v[1][2]),
        fx::of_int(v[2][0]),
        fx::of_int(v[2][1]),
        fx::of_int(v[2][2]),
    )
}

#[test]
fn matrix_add() {
    let a = m_of_ints([[1, 2, 3], [4, 5, 6], [8, 9, 10]]);
    let b = Matrix3::one();
    let add = a.add_m(&b);

    let res = m_of_ints([[2, 2, 3], [4, 6, 6], [8, 9, 11]]);
    for i in 0..3 {
        for j in 0..3 {
            assert_eq!(add.get(i, j), res.get(i, j));
        }
    }
}

#[test]
fn matrix_sub() {
    let a = m_of_ints([[1, 2, 3], [4, 5, 6], [8, 9, 10]]);
    let b = Matrix3::one();
    let sub = a.sub_m(&b);

    let res = m_of_ints([[0, 2, 3], [4, 4, 6], [8, 9, 9]]);
    for i in 0..3 {
        for j in 0..3 {
            assert_eq!(sub.get(i, j), res.get(i, j));
        }
    }
}

#[test]
fn mul_scalar() {
    let a = m_of_ints([[1, 2, 3], [4, 5, 6], [8, 9, 10]]);
    let b = fx::of_int(2);
    let m = a.scale(b);

    let res = m_of_ints([[2, 4, 6], [8, 10, 12], [16, 18, 20]]);
    for i in 0..3 {
        for j in 0..3 {
            assert_eq!(m.get(i, j), res.get(i, j));
        }
    }
}

#[test]
fn mul_matrix() {
    let unit = Matrix3::one();
    let unit_sq = unit.mul_m(&unit);

    let a = m_of_ints([[2, 4, 6], [8, 10, 12], [16, 18, 20]]);
    let mul_r = unit.mul_m(&a);
    let mul_l = a.mul_m(&unit);

    for i in 0..3 {
        for j in 0..3 {
            assert_eq!(unit.get(i, j), unit_sq.get(i, j));
            assert_eq!(mul_l.get(i, j), a.get(i, j));
            assert_eq!(mul_r.get(i, j), a.get(i, j));
        }
    }
}

#[test]
fn mul_vector() {
    let a = m_of_ints([[1, 2, 3], [4, 5, 6], [8, 9, 10]]);

    let vec = Vector3D::new(fx::of_int(1), fx::of_int(1), fx::of_int(1));
    let m = a.mul_v(&vec);
    assert_eq!(m.x, fx::of_int(6));
    assert_eq!(m.y, fx::of_int(15));
    assert_eq!(m.z, fx::of_int(27));

    let unit = Matrix3::one();
    let vec = v2(56745, 35680);
    let m = unit.mul_v(&vec);
    assert_eq!(m.x, vec.x);
    assert_eq!(m.y, vec.y);
    assert_eq!(m.z, vec.z);
}

fn v2(a: i64, b: i64) -> Vector3D {
    Vector3D::new(fx::of_milli(a), fx::of_milli(b), fx::of_milli(215673))
}

#[test]
fn matrix_inverse() {
    let a = m_of_ints([[2, 0, 0], [0, 4, 0], [0, 0, 8]]);
    let inv = a.inverse();
    assert_eq!(inv.get(0, 0), fx::of_milli(500));
    assert_eq!(inv.get(1, 1), fx::of_milli(250));
    assert_eq!(inv.get(2, 2), fx::of_milli(125));
    assert_eq!(inv.get(0, 1), 0);
}
