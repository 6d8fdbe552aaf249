use ray_math::scalar::Scalar;
use ray_math::vec3::Vec3;
use ray_math::vec3::cmp_float;
use ray_math::vec3::cmp_vec3;

fn whole(n: i64) -> Scalar {
    Scalar::from_int(n)
}

fn triple(x: i64, y: i64, z: i64) -> Vec3 {
    Vec3::new(whole(x), whole(y), whole(z))
}

#[test]
fn test_color() {
    let rgb = triple(100, 200, 255);
    assert!(cmp_float(rgb.r(), whole(100)));
    assert!(cmp_float(rgb.g(), whole(200)));
    assert!(cmp_float(rgb.b(), whole(255)));
}

#[test]
fn test_coordinates() {
    let pos = triple(1, 2, 3);
    assert!(cmp_float(pos.x(), whole(1)));
    assert!(cmp_float(pos.y(), whole(2)));
    assert!(cmp_float(pos.z(), whole(3)));
}

#[test]
fn test_accessor_families_agree() {
    let v = Vec3::new(Scalar::new(1, 2), whole(-7), Scalar::new(22, 7));
    assert!(cmp_float(v.x(), v.r()));
    assert!(cmp_float(v.y(), v.g()));
    assert!(cmp_float(v.z(), v.b()));
    assert!(cmp_float(v.index(0), v.x()));
    assert!(cmp_float(v.index(1), v.y()));
    assert!(cmp_float(v.index(2), v.z()));
}

#[test]
fn test_index() {
    let mut rgb = triple(100, 200, 255);
    rgb.set_index(0, whole(10));
    assert!(cmp_float(rgb.index(0), whole(10)));
    assert!(cmp_float(rgb.index(1), whole(200)));
    assert!(cmp_float(rgb.index(2), whole(255)));
}

#[test]
fn test_translate() {
    let pos1 = triple(1, 2, 3);
    let pos2 = triple(1, 1, 1);
    assert!(cmp_vec3(pos1.add(pos2), triple(2, 3, 4)));
    assert!(cmp_vec3(pos1.sub(pos2), triple(0, 1, 2)));
}

#[test]
fn test_mul() {
    let pos1 = triple(3, 2, 3);
    let pos2 = Vec3::new(Scalar::new(1, 2), whole(3), whole(1));
    let expected = Vec3::new(Scalar::new(3, 2), whole(6), whole(3));
    assert!(cmp_vec3(pos1.mul(pos2), expected));
}

#[test]
fn test_div() {
    let pos1 = triple(4, 2, 12);
    let expected = Vec3::new(whole(1), Scalar::new(1, 2), whole(3));
    assert!(cmp_vec3(pos1.div(whole(4)), expected));
}

#[test]
fn test_mul_fat() {
    let pos1 = Vec3::new(whole(3), Scalar::new(3, 2), whole(3));
    let expected = Vec3::new(whole(9), Scalar::new(9, 2), whole(9));
    assert!(cmp_vec3(pos1.mul_scalar(whole(3)), expected));
}

#[test]
fn test_scalar_mul_commutes() {
    let v = Vec3::new(whole(3), Scalar::new(3, 2), whole(-4));
    let s = Scalar::new(7, 3);
    assert!(cmp_vec3(v.mul_scalar(s), s.mul_vec3(v)));
}

#[test]
fn test_add_commutes() {
    let a = Vec3::new(Scalar::new(1, 3), whole(-2), Scalar::new(5, 4));
    let b = Vec3::new(whole(4), Scalar::new(-7, 2), whole(9));
    assert!(cmp_vec3(a.add(b), b.add(a)));
}

#[test]
fn test_mul_commutes() {
    let a = Vec3::new(Scalar::new(1, 3), whole(-2), Scalar::new(5, 4));
    let b = Vec3::new(whole(4), Scalar::new(-7, 2), whole(9));
    assert!(cmp_vec3(a.mul(b), b.mul(a)));
}

#[test]
fn test_sub_self_is_zero() {
    let a = Vec3::new(Scalar::new(5, 7), whole(-3), Scalar::new(9, 2));
    assert!(cmp_vec3(a.sub(a), triple(0, 0, 0)));
}

#[test]
fn test_not() {
    let pos1 = Vec3::new(whole(3), Scalar::new(-3, 2), whole(3));
    let expected = Vec3::new(whole(-3), Scalar::new(3, 2), whole(-3));
    assert!(cmp_vec3(pos1.not(), expected));
}

#[test]
fn test_not_not() {
    let v = Vec3::new(Scalar::new(-5, 3), whole(8), Scalar::new(1, 9));
    assert!(cmp_vec3(v.not().not(), v));
}

#[test]
fn test_mul_div_roundtrip() {
    let v = Vec3::new(Scalar::new(5, 6), whole(-11), Scalar::new(2, 7));
    let s = Scalar::new(-9, 4);
    assert!(cmp_vec3(v.mul_scalar(s).div(s), v));
}

#[test]
fn test_assigns() {
    let mut pos1 = triple(3, 2, 4);
    pos1.add_assign(triple(3, 2, 4));
    assert!(cmp_vec3(pos1, triple(6, 4, 8)));

    let mut pos1 = triple(3, 2, 4);
    pos1.sub_assign(triple(3, 2, 5));
    assert!(cmp_vec3(pos1, triple(0, 0, -1)));

    let mut pos1 = triple(3, 2, 4);
    pos1.mul_assign(triple(3, 2, 4));
    assert!(cmp_vec3(pos1, triple(9, 4, 16)));

    let mut pos1 = triple(3, 2, 4);
    pos1.mul_assign_scalar(whole(3));
    assert!(cmp_vec3(pos1, triple(9, 6, 12)));

    let mut pos1 = triple(3, 2, 4);
    pos1.div_assign(whole(2));
    assert!(cmp_vec3(pos1, Vec3::new(Scalar::new(3, 2), whole(1), whole(2))));
}

#[test]
fn test_assigns_match_pure_operators() {
    let a = Vec3::new(Scalar::new(7, 5), whole(-2), Scalar::new(3, 8));
    let b = Vec3::new(whole(6), Scalar::new(-1, 4), whole(2));
    let s = Scalar::new(5, 3);

    let mut x = a;
    x.add_assign(b);
    assert!(cmp_vec3(x, a.add(b)));

    let mut x = a;
    x.sub_assign(b);
    assert!(cmp_vec3(x, a.sub(b)));

    let mut x = a;
    x.mul_assign(b);
    assert!(cmp_vec3(x, a.mul(b)));

    let mut x = a;
    x.mul_assign_scalar(s);
    assert!(cmp_vec3(x, a.mul_scalar(s)));

    let mut x = a;
    x.div_assign(s);
    assert!(cmp_vec3(x, a.div(s)));
}

#[test]
fn test_dot() {
    let pos1 = Vec3::new(whole(3), Scalar::new(-3, 2), whole(3));
    let pos2 = Vec3::new(Scalar::new(1, 2), whole(3), whole(1));
    assert!(cmp_float(pos1.dot(&pos2), whole(0)));
}

#[test]
fn test_dot_commutes() {
    let a = Vec3::new(Scalar::new(1, 3), whole(-2), Scalar::new(5, 4));
    let b = Vec3::new(whole(4), Scalar::new(-7, 2), whole(9));
    assert!(cmp_float(a.dot(&b), b.dot(&a)));
}

#[test]
fn test_length_squared() {
    let pos1 = Vec3::new(whole(3), Scalar::new(-3, 2), whole(3));
    let expected = Scalar::new(81, 4);
    assert!(cmp_float(pos1.length_squared(), expected));
    assert!(cmp_float(pos1.dot(&pos1), expected));
}

#[test]
fn test_length() {
    let pos1 = Vec3::new(whole(3), Scalar::new(-3, 2), whole(3));
    let len = pos1.length().expect("the squared length is (9/2)^2, an exact square");
    assert!(cmp_float(len, Scalar::new(9, 2)));
}

#[test]
fn test_length_squares_back() {
    let v = triple(3, 0, 4);
    let len = v.length().expect("3-0-4 has length 5");
    assert!(cmp_float(len, whole(5)));
    assert!(cmp_float(len.mul(len), v.length_squared()));
}

#[test]
fn test_length_of_zero_vector() {
    let len = triple(0, 0, 0).length().expect("the zero vector has length 0");
    assert!(cmp_float(len, whole(0)));
}

#[test]
fn test_length_irrational_is_reported() {
    assert!(triple(1, 1, 1).length().is_none());
}

#[test]
fn test_length_cross() {
    let pos1 = triple(3, 4, 2);
    let pos2 = triple(1, 5, 6);
    assert!(cmp_vec3(pos1.cross(&pos2), triple(14, -16, 11)));
}

#[test]
fn test_cross_anticommutes() {
    let a = Vec3::new(Scalar::new(1, 3), whole(-2), Scalar::new(5, 4));
    let b = Vec3::new(whole(4), Scalar::new(-7, 2), whole(9));
    assert!(cmp_vec3(a.cross(&b), b.cross(&a).not()));
}

#[test]
fn test_cross_self_is_zero() {
    let a = Vec3::new(Scalar::new(1, 3), whole(-2), Scalar::new(5, 4));
    assert!(cmp_vec3(a.cross(&a), triple(0, 0, 0)));
}

#[test]
fn test_unit() {
    // The squared length of (3, 4, 2) is 29, which is not the square of any
    // rational, so there is no exact unit vector to return.
    assert!(triple(3, 4, 2).unit_vector().is_none());
}

#[test]
fn test_unit_exact() {
    let v = triple(3, 0, 4);
    let u = v.unit_vector().expect("3-0-4 has exact length 5");
    let expected = Vec3::new(Scalar::new(3, 5), whole(0), Scalar::new(4, 5));
    assert!(cmp_vec3(u, expected));
    let len = u.length().expect("a unit vector has exact length");
    assert!(cmp_float(len, whole(1)));
}

#[test]
fn test_unit_of_zero_vector_is_rejected() {
    assert!(triple(0, 0, 0).unit_vector().is_none());
}

#[test]
fn test_scalar_representations_compare_equal() {
    assert!(cmp_float(Scalar::new(1, 2), Scalar::new(2, 4)));
    assert!(!cmp_float(Scalar::new(1, 2), Scalar::new(2, 3)));
    assert!(cmp_float(Scalar::new(-6, 4), Scalar::new(-3, 2)));
}

#[test]
fn test_scalar_arithmetic_exact_values() {
    let half = Scalar::new(1, 2);
    let third = Scalar::new(1, 3);
    assert!(cmp_float(half.add(third), Scalar::new(5, 6)));
    assert!(cmp_float(half.sub(third), Scalar::new(1, 6)));
    assert!(cmp_float(half.mul(third), Scalar::new(1, 6)));
    assert!(cmp_float(half.div(third), Scalar::new(3, 2)));
    assert!(cmp_float(half.neg(), Scalar::new(-1, 2)));
    assert!(cmp_float(half.div(Scalar::new(-1, 3)), Scalar::new(-3, 2)));
}

#[test]
fn test_isqrt_exact_values() {
    assert_eq!(ray_math::scalar::isqrt(0), 0);
    assert_eq!(ray_math::scalar::isqrt(1), 1);
    assert_eq!(ray_math::scalar::isqrt(2), 1);
    assert_eq!(ray_math::scalar::isqrt(15), 3);
    assert_eq!(ray_math::scalar::isqrt(16), 4);
    assert_eq!(ray_math::scalar::isqrt(324), 18);
    assert_eq!(ray_math::scalar::isqrt(9223372036854775806), 3037000499);
}
