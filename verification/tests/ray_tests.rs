use ray_math::ray::Ray;
use ray_math::scalar::Scalar;
use ray_math::vec3::Vec3;
use ray_math::vec3::cmp_vec3;

fn point(x: i64, y: i64, z: i64) -> Vec3 {
    Vec3::new(Scalar::from_int(x), Scalar::from_int(y), Scalar::from_int(z))
}

#[test]
fn test_basic() {
    let ray = Ray::new(
        point(0, 0, 0),
        Vec3::new(Scalar::from_int(1), Scalar::new(1, 2), Scalar::new(3, 2)),
    );
    let destiny = ray.point_at(Scalar::from_int(2));
    assert!(cmp_vec3(destiny, point(2, 1, 3)));
}

#[test]
fn test_point_at_zero_is_origin() {
    let ray = Ray::new(point(7, -3, 11), point(2, 5, -9));
    assert!(cmp_vec3(ray.point_at(Scalar::from_int(0)), ray.origem));
}

#[test]
fn test_point_at_zero_direction_is_origin() {
    let ray = Ray::new(point(7, -3, 11), point(0, 0, 0));
    assert!(cmp_vec3(ray.point_at(Scalar::from_int(5)), ray.origem));
    assert!(cmp_vec3(ray.point_at(Scalar::new(-2, 3)), ray.origem));
}

#[test]
fn test_point_at_sampled_parameters() {
    let origin = point(1, -2, 3);
    let direction = Vec3::new(Scalar::new(1, 2), Scalar::from_int(4), Scalar::from_int(-1));
    let ray = Ray::new(origin, direction);
    let samples = [
        Scalar::from_int(-2),
        Scalar::from_int(-1),
        Scalar::from_int(0),
        Scalar::from_int(1),
        Scalar::from_int(2),
        Scalar::new(7, 2),
    ];
    for t in samples {
        let expected = origin.add(direction.mul_scalar(t));
        assert!(cmp_vec3(ray.point_at(t), expected));
    }
}

#[test]
fn test_ray_fields_stored_verbatim() {
    let origin = point(1, 2, 3);
    let direction = point(4, 5, 6);
    let ray = Ray::new(origin, direction);
    let copy = ray.clone();
    assert!(cmp_vec3(copy.origem, origin));
    assert!(cmp_vec3(copy.direction, direction));
}
