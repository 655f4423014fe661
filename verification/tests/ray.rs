use raytracer::matrix::Matrix;
use raytracer::material::Material;
use raytracer::ray::{hit, intersections_from_roots, Computation, Intersection, Ray, Sphere};
use raytracer::scalar::Scalar;
use raytracer::tuple::Tuple;

fn scalar(x: f64) -> Scalar {
    Scalar::from_bits(x.to_bits())
}

fn at(t: f64, object: usize) -> Intersection {
    Intersection { t: scalar(t), object }
}

#[test]
fn test_hit() {
    let i1 = at(1.0, 0);
    let i2 = at(2.0, 0);

    let intersections = vec![i1.clone(), i2];

    assert_eq!(hit(&intersections), Some(&i1));
}

#[test]
fn test_hit_negative() {
    let i1 = at(-1.0, 0);
    let i2 = at(1.0, 0);

    let intersections = vec![i1, i2.clone()];

    assert_eq!(hit(&intersections), Some(&i2));
}

#[test]
fn test_hit_all_negative() {
    let i1 = at(-1.0, 0);
    let i2 = at(-1.0, 0);

    let intersections = vec![i1, i2];

    assert_eq!(hit(&intersections), None);
}

#[test]
fn test_hit_is_the_lowest_nonnegative() {
    let intersections = vec![at(5.0, 0), at(7.0, 1), at(-3.0, 2), at(2.0, 3)];

    assert_eq!(hit(&intersections), Some(&at(2.0, 3)));
}

#[test]
fn test_hit_of_nothing() {
    assert_eq!(hit(&vec![]), None);
}

#[test]
fn test_hit_takes_the_first_of_equals() {
    let intersections = vec![at(3.0, 0), at(1.0, 1), at(1.0, 2), at(1.0, 3)];

    assert_eq!(hit(&intersections), Some(&at(1.0, 1)));
}

#[test]
fn test_hit_at_zero() {
    let intersections = vec![at(1.0, 0), at(0.0, 1)];
    assert_eq!(hit(&intersections), Some(&at(0.0, 1)));

    let intersections = vec![at(1.0, 0), at(-0.0, 1), at(0.0, 2)];
    assert_eq!(hit(&intersections), Some(&at(-0.0, 1)));
}

#[test]
fn test_hit_passes_over_what_is_no_number() {
    let intersections = vec![at(f64::NAN, 0), at(2.0, 1), at(f64::NAN, 2)];
    assert_eq!(hit(&intersections), Some(&at(2.0, 1)));

    let intersections = vec![at(f64::NAN, 0), at(-2.0, 1)];
    assert_eq!(hit(&intersections), None);
}

#[test]
fn test_hit_at_infinity() {
    let intersections = vec![at(f64::INFINITY, 0), at(f64::NEG_INFINITY, 1)];
    assert_eq!(hit(&intersections), Some(&at(f64::INFINITY, 0)));
}

#[test]
fn test_is_ahead() {
    assert!(at(0.0, 0).is_ahead());
    assert!(at(-0.0, 0).is_ahead());
    assert!(at(1e-300, 0).is_ahead());
    assert!(!at(-1e-300, 0).is_ahead());
    assert!(!at(f64::NAN, 0).is_ahead());
}

#[test]
fn test_roots_of_a_positive_discriminant() {
    let found = intersections_from_roots(7, scalar(4.0), scalar(4.0), scalar(6.0));
    assert_eq!(found, vec![at(4.0, 7), at(6.0, 7)]);
}

#[test]
fn test_roots_of_a_tangent() {
    let found = intersections_from_roots(0, scalar(0.0), scalar(5.0), scalar(5.0));
    assert_eq!(found, vec![at(5.0, 0), at(5.0, 0)]);

    let found = intersections_from_roots(0, scalar(-0.0), scalar(5.0), scalar(5.0));
    assert_eq!(found, vec![at(5.0, 0), at(5.0, 0)]);
}

#[test]
fn test_roots_of_a_miss() {
    let found = intersections_from_roots(0, scalar(-12.0), scalar(f64::NAN), scalar(f64::NAN));
    assert_eq!(found, vec![]);
}

#[test]
fn test_roots_of_a_discriminant_that_is_no_number() {
    let found = intersections_from_roots(2, scalar(f64::NAN), scalar(f64::NAN), scalar(f64::NAN));
    assert_eq!(found.len(), 2);
    assert!(found[0].t.is_nan() && found[1].t.is_nan());
    assert_eq!(found[0].object, 2);
}

fn point(x: f64, y: f64, z: f64) -> Tuple {
    Tuple::point(scalar(x), scalar(y), scalar(z))
}

fn vector(x: f64, y: f64, z: f64) -> Tuple {
    Tuple::vector(scalar(x), scalar(y), scalar(z))
}

fn whole_dot(row: &Vec<Scalar>, column: &Vec<Scalar>) -> Scalar {
    let sum: f64 = row.iter().zip(column.iter()).map(|(a, b)| f64::from_bits(a.bits) * f64::from_bits(b.bits)).sum();
    scalar(sum)
}

#[test]
fn test_new_ray_holds_origin_and_direction() {
    let ray = Ray::new(point(0.0, 0.0, 0.0), vector(0.0, 1.0, 0.0));

    assert_eq!(ray.origin, point(0.0, 0.0, 0.0));
    assert_eq!(ray.direction, vector(0.0, 1.0, 0.0));
    assert_eq!(ray, Ray { origin: point(0.0, 0.0, 0.0), direction: vector(0.0, 1.0, 0.0) });
}

#[test]
fn test_transform_moves_the_origin_and_not_the_direction() {
    let ray = Ray::new(point(1.0, 2.0, 3.0), vector(0.0, 1.0, 0.0));
    let moved = raytracer::transform::translation(scalar(3.0), scalar(4.0), scalar(5.0));

    let image = ray.transform(&moved, &whole_dot);

    assert_eq!(image.origin, point(4.0, 6.0, 8.0));
    assert_eq!(image.direction, vector(0.0, 1.0, 0.0));
}

#[test]
fn test_transform_scales_origin_and_direction() {
    let ray = Ray::new(point(1.0, 2.0, 3.0), vector(0.0, 1.0, 0.0));
    let scaled = raytracer::transform::scaling(scalar(2.0), scalar(3.0), scalar(4.0));

    let image = ray.transform(&scaled, &whole_dot);

    assert_eq!(image.origin, point(2.0, 6.0, 12.0));
    assert_eq!(image.direction, vector(0.0, 3.0, 0.0));
}

#[test]
fn test_transform_by_the_identity() {
    let ray = Ray::new(point(1.0, 2.0, 3.0), vector(4.0, 5.0, 6.0));

    assert_eq!(ray.transform(&Matrix::identity(4), &whole_dot), ray);
}

#[test]
fn test_computation_of_a_hit_from_outside() {
    let ray = Ray::new(point(0.0, 0.0, -5.0), vector(0.0, 0.0, 1.0));
    let intersection = at(4.0, 3);

    let comps = intersection.prepare_computations(&ray, point(0.0, 0.0, -1.0), vector(0.0, 0.0, -1.0), scalar(1.0));

    assert_eq!(
        comps,
        Computation {
            t: scalar(4.0),
            object: 3,
            point: point(0.0, 0.0, -1.0),
            eyev: vector(-0.0, -0.0, -1.0),
            normalv: vector(0.0, 0.0, -1.0),
            inside: false,
        }
    );
}

#[test]
fn test_computation_of_a_hit_from_inside() {
    let ray = Ray::new(point(0.0, 0.0, 0.0), vector(0.0, 0.0, 1.0));
    let intersection = at(1.0, 0);

    let comps = intersection.prepare_computations(&ray, point(0.0, 0.0, 1.0), vector(0.0, 0.0, 1.0), scalar(-1.0));

    assert_eq!(
        comps,
        Computation {
            t: scalar(1.0),
            object: 0,
            point: point(0.0, 0.0, 1.0),
            eyev: vector(-0.0, -0.0, -1.0),
            normalv: vector(-0.0, -0.0, -1.0),
            inside: true,
        }
    );
}

#[test]
fn test_computation_on_the_edge() {
    let ray = Ray::new(point(0.0, 1.0, -5.0), vector(0.0, 0.0, 1.0));
    let normal = vector(0.0, 1.0, 0.0);

    let grazing = at(5.0, 0).prepare_computations(&ray, point(0.0, 1.0, 0.0), normal, scalar(0.0));
    assert!(!grazing.inside);
    assert_eq!(grazing.normalv, normal);

    let grazing = at(5.0, 0).prepare_computations(&ray, point(0.0, 1.0, 0.0), normal, scalar(-0.0));
    assert!(!grazing.inside);
    assert_eq!(grazing.normalv, normal);

    let unknown = at(5.0, 0).prepare_computations(&ray, point(0.0, 1.0, 0.0), normal, scalar(f64::NAN));
    assert!(!unknown.inside);
    assert_eq!(unknown.normalv, normal);

    let barely = at(5.0, 0).prepare_computations(&ray, point(0.0, 1.0, 0.0), normal, scalar(-1e-300));
    assert!(barely.inside);
    assert_eq!(barely.normalv, vector(-0.0, -1.0, -0.0));
}

fn sphere(transform: Matrix) -> Sphere {
    Sphere { transform, material: Material::default() }
}

fn number(s: Scalar) -> f64 {
    f64::from_bits(s.bits)
}

fn det2(a: Scalar, b: Scalar, c: Scalar, d: Scalar) -> Scalar {
    scalar(number(a) * number(d) - number(b) * number(c))
}

fn divide(a: Scalar, b: Scalar) -> Scalar {
    scalar(number(a) / number(b))
}

// Reports the z of the origin as discriminant, and the x of the origin and of
// the direction as roots.
fn told_roots(ray: &Ray) -> (Scalar, Scalar, Scalar) {
    (ray.origin.z, ray.origin.x, ray.direction.x)
}

#[test]
fn test_intersect_asks_for_the_roots_in_the_space_of_the_object() {
    let ray = Ray::new(point(4.0, 6.0, 8.0), vector(2.0, 0.0, 0.0));
    let doubled = sphere(raytracer::transform::scaling(scalar(2.0), scalar(2.0), scalar(2.0)));
    let moved = sphere(raytracer::transform::translation(scalar(1.0), scalar(0.0), scalar(10.0)));

    assert_eq!(
        ray.intersect(&Sphere::init(), 0, &det2, &whole_dot, &divide, &told_roots),
        vec![at(4.0, 0), at(2.0, 0)]
    );
    assert_eq!(ray.intersect(&doubled, 5, &det2, &whole_dot, &divide, &told_roots), vec![at(2.0, 5), at(1.0, 5)]);
    assert_eq!(ray.intersect(&moved, 1, &det2, &whole_dot, &divide, &told_roots), vec![]);
    assert_eq!(
        Ray::new(point(4.0, 6.0, 10.0), vector(2.0, 0.0, 0.0)).intersect(&moved, 1, &det2, &whole_dot, &divide, &told_roots),
        vec![at(3.0, 1), at(2.0, 1)]
    );
}

#[test]
fn test_normal_at_carries_the_normal_with_the_transposed_inverse() {
    let world_point = point(2.0, 4.0, 6.0);
    let as_it_is = |t: Tuple| t;
    let squeezed = sphere(raytracer::transform::scaling(scalar(1.0), scalar(2.0), scalar(4.0)));
    let moved = sphere(raytracer::transform::translation(scalar(1.0), scalar(2.0), scalar(3.0)));
    let mut rows = Matrix::identity(4).matrix;
    rows[0][1] = scalar(1.0);
    let sheared = sphere(Matrix::init(rows));

    // The identity changes nothing but w.
    assert_eq!(
        Sphere::init().normal_at(world_point, &det2, &whole_dot, &divide, &as_it_is, &as_it_is),
        vector(2.0, 4.0, 6.0)
    );
    // A scaling is its own transpose: the point is divided twice.
    assert_eq!(
        squeezed.normal_at(world_point, &det2, &whole_dot, &divide, &as_it_is, &as_it_is),
        vector(2.0, 1.0, 0.375)
    );
    // A move takes the point back; its transpose leaves x, y and z alone.
    assert_eq!(moved.normal_at(world_point, &det2, &whole_dot, &divide, &as_it_is, &as_it_is), vector(1.0, 2.0, 3.0));
    // A shear x' = x + y has the inverse x' = x - y, applied to the point as
    // it is and to the normal transposed.
    assert_eq!(
        sheared.normal_at(world_point, &det2, &whole_dot, &divide, &as_it_is, &as_it_is),
        vector(-2.0, 6.0, 6.0)
    );
}

#[test]
fn test_normal_at_asks_for_the_vector_and_for_its_unit() {
    let world_point = point(2.0, 4.0, 6.0);
    let halved = |t: Tuple| Tuple {
        x: scalar(number(t.x) / 2.0),
        y: scalar(number(t.y) / 2.0),
        z: scalar(number(t.z) / 2.0),
        w: t.w,
    };
    let marked = |t: Tuple| Tuple { x: t.x, y: t.y, z: t.z, w: scalar(number(t.w) + 7.0) };

    assert_eq!(
        Sphere::init().normal_at(world_point, &det2, &whole_dot, &divide, &halved, &marked),
        Tuple { x: scalar(1.0), y: scalar(2.0), z: scalar(3.0), w: scalar(7.0) }
    );
}

#[test]
fn test_a_new_sphere() {
    let s = Sphere::init();

    assert_eq!(s.transform, Matrix::identity(4));
    assert_eq!(s.material, Material::default());
    assert!(s.is_well_formed());
    assert!(!sphere(Matrix::identity(3)).is_well_formed());
    assert!(!sphere(Matrix::init(vec![vec![scalar(1.0)]; 4])).is_well_formed());
}

#[test]
fn test_the_default_material() {
    let m = Material::default();

    assert_eq!(number(m.color.red), 1.0);
    assert_eq!(number(m.color.green), 1.0);
    assert_eq!(number(m.color.blue), 1.0);
    assert_eq!(number(m.ambient), 0.1);
    assert_eq!(number(m.diffuse), 0.9);
    assert_eq!(number(m.specular), 0.9);
    assert_eq!(number(m.shininess), 200.0);
}

#[test]
fn test_position_goes_along_the_direction() {
    let ray = Ray::new(point(2.0, 3.0, 4.0), vector(1.0, 0.0, -2.0));
    let along = |o: Scalar, d: Scalar, t: Scalar| scalar(number(o) + number(d) * number(t));
    let plus = |a: Scalar, b: Scalar| scalar(number(a) + number(b));

    assert_eq!(ray.position(scalar(0.0), &along, &plus), point(2.0, 3.0, 4.0));
    assert_eq!(ray.position(scalar(1.0), &along, &plus), point(3.0, 3.0, 2.0));
    assert_eq!(ray.position(scalar(2.5), &along, &plus), point(4.5, 3.0, -1.0));
    assert_eq!(ray.position(scalar(-1.0), &along, &plus), point(1.0, 3.0, 6.0));
}

#[test]
fn test_position_adds_the_two_w() {
    let ray = Ray::new(point(2.0, 3.0, 4.0), point(1.0, 1.0, 1.0));
    let along = |o: Scalar, d: Scalar, t: Scalar| scalar(number(o) + number(d) * number(t));
    let plus = |a: Scalar, b: Scalar| scalar(number(a) + number(b));

    assert_eq!(ray.position(scalar(10.0), &along, &plus).w, scalar(2.0));
}
