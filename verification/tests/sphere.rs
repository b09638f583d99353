use ray_rs::geometry::GVec;
use ray_rs::sphere::{Material, Sphere};

fn v(x: f32, y: f32, z: f32) -> GVec<f32, 3> {
    GVec::<f32, 3>::new(x, y, z)
}

#[test]
fn default_material_is_black_and_purely_diffuse() {
    let m = Material::<f32>::default();
    assert_eq!(m.diffuse_color.0, [0.0, 0.0, 0.0]);
    assert_eq!(m.albedo.0, [1.0, 0.0, 0.0, 0.0]);
    assert_eq!(m.refractive_index, 1.0);
    assert_eq!(m.specular_exp, 0.0);
}

#[test]
fn sphere_keeps_its_parameters() {
    let m = Material::<f32>::default();
    let s = Sphere::new(v(1.0, 2.0, 3.0), 4.0, &m);
    assert_eq!(s.center.0, [1.0, 2.0, 3.0]);
    assert_eq!(s.radius, 4.0);
    assert_eq!(s.material.albedo.0, m.albedo.0);
}

#[test]
fn ray_at_the_centre_hits_at_the_distance_less_the_radius() {
    let m = Material::<f32>::default();
    let s = Sphere::new(v(0.0, 0.0, -10.0), 2.0, &m);
    assert_eq!(s.ray_intersect(v(0.0, 0.0, 0.0), v(0.0, 0.0, -1.0)), Some(8.0));

    let c = v(3.0, 4.0, -12.0);
    let s = Sphere::new(c, 1.0, &m);
    let t = s.ray_intersect(v(0.0, 0.0, 0.0), c.normalize()).unwrap();
    assert!((t - 12.0).abs() < 1e-4, "{}", t);

    let o = v(1.0, -2.0, 5.0);
    let s = Sphere::new(v(-3.0, 1.0, -7.0), 2.5, &m);
    let to_centre = s.center - o;
    let t = s.ray_intersect(o, to_centre.normalize()).unwrap();
    assert!((t - (to_centre.norm() - 2.5)).abs() < 1e-4, "{}", t);
}

#[test]
fn ray_that_passes_beyond_the_radius_misses() {
    let m = Material::<f32>::default();
    let s = Sphere::new(v(0.0, 3.0, -10.0), 2.0, &m);
    assert_eq!(s.ray_intersect(v(0.0, 0.0, 0.0), v(0.0, 0.0, -1.0)), None);
    let s = Sphere::new(v(2.001, 0.0, -5.0), 2.0, &m);
    assert_eq!(s.ray_intersect(v(0.0, 0.0, 0.0), v(0.0, 0.0, -1.0)), None);
}

#[test]
fn ray_from_inside_leaves_by_the_far_root() {
    let m = Material::<f32>::default();
    let s = Sphere::new(v(0.0, 0.0, -10.0), 2.0, &m);
    assert_eq!(s.ray_intersect(v(0.0, 0.0, -10.0), v(0.0, 0.0, -1.0)), Some(2.0));
    assert_eq!(s.ray_intersect(v(0.0, 0.0, -9.0), v(0.0, 0.0, -1.0)), Some(3.0));
    assert_eq!(s.ray_intersect(v(0.0, 0.0, -9.0), v(0.0, 0.0, 1.0)), Some(1.0));
}

#[test]
fn tangent_ray_hits_at_the_nearest_point() {
    let m = Material::<f32>::default();
    let s = Sphere::new(v(0.0, 2.0, -10.0), 2.0, &m);
    assert_eq!(s.ray_intersect(v(0.0, 0.0, 0.0), v(0.0, 0.0, -1.0)), Some(10.0));
}

#[test]
fn sphere_behind_the_origin_is_not_hit() {
    let m = Material::<f32>::default();
    let s = Sphere::new(v(0.0, 0.0, 10.0), 2.0, &m);
    assert_eq!(s.ray_intersect(v(0.0, 0.0, 0.0), v(0.0, 0.0, -1.0)), None);
}

#[test]
fn intersection_works_in_double_precision_too() {
    let m = Material::<f64>::default();
    let s = Sphere::new(GVec::<f64, 3>::new(0.0, 0.0, -10.0), 2.0, &m);
    let o = GVec::<f64, 3>::new(0.0, 0.0, 0.0);
    let d = GVec::<f64, 3>::new(0.0, 0.0, -1.0);
    assert_eq!(s.ray_intersect(o, d), Some(8.0));
}
