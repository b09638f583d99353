use ray_rs::geometry::GVec;
use ray_rs::optics::{normal_offset, reflect, refract};

#[test]
fn reflect_at_an_axis_flips_that_component() {
    let i = GVec::from([3i64, -4, 5]);
    let n = GVec::from([0i64, 1, 0]);
    assert_eq!(reflect(i, n).0, [3, 4, 5]);
}

#[test]
fn reflect_is_the_direction_less_twice_its_part_along_the_normal() {
    let i = GVec::from([1i64, 2, 3]);
    let n = GVec::from([1i64, 1, 0]);
    assert_eq!(reflect(i, n).0, [1 - 2 * 3, 2 - 2 * 3, 3]);
    let f = GVec::from([0.5f32, -1.0, 0.25]);
    let m = GVec::from([0.0f32, 1.0, 0.0]);
    assert_eq!(reflect(f, m).0, [0.5, 1.0, 0.25]);
}

#[test]
fn reflect_keeps_the_length_and_negates_the_normal_component() {
    let i = GVec::from([3i64, -4, 5]);
    let n = GVec::from([0i64, 0, -1]);
    let r = reflect(i, n);
    assert_eq!(r.dot(n), -i.dot(n));
    assert_eq!(r.dot(r), i.dot(i));

    let d = GVec::from([0.6f32, -0.8, 0.0]);
    let up = GVec::from([0.0f32, 1.0, 0.0]);
    let m = reflect(d, up);
    assert!((m.norm() - d.norm()).abs() < 1e-6);
    assert!((m.dot(up) + d.dot(up)).abs() < 1e-6);

    let slanted = GVec::from([1.0f32, 2.0, -2.0]).normalize();
    let incoming = GVec::from([-0.3f32, 0.9, 0.1]).normalize();
    let bounced = reflect(incoming, slanted);
    assert!((bounced.norm() - 1.0).abs() < 1e-5);
    assert!((bounced.dot(slanted) + incoming.dot(slanted)).abs() < 1e-5);
}

fn v(x: f32, y: f32, z: f32) -> GVec<f32, 3> {
    GVec::<f32, 3>::new(x, y, z)
}

fn close(a: GVec<f32, 3>, b: GVec<f32, 3>, eps: f32) -> bool {
    (0..3).all(|k| (a[k] - b[k]).abs() <= eps)
}

#[test]
fn refract_at_index_one_keeps_an_entering_direction() {
    let n = v(0.0, 1.0, 0.0);
    let samples = [
        v(0.0, -1.0, 0.0),
        v(0.6, -0.8, 0.0),
        v(-0.3, -0.9, 0.1).normalize(),
        v(0.99, -0.1, 0.05).normalize(),
    ];
    for i in samples {
        let r = refract(i, n, 1.0);
        assert!(close(r, i, 1e-6), "{:?} {:?}", i, r);
    }
    let slanted = v(1.0, 2.0, -2.0).normalize();
    let incoming = v(-0.3, -0.9, 0.4).normalize();
    assert!(incoming.dot(slanted) < 0.0);
    assert!(close(refract(incoming, slanted, 1.0), incoming, 1e-6));
}

#[test]
fn refract_bends_towards_the_normal_in_a_denser_medium() {
    let n = v(0.0, 1.0, 0.0);
    let i = v(0.6, -0.8, 0.0);
    let r = refract(i, n, 1.5);
    assert!((r.norm() - 1.0).abs() < 1e-6);
    assert!((r[0] - 0.4).abs() < 1e-6);
    assert!((r[1] + (1.0f32 - 0.16).sqrt()).abs() < 1e-6);
    assert_eq!(r[2], 0.0);
}

#[test]
fn refract_past_the_critical_angle_gives_the_zero_vector() {
    let n = v(0.0, 1.0, 0.0);
    let grazing = v(1.0, 0.1, 0.0).normalize();
    assert_eq!(refract(grazing, n, 1.5).0, [0.0, 0.0, 0.0]);
    let steeper = v(1.0, 0.5, 0.0).normalize();
    assert_eq!(refract(steeper, n, 2.5).0, [0.0, 0.0, 0.0]);
}

#[test]
fn refract_of_a_leaving_ray_uses_the_index_of_the_medium() {
    let n = v(0.0, 1.0, 0.0);
    let i = v(0.0, 1.0, 0.0);
    let r = refract(i, n, 1.5);
    assert!(close(r, v(0.0, 1.5 + 2.5, 0.0), 1e-6), "{:?}", r);
    let slanted = refract(v(0.6, 0.8, 0.0), n, 1.0);
    assert!(close(slanted, v(0.6, 0.8 + 1.6, 0.0), 1e-6), "{:?}", slanted);
}

#[test]
fn normal_offset_steps_to_the_side_of_the_direction() {
    let hit = v(1.0, 2.0, 3.0);
    let n = v(0.0, 1.0, 0.0);
    assert_eq!(normal_offset(hit, n, v(0.0, 1.0, 0.0)).0, [1.0, 2.0f32 + 1e-3f32, 3.0]);
    assert_eq!(normal_offset(hit, n, v(0.6, 0.8, 0.0)).0, [1.0, 2.0f32 + 1e-3f32, 3.0]);
    assert_eq!(normal_offset(hit, n, v(0.6, -0.8, 0.0)).0, [1.0, 2.0f32 - 1e-3f32, 3.0]);
    let slanted = v(0.0, 0.6, 0.8);
    let out = normal_offset(hit, slanted, v(0.0, 0.0, -1.0));
    assert!(close(out, v(1.0, 2.0 - 0.6e-3, 3.0 - 0.8e-3), 1e-6));
}
