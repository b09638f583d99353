use ray_rs::camera::{primary_direction, tone_clamp, MAX_DEPTH};
use ray_rs::geometry::GVec;
use ray_rs::render::View;
use ray_rs::scene::{Light, Scene};
use ray_rs::sphere::{Material, Sphere};

const FOV: f32 = std::f32::consts::PI / 3.0;

fn v(x: f32, y: f32, z: f32) -> GVec<f32, 3> {
    GVec::<f32, 3>::new(x, y, z)
}

fn material(colour: [f32; 3], albedo: [f32; 4], exponent: f32, index: f32) -> Material<f32> {
    Material {
        diffuse_color: GVec::from(colour),
        albedo: GVec::from(albedo),
        refractive_index: index,
        specular_exp: exponent,
    }
}

fn materials() -> [Material<f32>; 4] {
    [
        material([0.4, 0.4, 0.3], [0.6, 0.3, 0.1, 0.0], 50.0, 1.0),
        material([0.6, 0.7, 0.8], [0.0, 0.5, 0.1, 0.8], 125.0, 2.5),
        material([0.3, 0.1, 0.1], [0.9, 0.1, 0.0, 0.0], 10.0, 1.0),
        material([1.0, 1.0, 1.0], [0.2, 10.0, 0.8, 0.0], 1425.0, 1.0),
    ]
}

fn canonical(m: &[Material<f32>; 4]) -> Scene<'_, f32> {
    Scene::new(
        vec![
            Sphere::new(v(-3.0, 0.0, -16.0), 2.0, &m[0]),
            Sphere::new(v(-1.0, -1.5, -12.0), 2.0, &m[1]),
            Sphere::new(v(1.5, -0.5, -18.0), 3.0, &m[2]),
            Sphere::new(v(7.0, 5.0, -18.0), 4.0, &m[3]),
        ],
        vec![
            Light::new(v(-20.0, 20.0, 20.0), 1.5),
            Light::new(v(30.0, 50.0, -25.0), 1.8),
            Light::new(v(30.0, 20.0, 30.0), 1.7),
        ],
    )
}

#[test]
fn depth_of_a_primary_ray() {
    assert_eq!(MAX_DEPTH, 10);
}

#[test]
fn primary_direction_follows_the_pixel_grid() {
    let d = primary_direction(1024, 768, FOV, 512, 384);
    let fov = std::hint::black_box(FOV);
    let z = -768.0f32 / (2.0 * f32::tan(fov / 2.0));
    let expected = v(0.5, -0.5, z).normalize();
    assert_eq!(d.0, expected.0);
    assert!(d[0].abs() < 1e-3 && d[1].abs() < 1e-3 && (d[2] + 1.0).abs() < 1e-6);

    let corner = primary_direction(1024, 768, FOV, 0, 0);
    assert_eq!(corner.0, v(0.5 - 512.0, -0.5 + 384.0, z).normalize().0);
    let last = primary_direction(1024, 768, FOV, 1023, 767);
    assert_eq!(last.0, v(1023.5 - 512.0, -767.5 + 384.0, z).normalize().0);
    assert!((corner.norm() - 1.0).abs() < 1e-6);
}

#[test]
fn tone_clamp_divides_bright_pixels_by_their_largest_channel() {
    assert_eq!(tone_clamp(v(0.2, 0.7, 0.8)).0, [0.2, 0.7, 0.8]);
    assert_eq!(tone_clamp(v(1.0, 1.0, 1.0)).0, [1.0, 1.0, 1.0]);
    assert_eq!(tone_clamp(v(2.0, 1.0, 0.5)).0, [1.0, 0.5, 0.25]);
    assert_eq!(tone_clamp(v(0.5, 4.0, 1.0)).0, [0.125, 1.0, 0.25]);
    assert_eq!(tone_clamp(v(0.5, 1.0, 8.0)).0, [0.0625, 0.125, 1.0]);
}

#[test]
fn the_centre_ray_looks_down_the_axis_at_the_glass_sphere() {
    let m = materials();
    let scene = canonical(&m);
    let dir = primary_direction(1024, 768, FOV, 512, 384);
    let (hit, _, found) = scene.scene_intersect(v(0.0, 0.0, 0.0), dir).unwrap();
    assert_eq!(found.refractive_index, 2.5);
    assert!(hit[2] < -10.0 && hit[2] > -12.0);
}

#[test]
fn a_pixel_that_sees_only_sky_has_the_sky_bytes() {
    let m = materials();
    let scene = canonical(&m);
    let view = View::new(1024, 768, FOV);
    let pixel = view.pixel(&scene, 0, 0);
    assert_eq!(pixel.0, [0.2, 0.7, 0.8]);
    let frame = View::new(1, 1, FOV).render_with(|_, _| pixel);
    assert_eq!(frame.as_rgb(), vec![51, 179, 204]);
}

#[test]
fn the_red_rubber_sphere_is_red() {
    let m = materials();
    let scene = canonical(&m);
    let dir = v(1.5, -0.5, -18.0).normalize();
    let (_, _, found) = scene.scene_intersect(v(0.0, 0.0, 0.0), dir).unwrap();
    assert_eq!(found.diffuse_color.0, [0.3, 0.1, 0.1]);
    let pixel = scene.cast_ray(v(0.0, 0.0, 0.0), dir, MAX_DEPTH);
    assert!(pixel[0] > 0.0);
    assert!(pixel[1] < 0.75 * pixel[0], "{:?}", pixel);
    assert!(pixel[2] < 0.75 * pixel[0], "{:?}", pixel);
}

#[test]
fn the_mirror_sphere_shows_the_sky_with_a_white_gleam() {
    let m = materials();
    let scene = canonical(&m);
    let dir = v(7.0, 5.0, -18.0).normalize();
    let (_, _, found) = scene.scene_intersect(v(0.0, 0.0, 0.0), dir).unwrap();
    assert_eq!(found.albedo.0, [0.2, 10.0, 0.8, 0.0]);
    let pixel = scene.cast_ray(v(0.0, 0.0, 0.0), dir, MAX_DEPTH);
    let gleam = [pixel[0] - 0.8 * 0.2, pixel[1] - 0.8 * 0.7, pixel[2] - 0.8 * 0.8];
    assert!(gleam[0] >= 0.0, "{:?}", pixel);
    assert!((gleam[0] - gleam[1]).abs() < 1e-4, "{:?}", pixel);
    assert!((gleam[0] - gleam[2]).abs() < 1e-4, "{:?}", pixel);
}

#[test]
fn bright_pixels_are_clamped_to_one() {
    let m = materials();
    let scene = canonical(&m);
    let view = View::new(32, 24, FOV);
    let mut clamped = 0;
    for j in 0..24 {
        for i in 0..32 {
            let dir = primary_direction(32, 24, FOV, i, j);
            let radiance = scene.cast_ray(v(0.0, 0.0, 0.0), dir, MAX_DEPTH);
            let pixel = view.pixel(&scene, i, j);
            let top = radiance[0].max(radiance[1]).max(radiance[2]);
            if top > 1.0 {
                clamped += 1;
                assert!((pixel[0].max(pixel[1]).max(pixel[2]) - 1.0).abs() < 1e-6);
            } else {
                assert_eq!(pixel.0, radiance.0);
            }
        }
    }
    assert!(clamped > 0);
}

#[test]
fn render_shades_every_pixel_of_the_scene() {
    let m = materials();
    let scene = canonical(&m);
    let frame = View::new(16, 12, FOV).render(&scene);
    assert_eq!(frame.width(), 16);
    assert_eq!(frame.height(), 12);
    assert_eq!(frame.framebuffer().len(), 16 * 12);
    let view = View::new(16, 12, FOV);
    for j in 0..12 {
        for i in 0..16 {
            assert_eq!(frame.pixel(i, j).0, view.pixel(&scene, i, j).0);
        }
    }
    assert_eq!(frame.pixel(0, 0).0, [0.2, 0.7, 0.8]);
}

#[test]
fn rendering_the_scene_twice_gives_the_same_bytes() {
    let m = materials();
    let scene = canonical(&m);
    let first = View::new(32, 24, FOV).render(&scene).to_ppm();
    let second = View::new(32, 24, FOV).render(&scene).to_ppm();
    assert_eq!(first.len(), b"P6\n32 24\n255\n".len() + 32 * 24 * 3);
    assert_eq!(&first[..13], b"P6\n32 24\n255\n");
    assert_eq!(first, second);
    let rgba = View::new(32, 24, FOV).render(&scene).as_u8();
    assert_eq!(rgba.len(), 32 * 24 * 4);
    for k in 0..32 * 24 {
        assert_eq!(&rgba[4 * k..4 * k + 3], &first[13 + 3 * k..13 + 3 * k + 3]);
        assert_eq!(rgba[4 * k + 3], 255);
    }
}
