use ray_rs::geometry::GVec;
use ray_rs::scene::{
    board_surface, cell, checker_is_light, ground_distance, on_board, tile_colour, Light, Scene,
};
use ray_rs::sphere::{Material, Sphere};

fn v(x: f32, y: f32, z: f32) -> GVec<f32, 3> {
    GVec::<f32, 3>::new(x, y, z)
}

fn matte(r: f32, g: f32, b: f32) -> Material<f32> {
    Material {
        diffuse_color: v(r, g, b),
        albedo: GVec::from([1.0, 0.0, 0.0, 0.0]),
        refractive_index: 1.0,
        specular_exp: 0.0,
    }
}

#[test]
fn light_keeps_its_parameters() {
    let light = Light::new(v(1.0, 2.0, 3.0), 1.5f32);
    assert_eq!(light.position().0, [1.0, 2.0, 3.0]);
    assert_eq!(*light.intensity(), 1.5);
}

#[test]
fn scene_keeps_its_spheres_and_lights_in_order() {
    let m = matte(1.0, 0.0, 0.0);
    let scene = Scene::new(
        vec![Sphere::new(v(0.0, 0.0, -5.0), 1.0, &m), Sphere::new(v(0.0, 0.0, -9.0), 2.0, &m)],
        vec![Light::new(v(0.0, 9.0, 0.0), 1.0)],
    );
    assert_eq!(scene.spheres().len(), 2);
    assert_eq!(scene.spheres()[1].radius, 2.0);
    assert_eq!(scene.lights().len(), 1);
}

#[test]
fn ray_into_an_empty_sky_meets_nothing() {
    let scene: Scene<f32> = Scene::new(vec![], vec![]);
    assert!(scene.scene_intersect(v(0.0, 0.0, 0.0), v(0.0, 1.0, 0.0)).is_none());
    assert!(scene.scene_intersect(v(0.0, 0.0, 0.0), v(0.0, 0.0, -1.0)).is_none());
    assert!(scene.scene_intersect(v(0.0, 0.0, 0.0), v(1.0, 0.0, 0.0)).is_none());
}

#[test]
fn the_nearest_of_two_spheres_is_met_whatever_their_order() {
    let red = matte(1.0, 0.0, 0.0);
    let green = matte(0.0, 1.0, 0.0);
    let near = || Sphere::new(v(0.0, 0.0, -5.0), 1.0, &red);
    let far = || Sphere::new(v(0.0, 0.0, -9.0), 2.0, &green);
    for spheres in [vec![near(), far()], vec![far(), near()]] {
        let scene = Scene::new(spheres, vec![]);
        let (hit, n, material) = scene.scene_intersect(v(0.0, 0.0, 0.0), v(0.0, 0.0, -1.0)).unwrap();
        assert_eq!(hit.0, [0.0, 0.0, -4.0]);
        assert_eq!(n.0, [0.0, 0.0, 1.0]);
        assert_eq!(material.diffuse_color.0, [1.0, 0.0, 0.0]);
    }
}

#[test]
fn nearest_sphere_starts_from_the_far_end() {
    let scene: Scene<f32> = Scene::new(vec![], vec![]);
    let nearest = scene.nearest_sphere(v(0.0, 0.0, 0.0), v(0.0, 0.0, -1.0));
    assert_eq!(nearest.dist, f32::MAX);
    let m = matte(1.0, 0.0, 0.0);
    let scene = Scene::new(vec![Sphere::new(v(0.0, 0.0, -5.0), 1.0, &m)], vec![]);
    let nearest = scene.nearest_sphere(v(0.0, 0.0, 0.0), v(0.0, 0.0, -1.0));
    assert_eq!(nearest.dist, 4.0);
    assert_eq!(nearest.surface.0 .0, [0.0, 0.0, -4.0]);
}

#[test]
fn the_normal_of_a_sphere_points_away_from_its_centre() {
    let m = matte(1.0, 0.0, 0.0);
    let scene = Scene::new(vec![Sphere::new(v(0.0, 3.0, -10.0), 5.0, &m)], vec![]);
    let (hit, n, _) = scene.scene_intersect(v(0.0, 0.0, 0.0), v(0.0, 0.0, -1.0)).unwrap();
    assert_eq!(hit.0, [0.0, 0.0, -6.0]);
    assert!((n[0]).abs() < 1e-6 && (n[1] + 0.6).abs() < 1e-6 && (n[2] - 0.8).abs() < 1e-6);
}

#[test]
fn the_board_is_met_between_its_edges() {
    let scene: Scene<f32> = Scene::new(vec![], vec![]);
    let dir = v(0.0, -0.3, -1.0).normalize();
    let (hit, n, material) = scene.scene_intersect(v(0.0, 0.0, 0.0), dir).unwrap();
    assert!((hit[1] + 4.0).abs() < 1e-5);
    assert!((hit[2] + 4.0 / 0.3).abs() < 1e-4);
    assert_eq!(n.0, [0.0, 1.0, 0.0]);
    assert_eq!(material.albedo.0, [1.0, 0.0, 0.0, 0.0]);
    assert_eq!(material.refractive_index, 1.0);
    assert_eq!(material.specular_exp, 0.0);
    assert_eq!(material.diffuse_color.0, [0.9f32 * 0.3, 0.9f32 * 0.3, 0.9f32 * 0.3]);

    let beside = v(0.2, -0.3, -1.0).normalize();
    let (hit, _, material) = scene.scene_intersect(v(0.0, 0.0, 0.0), beside).unwrap();
    assert!((hit[0] - 0.2 * 4.0 / 0.3).abs() < 1e-4);
    assert_eq!(material.diffuse_color.0, [0.92f32 * 0.3, 0.69f32 * 0.3, 0.078f32 * 0.3]);
}

#[test]
fn the_board_ends_at_its_edges() {
    let scene: Scene<f32> = Scene::new(vec![], vec![]);
    let o = v(0.0, 0.0, 0.0);
    assert!(scene.scene_intersect(o, v(0.0, -0.5, -1.0).normalize()).is_none());
    assert!(scene.scene_intersect(o, v(0.0, -0.1, -1.0).normalize()).is_none());
    assert!(scene.scene_intersect(o, v(0.8, -0.3, -1.0).normalize()).is_none());
    assert!(scene.scene_intersect(o, v(-0.8, -0.3, -1.0).normalize()).is_none());
    assert!(scene.scene_intersect(o, v(0.0, 0.3, -1.0).normalize()).is_none());
    assert!(scene.scene_intersect(o, v(0.0, -0.3, 1.0).normalize()).is_none());
    assert!(scene.scene_intersect(o, v(0.7, -0.3, -1.0).normalize()).is_some());
}

#[test]
fn a_ray_along_the_ground_does_not_meet_the_board() {
    let scene: Scene<f32> = Scene::new(vec![], vec![]);
    assert!(scene.scene_intersect(v(0.0, -3.99, 0.0), v(0.0, -0.0005, -1.0)).is_none());
    assert!(scene.scene_intersect(v(0.0, -3.96, 0.0), v(0.0, -0.002, -1.0).normalize()).is_some());
}

#[test]
fn a_sphere_in_front_hides_the_board() {
    let m = matte(0.0, 0.0, 1.0);
    let scene = Scene::new(vec![Sphere::new(v(0.0, -2.0, -8.0), 1.5, &m)], vec![]);
    let dir = v(0.0, -0.3, -1.0).normalize();
    let (hit, _, material) = scene.scene_intersect(v(0.0, 0.0, 0.0), dir).unwrap();
    assert!(hit[2] > -8.0);
    assert_eq!(material.diffuse_color.0, [0.0, 0.0, 1.0]);
}

#[test]
fn the_board_in_front_hides_a_sphere() {
    let m = matte(0.0, 0.0, 1.0);
    let scene = Scene::new(vec![Sphere::new(v(0.0, -7.0, -20.0), 1.0, &m)], vec![]);
    let dir = v(0.0, -7.0, -20.0).normalize();
    let (hit, n, material) = scene.scene_intersect(v(0.0, 0.0, 0.0), dir).unwrap();
    assert!((hit[1] + 4.0).abs() < 1e-5);
    assert_eq!(n.0, [0.0, 1.0, 0.0]);
    assert_eq!(material.albedo.0, [1.0, 0.0, 0.0, 0.0]);
    assert!(material.diffuse_color[0] > 0.2);
}

#[test]
fn surfaces_beyond_reach_are_not_met() {
    let m = matte(1.0, 1.0, 1.0);
    let scene = Scene::new(vec![Sphere::new(v(0.0, 0.0, -20000.0), 5000.0, &m)], vec![]);
    assert!(scene.scene_intersect(v(0.0, 0.0, 0.0), v(0.0, 0.0, -1.0)).is_none());
    let scene = Scene::new(vec![Sphere::new(v(0.0, 0.0, -14000.0), 5000.0, &m)], vec![]);
    assert!(scene.scene_intersect(v(0.0, 0.0, 0.0), v(0.0, 0.0, -1.0)).is_some());
}

#[test]
fn ground_distance_is_the_height_over_the_descent() {
    assert_eq!(ground_distance(v(0.0, 0.0, 0.0), v(0.0, -1.0, 0.0)), 4.0);
    assert_eq!(ground_distance(v(0.0, 2.0, 0.0), v(0.0, -0.5, 0.0)), 12.0);
    assert_eq!(ground_distance(v(0.0, 0.0, 0.0), v(0.0, 1.0, 0.0)), -4.0);
}

#[test]
fn on_board_tests_all_five_bounds() {
    assert!(on_board(5.0f32, v(0.0, -4.0, -20.0), f32::MAX));
    assert!(!on_board(0.0f32, v(0.0, -4.0, -20.0), f32::MAX));
    assert!(!on_board(-1.0f32, v(0.0, -4.0, -20.0), f32::MAX));
    assert!(!on_board(5.0f32, v(10.0, -4.0, -20.0), f32::MAX));
    assert!(!on_board(5.0f32, v(-10.0, -4.0, -20.0), f32::MAX));
    assert!(on_board(5.0f32, v(-9.99, -4.0, -20.0), f32::MAX));
    assert!(!on_board(5.0f32, v(0.0, -4.0, -10.0), f32::MAX));
    assert!(!on_board(5.0f32, v(0.0, -4.0, -30.0), f32::MAX));
    assert!(on_board(5.0f32, v(0.0, -4.0, -29.99), f32::MAX));
    assert!(!on_board(5.0f32, v(0.0, -4.0, -20.0), 5.0));
    assert!(on_board(5.0f32, v(0.0, -4.0, -20.0), 5.001));
}

#[test]
fn cells_are_coordinates_rounded_down() {
    assert_eq!(cell(1000.0f32), 1000);
    assert_eq!(cell(1001.95f32), 1001);
    assert_eq!(cell(999.95f32), 999);
    assert_eq!(cell(-6.65f32), -7);
    assert_eq!(cell(-7.0f32), -7);
    assert_eq!(cell(-7.05f32), -8);
    assert_eq!(cell(0.5f32), 0);
    assert_eq!(cell(-0.5f32), -1);
    assert_eq!(cell(f32::NAN), 0);
    assert_eq!(cell(1e30f32), 0);
    assert_eq!(cell(-1e30f32), 0);
}

#[test]
fn tiles_come_in_two_colours() {
    assert_eq!(tile_colour::<f32>(true).0, [0.9 * 0.3, 0.9 * 0.3, 0.9 * 0.3]);
    assert_eq!(tile_colour::<f32>(false).0, [0.92 * 0.3, 0.69 * 0.3, 0.078 * 0.3]);
}

#[test]
fn neighbouring_tiles_differ() {
    let light = board_surface(v(0.5, -4.0, -13.0));
    let dark = board_surface(v(2.5, -4.0, -13.0));
    let also_dark = board_surface(v(0.5, -4.0, -15.0));
    assert_eq!(light.0 .0, [0.5, -4.0, -13.0]);
    assert_eq!(light.1 .0, [0.0, 1.0, 0.0]);
    assert_eq!(light.2.diffuse_color.0, tile_colour::<f32>(true).0);
    assert_eq!(dark.2.diffuse_color.0, tile_colour::<f32>(false).0);
    assert_eq!(also_dark.2.diffuse_color.0, tile_colour::<f32>(false).0);
}

#[test]
fn checker_cells_alternate() {
    assert!(!checker_is_light(0, 0));
    assert!(checker_is_light(1, 0));
    assert!(checker_is_light(0, 1));
    assert!(!checker_is_light(1, 1));
    assert!(checker_is_light(1000, -5));
    assert!(!checker_is_light(1000, -6));
    assert!(!checker_is_light(995, -15));
    assert!(checker_is_light(1005, -6));
}

#[test]
fn checker_is_defined_on_all_cells() {
    assert!(checker_is_light(-1, 0));
    assert!(checker_is_light(0, -1));
    assert!(!checker_is_light(-1, -1));
    assert!(!checker_is_light(i32::MAX, i32::MAX));
    assert!(checker_is_light(i32::MAX, i32::MIN));
    assert!(!checker_is_light(i32::MIN, i32::MIN));
}
