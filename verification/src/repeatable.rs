//! Every computation of the library is repeatable where the scalar's
//! operations are: if each scalar operation has one result for its operands,
//! then so has each relation of the library for its inputs, up to the image
//! of a scene and its bytes.

use vstd::prelude::*;
use vstd::view::View as _;
use num_traits::{Float, Num};
use crate::camera::{is_pixel, is_primary, is_tone_clamped, MAX_DEPTH};
use crate::encode::{is_byte, is_ppm, lemma_pixmap_repeatable, to_byte};
use crate::geometry::{
    is_difference, is_dot, is_inner, is_negation, is_norm, is_normalized, is_scaled, is_sum,
    lemma_view_injective, triple,
};
use crate::optics::{is_bend, is_incidence, is_offset, is_reflection, is_refraction};
use crate::render::{lemma_grid_position, Frame, View};
use crate::scalar::{
    adds, divides, greater, is_abs, is_floor, is_greatest, is_i32_of, is_max, is_min, is_natural,
    is_one, is_power, is_ratio, is_root, is_rounded, is_signum, is_tangent, is_u8_of, is_zero,
    less, multiplies, negates, subtracts, Scalar,
};
use crate::scene::{
    is_board_surface, is_cell, is_ground_distance, is_ground_step, is_nearest, is_nearest_sphere,
    is_nothing, is_on_board, is_scene_hit, is_sphere_choice, is_sphere_step, is_sphere_surface,
    is_tile_colour, Hit, Light, Nearest, Scene,
};
use crate::shading::{
    is_bounce, is_illumination, is_light_step, is_lit, is_radiance, is_shade, is_shadowed,
    is_sky, Lighting,
};
use crate::sphere::{is_default_material, is_intersection, is_nearest_root, Material, Sphere};

verus! {

/// The scalar's operations are functions: each has one result for its
/// operands.
pub open spec fn functional<T: Float + Num + Scalar>() -> bool {
    &&& forall|x: T, y: T, a: T, b: T|
        #![trigger adds(x, y, a), adds(x, y, b)]
        adds(x, y, a) && adds(x, y, b) ==> a == b
    &&& forall|x: T, y: T, a: T, b: T|
        #![trigger subtracts(x, y, a), subtracts(x, y, b)]
        subtracts(x, y, a) && subtracts(x, y, b) ==> a == b
    &&& forall|x: T, y: T, a: T, b: T|
        #![trigger multiplies(x, y, a), multiplies(x, y, b)]
        multiplies(x, y, a) && multiplies(x, y, b) ==> a == b
    &&& forall|x: T, y: T, a: T, b: T|
        #![trigger divides(x, y, a), divides(x, y, b)]
        divides(x, y, a) && divides(x, y, b) ==> a == b
    &&& forall|x: T, a: T, b: T|
        #![trigger negates(x, a), negates(x, b)]
        negates(x, a) && negates(x, b) ==> a == b
    &&& forall|x: T, y: T, a: bool, b: bool|
        #![trigger less(x, y, a), less(x, y, b)]
        less(x, y, a) && less(x, y, b) ==> a == b
    &&& forall|x: T, y: T, a: bool, b: bool|
        #![trigger greater(x, y, a), greater(x, y, b)]
        greater(x, y, a) && greater(x, y, b) ==> a == b
    &&& forall|a: T, b: T| #![trigger is_zero(a), is_zero(b)] is_zero(a) && is_zero(b) ==> a == b
    &&& forall|a: T, b: T| #![trigger is_one(a), is_one(b)] is_one(a) && is_one(b) ==> a == b
    &&& forall|a: T, b: T|
        #![trigger is_greatest(a), is_greatest(b)]
        is_greatest(a) && is_greatest(b) ==> a == b
    &&& forall|x: T, a: T, b: T|
        #![trigger is_root(x, a), is_root(x, b)]
        is_root(x, a) && is_root(x, b) ==> a == b
    &&& forall|x: T, a: T, b: T|
        #![trigger is_abs(x, a), is_abs(x, b)]
        is_abs(x, a) && is_abs(x, b) ==> a == b
    &&& forall|x: T, a: T, b: T|
        #![trigger is_signum(x, a), is_signum(x, b)]
        is_signum(x, a) && is_signum(x, b) ==> a == b
    &&& forall|x: T, a: T, b: T|
        #![trigger is_tangent(x, a), is_tangent(x, b)]
        is_tangent(x, a) && is_tangent(x, b) ==> a == b
    &&& forall|x: T, a: T, b: T|
        #![trigger is_floor(x, a), is_floor(x, b)]
        is_floor(x, a) && is_floor(x, b) ==> a == b
    &&& forall|x: T, a: T, b: T|
        #![trigger is_rounded(x, a), is_rounded(x, b)]
        is_rounded(x, a) && is_rounded(x, b) ==> a == b
    &&& forall|x: T, y: T, a: T, b: T|
        #![trigger is_max(x, y, a), is_max(x, y, b)]
        is_max(x, y, a) && is_max(x, y, b) ==> a == b
    &&& forall|x: T, y: T, a: T, b: T|
        #![trigger is_min(x, y, a), is_min(x, y, b)]
        is_min(x, y, a) && is_min(x, y, b) ==> a == b
    &&& forall|x: T, y: T, a: T, b: T|
        #![trigger is_power(x, y, a), is_power(x, y, b)]
        is_power(x, y, a) && is_power(x, y, b) ==> a == b
    &&& forall|x: T, a: Option<i32>, b: Option<i32>|
        #![trigger is_i32_of(x, a), is_i32_of(x, b)]
        is_i32_of(x, a) && is_i32_of(x, b) ==> a == b
    &&& forall|x: T, a: Option<u8>, b: Option<u8>|
        #![trigger is_u8_of(x, a), is_u8_of(x, b)]
        is_u8_of(x, a) && is_u8_of(x, b) ==> a == b
}

/// Sums, differences and scalings are repeatable.
pub proof fn lemma_componentwise<T: Float + Num + Scalar>()
    requires
        functional::<T>(),
    ensures
        forall|a: Seq<T>, b: Seq<T>, x: Seq<T>, y: Seq<T>|
            #![trigger is_sum(a, b, x), is_sum(a, b, y)]
            is_sum(a, b, x) && is_sum(a, b, y) ==> x == y,
        forall|a: Seq<T>, b: Seq<T>, x: Seq<T>, y: Seq<T>|
            #![trigger is_difference(a, b, x), is_difference(a, b, y)]
            is_difference(a, b, x) && is_difference(a, b, y) ==> x == y,
        forall|a: Seq<T>, k: T, x: Seq<T>, y: Seq<T>|
            #![trigger is_scaled(a, k, x), is_scaled(a, k, y)]
            is_scaled(a, k, x) && is_scaled(a, k, y) ==> x == y,
{
    assert forall|a: Seq<T>, b: Seq<T>, x: Seq<T>, y: Seq<T>|
        is_sum(a, b, x) && is_sum(a, b, y) implies x == y by {
        assert(x =~= y);
    }
    assert forall|a: Seq<T>, b: Seq<T>, x: Seq<T>, y: Seq<T>|
        is_difference(a, b, x) && is_difference(a, b, y) implies x == y by {
        assert(x =~= y);
    }
    assert forall|a: Seq<T>, k: T, x: Seq<T>, y: Seq<T>|
        is_scaled(a, k, x) && is_scaled(a, k, y) implies x == y by {
        assert(x =~= y);
    }
}

/// Inner products are repeatable.
pub proof fn lemma_inner<T: Float + Num + Scalar>(z: T, a: Seq<T>, b: Seq<T>, n: nat, x: T, y: T)
    requires
        functional::<T>(),
        is_inner(z, a, b, n, x),
        is_inner(z, a, b, n, y),
    ensures
        x == y,
    decreases n,
{
    if n > 0 {
        let (first_sum, first_product) = choose|acc: T, p: T|
            is_inner(z, a, b, (n - 1) as nat, acc) && multiplies(a[n - 1], b[n - 1], p) && adds(
                acc,
                p,
                x,
            );
        let (second_sum, second_product) = choose|acc: T, p: T|
            is_inner(z, a, b, (n - 1) as nat, acc) && multiplies(a[n - 1], b[n - 1], p) && adds(
                acc,
                p,
                y,
            );
        lemma_inner(z, a, b, (n - 1) as nat, first_sum, second_sum);
    }
}

/// Dot products, negations, norms and normalizations are repeatable.
pub proof fn lemma_vectors<T: Float + Num + Scalar>()
    requires
        functional::<T>(),
    ensures
        forall|a: Seq<T>, b: Seq<T>, x: T, y: T|
            #![trigger is_dot(a, b, x), is_dot(a, b, y)]
            is_dot(a, b, x) && is_dot(a, b, y) ==> x == y,
        forall|a: Seq<T>, x: Seq<T>, y: Seq<T>|
            #![trigger is_negation(a, x), is_negation(a, y)]
            is_negation(a, x) && is_negation(a, y) ==> x == y,
        forall|a: Seq<T>, x: T, y: T|
            #![trigger is_norm(a, x), is_norm(a, y)]
            is_norm(a, x) && is_norm(a, y) ==> x == y,
        forall|a: Seq<T>, x: Seq<T>, y: Seq<T>|
            #![trigger is_normalized(a, x), is_normalized(a, y)]
            is_normalized(a, x) && is_normalized(a, y) ==> x == y,
{
    lemma_componentwise::<T>();
    assert forall|a: Seq<T>, b: Seq<T>, x: T, y: T| is_dot(a, b, x) && is_dot(a, b, y) implies x
        == y by {
        let z1 = choose|z: T| is_zero(z) && is_inner(z, a, b, a.len(), x);
        let z2 = choose|z: T| is_zero(z) && is_inner(z, a, b, a.len(), y);
        lemma_inner(z1, a, b, a.len(), x, y);
    }
}

/// The scalars for the natural numbers are repeatable.
pub proof fn lemma_natural<T: Float + Num + Scalar>(n: nat, x: T, y: T)
    requires
        functional::<T>(),
        is_natural(n, x),
        is_natural(n, y),
    ensures
        x == y,
    decreases n,
{
    if n > 1 {
        let (half1, twice1, unit1) = choose|half: T, twice: T, unit: T|
            {
                &&& is_natural(n / 2, half)
                &&& adds(half, half, twice)
                &&& if n % 2 == 0 {
                    x == twice
                } else {
                    is_one(unit) && adds(twice, unit, x)
                }
            };
        let (half2, twice2, unit2) = choose|half: T, twice: T, unit: T|
            {
                &&& is_natural(n / 2, half)
                &&& adds(half, half, twice)
                &&& if n % 2 == 0 {
                    y == twice
                } else {
                    is_one(unit) && adds(twice, unit, y)
                }
            };
        lemma_natural(n / 2, half1, half2);
    }
}

/// The scalars for the natural numbers and for the fractions are
/// repeatable.
pub proof fn lemma_constants<T: Float + Num + Scalar>()
    requires
        functional::<T>(),
    ensures
        forall|n: nat, x: T, y: T|
            #![trigger is_natural(n, x), is_natural(n, y)]
            is_natural(n, x) && is_natural(n, y) ==> x == y,
        forall|p: nat, q: nat, x: T, y: T|
            #![trigger is_ratio(p, q, x), is_ratio(p, q, y)]
            is_ratio(p, q, x) && is_ratio(p, q, y) ==> x == y,
{
    assert forall|n: nat, x: T, y: T| is_natural(n, x) && is_natural(n, y) implies x == y by {
        lemma_natural(n, x, y);
    }
}

/// Reflections, refractions and offsets are repeatable.
pub proof fn lemma_optics<T: Float + Num + Scalar>()
    requires
        functional::<T>(),
    ensures
        forall|i: Seq<T>, n: Seq<T>, x: Seq<T>, y: Seq<T>|
            #![trigger is_reflection(i, n, x), is_reflection(i, n, y)]
            is_reflection(i, n, x) && is_reflection(i, n, y) ==> x == y,
        forall|i: Seq<T>, n: Seq<T>, index: T, x: Seq<T>, y: Seq<T>|
            #![trigger is_refraction(i, n, index, x), is_refraction(i, n, index, y)]
            is_refraction(i, n, index, x) && is_refraction(i, n, index, y) ==> x == y,
        forall|v: Seq<T>, n: Seq<T>, dir: Seq<T>, x: Seq<T>, y: Seq<T>|
            #![trigger is_offset(v, n, dir, x), is_offset(v, n, dir, y)]
            is_offset(v, n, dir, x) && is_offset(v, n, dir, y) ==> x == y,
{
    lemma_componentwise::<T>();
    lemma_vectors::<T>();
    lemma_constants::<T>();
    assert forall|i: Seq<T>, n: Seq<T>, x: T, y: T| is_incidence(i, n, x) && is_incidence(
        i,
        n,
        y,
    ) implies x == y by {}
    assert forall|i: Seq<T>, n: Seq<T>, cosi: T, eta: T, x: Seq<T>, y: Seq<T>|
        is_bend(i, n, cosi, eta, x) && is_bend(i, n, cosi, eta, y) implies x == y by {}
}

/// Two materials with the same components are the same material.
pub proof fn lemma_material_equal<T>(a: Material<T>, b: Material<T>)
    requires
        a.diffuse_color@ == b.diffuse_color@,
        a.albedo@ == b.albedo@,
        a.refractive_index == b.refractive_index,
        a.specular_exp == b.specular_exp,
    ensures
        a == b,
{
    lemma_view_injective(a.diffuse_color, b.diffuse_color);
    lemma_view_injective(a.albedo, b.albedo);
}

/// Two surfaces with the same point, normal and material are the same
/// surface.
pub proof fn lemma_hit_equal<T>(a: Hit<T>, b: Hit<T>)
    requires
        a.0@ == b.0@,
        a.1@ == b.1@,
        a.2 == b.2,
    ensures
        a == b,
{
    lemma_view_injective(a.0, b.0);
    lemma_view_injective(a.1, b.1);
}

/// Sphere intersections and default materials are repeatable.
pub proof fn lemma_spheres<T: Float + Num + Scalar>()
    requires
        functional::<T>(),
    ensures
        forall|x: Material<T>, y: Material<T>|
            #![trigger is_default_material(x), is_default_material(y)]
            is_default_material(x) && is_default_material(y) ==> x == y,
        forall|center: Seq<T>, radius: T, orig: Seq<T>, dir: Seq<T>, x: Option<T>, y: Option<T>|
            #![trigger is_intersection(center, radius, orig, dir, x), is_intersection(center, radius, orig, dir, y)]
            is_intersection(center, radius, orig, dir, x) && is_intersection(
                center,
                radius,
                orig,
                dir,
                y,
            ) ==> x == y,
{
    lemma_componentwise::<T>();
    lemma_vectors::<T>();
    assert forall|x: Material<T>, y: Material<T>|
        is_default_material(x) && is_default_material(y) implies x == y by {
        lemma_material_equal(x, y);
    }
    assert forall|tca: T, rr: T, d2: T, x: Option<T>, y: Option<T>|
        is_nearest_root(tca, rr, d2, x) && is_nearest_root(tca, rr, d2, y) implies x == y by {}
}

/// The nearest of the first `k` spheres is repeatable.
pub proof fn lemma_nearest_sphere<T: Float + Num + Scalar>(
    spheres: Seq<Sphere<T>>,
    orig: Seq<T>,
    dir: Seq<T>,
    k: nat,
    start: Nearest<T>,
    x: Nearest<T>,
    y: Nearest<T>,
)
    requires
        functional::<T>(),
        is_nearest_sphere(spheres, orig, dir, k, start, x),
        is_nearest_sphere(spheres, orig, dir, k, start, y),
    ensures
        x == y,
    decreases k,
{
    if k > 0 {
        lemma_componentwise::<T>();
        lemma_vectors::<T>();
        lemma_spheres::<T>();
        let (mid1, last1) = choose|mid: Nearest<T>, last: Sphere<T>|
            {
                &&& last == spheres[k - 1]
                &&& is_nearest_sphere(spheres, orig, dir, (k - 1) as nat, start, mid)
                &&& is_sphere_step(last, orig, dir, mid, x)
            };
        let (mid2, last2) = choose|mid: Nearest<T>, last: Sphere<T>|
            {
                &&& last == spheres[k - 1]
                &&& is_nearest_sphere(spheres, orig, dir, (k - 1) as nat, start, mid)
                &&& is_sphere_step(last, orig, dir, mid, y)
            };
        lemma_nearest_sphere(spheres, orig, dir, (k - 1) as nat, start, mid1, mid2);
        let (found1, closer1) = choose|found: Option<T>, closer: bool|
            {
                &&& is_intersection(last1.center@, last1.radius, orig, dir, found)
                &&& is_sphere_choice(last1, orig, dir, found, closer, mid1, x)
            };
        let (found2, closer2) = choose|found: Option<T>, closer: bool|
            {
                &&& is_intersection(last1.center@, last1.radius, orig, dir, found)
                &&& is_sphere_choice(last1, orig, dir, found, closer, mid1, y)
            };
        if found1 is Some && closer1 {
            assert(is_sphere_surface(last1, orig, dir, found1->0, x));
            assert(is_sphere_surface(last1, orig, dir, found1->0, y));
            lemma_hit_equal(x.surface, y.surface);
        }
    }
}

/// The nearest-surface test is repeatable.
pub proof fn lemma_scene<T: Float + Num + Scalar>()
    requires
        functional::<T>(),
    ensures
        forall|spheres: Seq<Sphere<T>>, orig: Seq<T>, dir: Seq<T>, x: Option<Hit<T>>, y: Option<Hit<T>>|
            #![trigger is_scene_hit(spheres, orig, dir, x), is_scene_hit(spheres, orig, dir, y)]
            is_scene_hit(spheres, orig, dir, x) && is_scene_hit(spheres, orig, dir, y) ==> x == y,
{
    lemma_componentwise::<T>();
    lemma_vectors::<T>();
    lemma_constants::<T>();
    lemma_spheres::<T>();
    assert forall|x: Nearest<T>, y: Nearest<T>| is_nothing(x) && is_nothing(y) implies x == y by {
        lemma_hit_equal(x.surface, y.surface);
    }
    assert forall|spheres: Seq<Sphere<T>>, orig: Seq<T>, dir: Seq<T>, x: Nearest<T>, y: Nearest<T>|
        is_nearest(spheres, orig, dir, x) && is_nearest(spheres, orig, dir, y) implies x == y by {
        let start1 = choose|start: Nearest<T>|
            is_nothing(start) && is_nearest_sphere(spheres, orig, dir, spheres.len(), start, x);
        let start2 = choose|start: Nearest<T>|
            is_nothing(start) && is_nearest_sphere(spheres, orig, dir, spheres.len(), start, y);
        lemma_nearest_sphere(spheres, orig, dir, spheres.len(), start1, x, y);
    }
    assert forall|orig: Seq<T>, dir: Seq<T>, x: T, y: T|
        is_ground_distance(orig, dir, x) && is_ground_distance(orig, dir, y) implies x == y by {}
    assert forall|d: T, pt: Seq<T>, spheres_dist: T, x: bool, y: bool|
        is_on_board(d, pt, spheres_dist, x) && is_on_board(d, pt, spheres_dist, y) implies x
        == y by {}
    assert forall|c: T, x: i32, y: i32| is_cell(c, x) && is_cell(c, y) implies x == y by {}
    assert forall|light: bool, x: Seq<T>, y: Seq<T>|
        is_tile_colour(light, x) && is_tile_colour(light, y) implies x == y by {}
    assert forall|pt: Seq<T>, x: Hit<T>, y: Hit<T>|
        is_board_surface(pt, x) && is_board_surface(pt, y) implies x == y by {
        lemma_view_injective(x.2.albedo, y.2.albedo);
        lemma_material_equal(x.2, y.2);
        lemma_hit_equal(x, y);
    }
    assert forall|orig: Seq<T>, dir: Seq<T>, spheres: Nearest<T>, d1: T, x: Hit<T>, d2: T, y: Hit<T>|
        is_ground_step(orig, dir, spheres, d1, x) && is_ground_step(
            orig,
            dir,
            spheres,
            d2,
            y,
        ) implies d1 == d2 && x == y by {}
}

/// The colour of the sky, shadows, the light of one light and the colour of
/// a surface are repeatable.
pub proof fn lemma_lights<T: Float + Num + Scalar>()
    requires
        functional::<T>(),
    ensures
        forall|x: Seq<T>, y: Seq<T>| #![trigger is_sky(x), is_sky(y)] is_sky(x) && is_sky(y) ==> x == y,
        forall|
            spheres: Seq<Sphere<T>>,
            light: Light<T>,
            hit: Seq<T>,
            n: Seq<T>,
            dir: Seq<T>,
            exponent: T,
            before: Lighting<T>,
            x: Lighting<T>,
            y: Lighting<T>,
        |
            #![trigger is_light_step(spheres, light, hit, n, dir, exponent, before, x), is_light_step(spheres, light, hit, n, dir, exponent, before, y)]
            is_light_step(spheres, light, hit, n, dir, exponent, before, x) && is_light_step(
                spheres,
                light,
                hit,
                n,
                dir,
                exponent,
                before,
                y,
            ) ==> x == y,
        forall|
            material: Material<T>,
            lighting: Lighting<T>,
            reflected: Seq<T>,
            refracted: Seq<T>,
            x: Seq<T>,
            y: Seq<T>,
        |
            #![trigger is_shade(material, lighting, reflected, refracted, x), is_shade(material, lighting, reflected, refracted, y)]
            is_shade(material, lighting, reflected, refracted, x) && is_shade(
                material,
                lighting,
                reflected,
                refracted,
                y,
            ) ==> x == y,
{
    lemma_componentwise::<T>();
    lemma_vectors::<T>();
    lemma_constants::<T>();
    lemma_optics::<T>();
    lemma_scene::<T>();
    assert forall|
        spheres: Seq<Sphere<T>>,
        hit: Seq<T>,
        n: Seq<T>,
        light_dir: Seq<T>,
        light_dist: T,
        x: bool,
        y: bool,
    |
        is_shadowed(spheres, hit, n, light_dir, light_dist, x) && is_shadowed(
            spheres,
            hit,
            n,
            light_dir,
            light_dist,
            y,
        ) implies x == y by {}
    assert forall|
        intensity: T,
        light_dir: Seq<T>,
        n: Seq<T>,
        dir: Seq<T>,
        exponent: T,
        before: Lighting<T>,
        x: Lighting<T>,
        y: Lighting<T>,
    |
        is_lit(intensity, light_dir, n, dir, exponent, before, x) && is_lit(
            intensity,
            light_dir,
            n,
            dir,
            exponent,
            before,
            y,
        ) implies x == y by {}
}

/// The light of the first `k` lights is repeatable.
pub proof fn lemma_illumination<T: Float + Num + Scalar>(
    spheres: Seq<Sphere<T>>,
    lights: Seq<Light<T>>,
    hit: Seq<T>,
    n: Seq<T>,
    dir: Seq<T>,
    exponent: T,
    k: nat,
    x: Lighting<T>,
    y: Lighting<T>,
)
    requires
        functional::<T>(),
        is_illumination(spheres, lights, hit, n, dir, exponent, k, x),
        is_illumination(spheres, lights, hit, n, dir, exponent, k, y),
    ensures
        x == y,
    decreases k,
{
    if k > 0 {
        lemma_lights::<T>();
        let (mid1, last1) = choose|mid: Lighting<T>, last: Light<T>|
            {
                &&& last == lights[k - 1]
                &&& is_illumination(spheres, lights, hit, n, dir, exponent, (k - 1) as nat, mid)
                &&& is_light_step(spheres, last, hit, n, dir, exponent, mid, x)
            };
        let (mid2, last2) = choose|mid: Lighting<T>, last: Light<T>|
            {
                &&& last == lights[k - 1]
                &&& is_illumination(spheres, lights, hit, n, dir, exponent, (k - 1) as nat, mid)
                &&& is_light_step(spheres, last, hit, n, dir, exponent, mid, y)
            };
        lemma_illumination(spheres, lights, hit, n, dir, exponent, (k - 1) as nat, mid1, mid2);
    }
}

/// The radiance along a ray is repeatable.
pub proof fn lemma_radiance<T: Float + Num + Scalar>(
    spheres: Seq<Sphere<T>>,
    lights: Seq<Light<T>>,
    orig: Seq<T>,
    dir: Seq<T>,
    depth: nat,
    x: Seq<T>,
    y: Seq<T>,
)
    requires
        functional::<T>(),
        is_radiance(spheres, lights, orig, dir, depth, x),
        is_radiance(spheres, lights, orig, dir, depth, y),
    ensures
        x == y,
    decreases depth,
{
    lemma_vectors::<T>();
    lemma_optics::<T>();
    lemma_scene::<T>();
    lemma_lights::<T>();
    if depth > 0 {
        let below = (depth - 1) as nat;
        let (
            found1,
            mirrored1,
            reflect_dir1,
            reflect_orig1,
            reflected1,
            bent1,
            refract_dir1,
            refract_orig1,
            refracted1,
            lighting1,
        ) = choose|
            found: Option<Hit<T>>,
            mirrored: Seq<T>,
            reflect_dir: Seq<T>,
            reflect_orig: Seq<T>,
            reflected: Seq<T>,
            bent: Seq<T>,
            refract_dir: Seq<T>,
            refract_orig: Seq<T>,
            refracted: Seq<T>,
            lighting: Lighting<T>,
        |
            {
                &&& is_scene_hit(spheres, orig, dir, found)
                &&& is_bounce(
                    spheres,
                    lights,
                    found,
                    dir,
                    mirrored,
                    reflect_dir,
                    reflect_orig,
                    reflected,
                    bent,
                    refract_dir,
                    refract_orig,
                    refracted,
                    lighting,
                    x,
                )
                &&& found is Some ==> {
                    &&& is_radiance(spheres, lights, reflect_orig, reflect_dir, below, reflected)
                    &&& is_radiance(spheres, lights, refract_orig, refract_dir, below, refracted)
                }
            };
        let (
            found2,
            mirrored2,
            reflect_dir2,
            reflect_orig2,
            reflected2,
            bent2,
            refract_dir2,
            refract_orig2,
            refracted2,
            lighting2,
        ) = choose|
            found: Option<Hit<T>>,
            mirrored: Seq<T>,
            reflect_dir: Seq<T>,
            reflect_orig: Seq<T>,
            reflected: Seq<T>,
            bent: Seq<T>,
            refract_dir: Seq<T>,
            refract_orig: Seq<T>,
            refracted: Seq<T>,
            lighting: Lighting<T>,
        |
            {
                &&& is_scene_hit(spheres, orig, dir, found)
                &&& is_bounce(
                    spheres,
                    lights,
                    found,
                    dir,
                    mirrored,
                    reflect_dir,
                    reflect_orig,
                    reflected,
                    bent,
                    refract_dir,
                    refract_orig,
                    refracted,
                    lighting,
                    y,
                )
                &&& found is Some ==> {
                    &&& is_radiance(spheres, lights, reflect_orig, reflect_dir, below, reflected)
                    &&& is_radiance(spheres, lights, refract_orig, refract_dir, below, refracted)
                }
            };
        assert(found1 == found2);
        if found1 is Some {
            let surface = found1->0;
            lemma_radiance(spheres, lights, reflect_orig1, reflect_dir1, below, reflected1, reflected2);
            lemma_radiance(spheres, lights, refract_orig1, refract_dir1, below, refracted1, refracted2);
            lemma_illumination(
                spheres,
                lights,
                surface.0@,
                surface.1@,
                dir,
                surface.2.specular_exp,
                lights.len(),
                lighting1,
                lighting2,
            );
        }
    }
}

/// The pixels of an image and the bytes of its channels are repeatable.
pub proof fn lemma_pixels<T: Float + Num + Scalar>()
    requires
        functional::<T>(),
    ensures
        forall|
            spheres: Seq<Sphere<T>>,
            lights: Seq<Light<T>>,
            width: nat,
            height: nat,
            fov: T,
            i: nat,
            j: nat,
            x: Seq<T>,
            y: Seq<T>,
        |
            #![trigger is_pixel(spheres, lights, width, height, fov, i, j, x), is_pixel(spheres, lights, width, height, fov, i, j, y)]
            is_pixel(spheres, lights, width, height, fov, i, j, x) && is_pixel(
                spheres,
                lights,
                width,
                height,
                fov,
                i,
                j,
                y,
            ) ==> x == y,
        forall|channel: T, x: u8, y: u8|
            #![trigger is_byte(channel, x), is_byte(channel, y)]
            is_byte(channel, x) && is_byte(channel, y) ==> x == y,
{
    lemma_componentwise::<T>();
    lemma_vectors::<T>();
    lemma_constants::<T>();
    assert forall|width: nat, height: nat, fov: T, i: nat, j: nat, x: Seq<T>, y: Seq<T>|
        is_primary(width, height, fov, i, j, x) && is_primary(
            width,
            height,
            fov,
            i,
            j,
            y,
        ) implies x == y by {}
    assert forall|pixel: Seq<T>, x: Seq<T>, y: Seq<T>|
        is_tone_clamped(pixel, x) && is_tone_clamped(pixel, y) implies x == y by {}
    assert forall|
        spheres: Seq<Sphere<T>>,
        lights: Seq<Light<T>>,
        width: nat,
        height: nat,
        fov: T,
        i: nat,
        j: nat,
        x: Seq<T>,
        y: Seq<T>,
    |
        is_pixel(spheres, lights, width, height, fov, i, j, x) && is_pixel(
            spheres,
            lights,
            width,
            height,
            fov,
            i,
            j,
            y,
        ) implies x == y by {
        let (z1, dir1, radiance1) = choose|z: T, dir: Seq<T>, radiance: Seq<T>|
            {
                &&& is_zero(z)
                &&& is_primary(width, height, fov, i, j, dir)
                &&& is_radiance(spheres, lights, triple(z, z, z), dir, MAX_DEPTH as nat, radiance)
                &&& is_tone_clamped(radiance, x)
            };
        let (z2, dir2, radiance2) = choose|z: T, dir: Seq<T>, radiance: Seq<T>|
            {
                &&& is_zero(z)
                &&& is_primary(width, height, fov, i, j, dir)
                &&& is_radiance(spheres, lights, triple(z, z, z), dir, MAX_DEPTH as nat, radiance)
                &&& is_tone_clamped(radiance, y)
            };
        lemma_radiance(
            spheres,
            lights,
            triple(z1, z1, z1),
            dir1,
            MAX_DEPTH as nat,
            radiance1,
            radiance2,
        );
    }
}

/// Rendering a scene is repeatable: where the scalar's operations are
/// functions, two images of one scene as one view sees it hold the same
/// pixels, and their portable pixmaps are the same bytes.
pub proof fn lemma_image_repeatable<T: Float + Num + Scalar>(
    view: View<T>,
    scene: Scene<T>,
    first: Frame<T>,
    second: Frame<T>,
    first_bytes: Seq<u8>,
    second_bytes: Seq<u8>,
)
    requires
        functional::<T>(),
        view.sees(scene, first),
        view.sees(scene, second),
        is_ppm(first, to_byte::<T>, first_bytes),
        is_ppm(second, to_byte::<T>, second_bytes),
    ensures
        first.pixels() == second.pixels(),
        first_bytes == second_bytes,
{
    lemma_pixels::<T>();
    let width = view.width_of() as int;
    let height = view.height_of() as int;
    first.lemma_len();
    second.lemma_len();
    assert forall|k: int| 0 <= k < first.pixels().len() implies first.pixels()[k]
        == second.pixels()[k] by {
        lemma_grid_position(width, height, k);
        let i = k % width;
        let j = k / width;
        assert(first.pixel_at(i, j) == first.pixels()[k]);
        assert(second.pixel_at(i, j) == second.pixels()[k]);
        lemma_view_injective(first.pixels()[k], second.pixels()[k]);
    }
    assert(first.pixels() =~= second.pixels());
    assert forall|c: T, x: u8, y: u8|
        call_ensures(to_byte::<T>, (c,), x) && call_ensures(to_byte::<T>, (c,), y) implies x
        == y by {
        assert(is_byte(c, x) && is_byte(c, y));
    }
    lemma_pixmap_repeatable(first, second, to_byte::<T>, first_bytes, second_bytes);
}

} // verus!
