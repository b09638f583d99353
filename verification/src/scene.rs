//! The scene and its nearest-surface test: the spheres, the lights, and the
//! checkered ground plane that every scene has.

use vstd::prelude::*;
use num_traits::{Float, Num};
use crate::geometry::{is_difference, is_normalized, is_scaled, is_sum, triple, GVec};
use crate::scalar::{
    abs, adds, divides, floor, greater, greatest, is_abs, is_floor, is_greatest, is_i32_of, is_min,
    is_natural, is_one, is_ratio, is_zero, less, min, multiplies, natural, negates, one, ratio, to_i32,
    total, zero, Scalar,
};
use crate::sphere::{is_default_material, is_intersection, Material, Sphere};

verus! {

/// A point light.
pub struct Light<T> {
    pos: GVec<T, 3>,
    intensity: T,
}

/// The spheres and the lights of a scene.
pub struct Scene<'a, T> {
    spheres: Vec<Sphere<'a, T>>,
    lights: Vec<Light<T>>,
}

/// A surface that a ray meets: the point, the unit normal there, and the
/// material.
pub type Hit<T> = (GVec<T, 3>, GVec<T, 3>, Material<T>);

/// The nearest sphere found so far: its distance along the ray, and the
/// surface met there.
pub struct Nearest<T> {
    pub dist: T,
    pub surface: Hit<T>,
}

/// The integer cell that a conversion gave, or zero where it gave none.
pub open spec fn cell_of(converted: Option<i32>) -> i32 {
    match converted {
        Some(cell) => cell,
        None => 0,
    }
}

/// `out` is the state before any sphere was tried: as far as the scalar
/// type reaches, at the origin, with no normal and the default material.
pub open spec fn is_nothing<T: Float + Num + Scalar>(out: Nearest<T>) -> bool {
    exists|z: T|
        #![trigger is_zero(z)]
        {
            &&& is_greatest(out.dist)
            &&& is_zero(z)
            &&& out.surface.0@ == seq![z, z, z]
            &&& out.surface.1@ == seq![z, z, z]
            &&& is_default_material(out.surface.2)
        }
}

/// `out` is the surface of the sphere at the distance `t` along the ray:
/// the point `orig + dir * t`, the normalized vector from the centre to that
/// point, and the sphere's material.
pub open spec fn is_sphere_surface<T: Float + Num + Scalar>(
    sphere: Sphere<T>,
    orig: Seq<T>,
    dir: Seq<T>,
    t: T,
    out: Nearest<T>,
) -> bool {
    exists|travel: Seq<T>, radial: Seq<T>|
        #![trigger is_scaled(dir, t, travel), is_normalized(radial, out.surface.1@)]
        {
            &&& out.dist == t
            &&& is_scaled(dir, t, travel)
            &&& is_sum(orig, travel, out.surface.0@)
            &&& is_difference(out.surface.0@, sphere.center@, radial)
            &&& is_normalized(radial, out.surface.1@)
            &&& out.surface.2 == *sphere.material
        }
}

/// `after` is `before` with one more sphere tried: the surface of that
/// sphere where the ray meets it below the distance of `before`, and
/// `before` otherwise.
pub open spec fn is_sphere_step<T: Float + Num + Scalar>(
    sphere: Sphere<T>,
    orig: Seq<T>,
    dir: Seq<T>,
    before: Nearest<T>,
    after: Nearest<T>,
) -> bool {
    exists|found: Option<T>, closer: bool|
        #![trigger is_intersection(sphere.center@, sphere.radius, orig, dir, found), is_sphere_choice(sphere, orig, dir, found, closer, before, after)]
        {
            &&& is_intersection(sphere.center@, sphere.radius, orig, dir, found)
            &&& is_sphere_choice(sphere, orig, dir, found, closer, before, after)
        }
}

/// The choice that one sphere leaves: `after` is the sphere's surface where
/// the ray meets the sphere at `found`, and `closer` says that this is
/// below the distance of `before`; it is `before` otherwise.
pub open spec fn is_sphere_choice<T: Float + Num + Scalar>(
    sphere: Sphere<T>,
    orig: Seq<T>,
    dir: Seq<T>,
    found: Option<T>,
    closer: bool,
    before: Nearest<T>,
    after: Nearest<T>,
) -> bool {
    match found {
        None => after == before,
        Some(t) => less(t, before.dist, closer) && if closer {
            is_sphere_surface(sphere, orig, dir, t, after)
        } else {
            after == before
        },
    }
}

/// `out` is the nearest of the first `k` spheres along the ray, from the
/// state `start`, the spheres tried in their order.
pub open spec fn is_nearest_sphere<T: Float + Num + Scalar>(
    spheres: Seq<Sphere<T>>,
    orig: Seq<T>,
    dir: Seq<T>,
    k: nat,
    start: Nearest<T>,
    out: Nearest<T>,
) -> bool
    decreases k,
{
    if k == 0 {
        out == start
    } else {
        exists|mid: Nearest<T>, last: Sphere<T>|
            #![trigger is_sphere_step(last, orig, dir, mid, out)]
            {
                &&& last == spheres[k - 1]
                &&& is_nearest_sphere(spheres, orig, dir, (k - 1) as nat, start, mid)
                &&& is_sphere_step(last, orig, dir, mid, out)
            }
    }
}

/// `out` is the nearest of the spheres along the ray, the spheres tried in
/// their order from the state before any was tried.
pub open spec fn is_nearest<T: Float + Num + Scalar>(
    spheres: Seq<Sphere<T>>,
    orig: Seq<T>,
    dir: Seq<T>,
    out: Nearest<T>,
) -> bool {
    exists|start: Nearest<T>|
        #![trigger is_nearest_sphere(spheres, orig, dir, spheres.len(), start, out)]
        is_nothing(start) && is_nearest_sphere(spheres, orig, dir, spheres.len(), start, out)
}

/// `out` is the distance along the ray to the ground plane `y = -4`: the
/// height of the origin above the plane, negated and divided by the
/// direction's second component.
pub open spec fn is_ground_distance<T: Float + Num + Scalar>(
    orig: Seq<T>,
    dir: Seq<T>,
    out: T,
) -> bool {
    exists|four: T, height: T, drop: T|
        #![trigger adds(orig[1], four, height), negates(height, drop)]
        {
            &&& is_natural(4, four)
            &&& adds(orig[1], four, height)
            &&& negates(height, drop)
            &&& divides(drop, dir[1], out)
        }
}

/// `out` says that the point `pt` at the distance `d` along the ray lies on
/// the board and nearer than the spheres: `d` is above zero and below
/// `spheres_dist`, the first component of `pt` is within ten of zero, and
/// its third component is between minus thirty and minus ten.
pub open spec fn is_on_board<T: Float + Num + Scalar>(
    d: T,
    pt: Seq<T>,
    spheres_dist: T,
    out: bool,
) -> bool {
    exists|
        z: T,
        ten: T,
        thirty: T,
        minus_ten: T,
        minus_thirty: T,
        span: T,
        ahead: bool,
        within: bool,
        before: bool,
        beyond: bool,
        nearer: bool,
    |
        #![trigger greater(d, z, ahead), less(span, ten, within), less(pt[2], minus_ten, before), greater(pt[2], minus_thirty, beyond), less(d, spheres_dist, nearer), negates(thirty, minus_thirty)]
        {
            &&& is_zero(z)
            &&& greater(d, z, ahead)
            &&& is_natural(10, ten)
            &&& is_abs(pt[0], span)
            &&& less(span, ten, within)
            &&& negates(ten, minus_ten)
            &&& less(pt[2], minus_ten, before)
            &&& is_natural(30, thirty)
            &&& negates(thirty, minus_thirty)
            &&& greater(pt[2], minus_thirty, beyond)
            &&& less(d, spheres_dist, nearer)
            &&& out == (ahead && within && before && beyond && nearer)
        }
}

/// `out` is the integer cell that `x` lies in: `x` rounded down and
/// converted, and zero where the conversion gives nothing.
pub open spec fn is_cell<T: Float + Num + Scalar>(x: T, out: i32) -> bool {
    exists|whole: T, converted: Option<i32>|
        #![trigger is_floor(x, whole), is_i32_of(whole, converted)]
        is_floor(x, whole) && is_i32_of(whole, converted) && out == cell_of(converted)
}

/// `out` is the colour of a tile of the board: nine tenths in each channel
/// for a light tile, and 0.92, 0.69 and 0.078 for a dark one, each scaled by
/// three tenths.
pub open spec fn is_tile_colour<T: Float + Num + Scalar>(light: bool, out: Seq<T>) -> bool {
    exists|r: T, g: T, b: T, dim: T|
        #![trigger is_scaled(triple(r, g, b), dim, out)]
        {
            &&& if light {
                is_ratio(9, 10, r) && g == r && b == r
            } else {
                is_ratio(92, 100, r) && is_ratio(69, 100, g) && is_ratio(78, 1000, b)
            }
            &&& is_ratio(3, 10, dim)
            &&& is_scaled(triple(r, g, b), dim, out)
        }
}

/// `out` is the surface of the board at the point `pt`: the normal points
/// up, and the material is the default one in the colour of the tile that
/// `pt` lies on. The tile's cells are those of half the point's first
/// component plus a thousand, and of half its third component; the tile is
/// light where the two cells add up to an odd number.
pub open spec fn is_board_surface<T: Float + Num + Scalar>(pt: Seq<T>, out: Hit<T>) -> bool {
    exists|
        z: T,
        o: T,
        half: T,
        thousand: T,
        across: T,
        shifted: T,
        along: T,
        cell_x: i32,
        cell_z: i32,
        plain: Material<T>,
    |
        #![trigger multiplies(half, pt[0], across), adds(across, thousand, shifted), is_cell(shifted, cell_x), multiplies(half, pt[2], along), is_cell(along, cell_z), is_default_material(plain), is_zero(z), is_one(o)]
        {
            &&& out.0@ == pt
            &&& is_zero(z)
            &&& is_one(o)
            &&& out.1@ == seq![z, o, z]
            &&& is_ratio(1, 2, half)
            &&& is_natural(1000, thousand)
            &&& multiplies(half, pt[0], across)
            &&& adds(across, thousand, shifted)
            &&& is_cell(shifted, cell_x)
            &&& multiplies(half, pt[2], along)
            &&& is_cell(along, cell_z)
            &&& is_default_material(plain)
            &&& is_tile_colour((cell_x + cell_z) % 2 == 1, out.2.diffuse_color@)
            &&& out.2.albedo == plain.albedo
            &&& out.2.refractive_index == plain.refractive_index
            &&& out.2.specular_exp == plain.specular_exp
        }
}

/// `board_dist` and `out` are the distance to the board and the surface
/// after the ground plane was tried, from the nearest sphere `spheres`.
/// Where the direction's second component is within a thousandth of zero,
/// or the ray does not meet the board nearer than the spheres, the distance
/// is as far as the scalar type reaches and the surface is that of the
/// spheres; otherwise they are the distance to the plane and the surface of
/// the board there.
pub open spec fn is_ground_step<T: Float + Num + Scalar>(
    orig: Seq<T>,
    dir: Seq<T>,
    spheres: Nearest<T>,
    board_dist: T,
    out: Hit<T>,
) -> bool {
    exists|far: T, eps: T, slope: T, steep: bool|
        #![trigger is_greatest(far), is_abs(dir[1], slope), greater(slope, eps, steep)]
        {
            &&& is_greatest(far)
            &&& is_ratio(1, 1000, eps)
            &&& is_abs(dir[1], slope)
            &&& greater(slope, eps, steep)
            &&& if steep {
                exists|d: T, travel: Seq<T>, pt: Seq<T>, on: bool|
                    #![trigger is_scaled(dir, d, travel), is_on_board(d, pt, spheres.dist, on)]
                    {
                        &&& is_ground_distance(orig, dir, d)
                        &&& is_scaled(dir, d, travel)
                        &&& is_sum(orig, travel, pt)
                        &&& is_on_board(d, pt, spheres.dist, on)
                        &&& if on {
                            board_dist == d && is_board_surface(pt, out)
                        } else {
                            board_dist == far && out == spheres.surface
                        }
                    }
            } else {
                board_dist == far && out == spheres.surface
            }
        }
}

/// `out` is a result of the nearest-surface test on the ray from `orig`
/// along `dir`: the spheres are tried in their order, then the ground
/// plane, and the surface found is `out` where the lesser of the two
/// distances is below ten thousand; otherwise there is none.
pub open spec fn is_scene_hit<T: Float + Num + Scalar>(
    spheres: Seq<Sphere<T>>,
    orig: Seq<T>,
    dir: Seq<T>,
    out: Option<Hit<T>>,
) -> bool {
    exists|nearest: Nearest<T>, board_dist: T, surface: Hit<T>, dist: T, limit: T, near: bool|
        #![trigger is_ground_step(orig, dir, nearest, board_dist, surface), is_min(nearest.dist, board_dist, dist), less(dist, limit, near)]
        {
            &&& is_nearest(spheres, orig, dir, nearest)
            &&& is_ground_step(orig, dir, nearest, board_dist, surface)
            &&& is_min(nearest.dist, board_dist, dist)
            &&& is_natural(10000, limit)
            &&& less(dist, limit, near)
            &&& out == if near {
                Some(surface)
            } else {
                None
            }
        }
}

impl<T> Light<T> {
    /// The position of the light.
    pub closed spec fn position_of(&self) -> GVec<T, 3> {
        self.pos
    }

    /// The intensity of the light.
    pub closed spec fn intensity_of(&self) -> T {
        self.intensity
    }

    /// The light at `pos` with the given intensity.
    pub fn new(pos: GVec<T, 3>, intensity: T) -> (out: Self)
        ensures
            out.position_of() == pos,
            out.intensity_of() == intensity,
    {
        Light { pos, intensity }
    }

    /// The position of the light.
    pub fn position(&self) -> (out: &GVec<T, 3>)
        ensures
            *out == self.position_of(),
    {
        &self.pos
    }

    /// The intensity of the light.
    pub fn intensity(&self) -> (out: &T)
        ensures
            *out == self.intensity_of(),
    {
        &self.intensity
    }
}

/// Whether the cell of the checkerboard with the integer coordinates
/// `(cell_x, cell_z)` is a light one: those whose coordinates add up to an
/// odd number are.
pub fn checker_is_light(cell_x: i32, cell_z: i32) -> (light: bool)
    ensures
        light == ((cell_x + cell_z) % 2 == 1),
{
    let x_odd = cell_x & 1;
    let z_odd = cell_z & 1;
    assert(x_odd == cell_x % 2 && z_odd == cell_z % 2) by (bit_vector)
        requires
            x_odd == cell_x & 1,
            z_odd == cell_z & 1,
    ;
    x_odd != z_odd
}

/// The distance along the ray to the ground plane.
pub fn ground_distance<T: Float + Num + Scalar>(orig: GVec<T, 3>, dir: GVec<T, 3>) -> (out: T)
    requires
        total::<T>(),
    ensures
        is_ground_distance(orig@, dir@, out),
{
    let four: T = natural(4);
    let height: T = orig.0[1] + four;
    let drop: T = height.neg();
    drop / dir.0[1]
}

/// Whether the point `pt` at the distance `d` along the ray lies on the
/// board and nearer than the spheres.
pub fn on_board<T: Float + Num + Scalar>(d: T, pt: GVec<T, 3>, spheres_dist: T) -> (out: bool)
    requires
        total::<T>(),
    ensures
        is_on_board(d, pt@, spheres_dist, out),
{
    let z: T = zero();
    let ahead = d > z;
    let ten: T = natural(10);
    let span: T = abs(pt.0[0]);
    let within = span < ten;
    let minus_ten: T = ten.neg();
    let before = pt.0[2] < minus_ten;
    let thirty: T = natural(30);
    let minus_thirty: T = thirty.neg();
    let beyond = pt.0[2] > minus_thirty;
    let nearer = d < spheres_dist;
    ahead && within && before && beyond && nearer
}

/// The integer cell that `x` lies in: `x` rounded down, and zero where that
/// is no `i32`.
pub fn cell<T: Float + Num + Scalar>(x: T) -> (out: i32)
    ensures
        is_cell(x, out),
{
    let whole: T = floor(x);
    match to_i32(whole) {
        Some(cell) => cell,
        None => 0,
    }
}

/// The colour of a light or a dark tile of the board.
pub fn tile_colour<T: Float + Num + Scalar>(light: bool) -> (out: GVec<T, 3>)
    requires
        total::<T>(),
    ensures
        is_tile_colour(light, out@),
{
    let r: T = if light {
        ratio(9, 10)
    } else {
        ratio(92, 100)
    };
    let g: T = if light {
        r
    } else {
        ratio(69, 100)
    };
    let b: T = if light {
        r
    } else {
        ratio(78, 1000)
    };
    let colour = GVec::<T, 3>::new(r, g, b);
    let dim: T = ratio(3, 10);
    assert(colour@ == triple(r, g, b));
    colour * dim
}

/// The surface of the board at the point `pt`.
pub fn board_surface<T: Float + Num + Scalar>(pt: GVec<T, 3>) -> (out: Hit<T>)
    requires
        total::<T>(),
    ensures
        is_board_surface(pt@, out),
{
    let z: T = zero();
    let o: T = one();
    let up = GVec::<T, 3>::new(z, o, z);
    let half: T = ratio(1, 2);
    let thousand: T = natural(1000);
    let across: T = half * pt.0[0];
    let shifted: T = across + thousand;
    let cell_x = cell(shifted);
    let along: T = half * pt.0[2];
    let cell_z = cell(along);
    let plain = Material::<T>::default();
    let colour = tile_colour(checker_is_light(cell_x, cell_z));
    let material = Material {
        diffuse_color: colour,
        albedo: plain.albedo,
        refractive_index: plain.refractive_index,
        specular_exp: plain.specular_exp,
    };
    (pt, up, material)
}

impl<'a, T> Scene<'a, T> {
    /// The spheres of the scene, in their order.
    pub closed spec fn spheres_of(&self) -> Seq<Sphere<'a, T>> {
        self.spheres@
    }

    /// The lights of the scene, in their order.
    pub closed spec fn lights_of(&self) -> Seq<Light<T>> {
        self.lights@
    }

    /// The scene of the given spheres and lights.
    pub fn new(spheres: Vec<Sphere<'a, T>>, lights: Vec<Light<T>>) -> (out: Self)
        ensures
            out.spheres_of() == spheres@,
            out.lights_of() == lights@,
    {
        Scene { spheres, lights }
    }

    /// The spheres of the scene, in their order.
    pub fn spheres(&self) -> (out: &Vec<Sphere<'a, T>>)
        ensures
            out@ == self.spheres_of(),
    {
        &self.spheres
    }

    /// The lights of the scene, in their order.
    pub fn lights(&self) -> (out: &Vec<Light<T>>)
        ensures
            out@ == self.lights_of(),
    {
        &self.lights
    }
}

impl<'a, T: Float + Num + Scalar> Scene<'a, T> {
    /// The nearest sphere along the ray from `orig` in the direction `dir`.
    pub fn nearest_sphere(&self, orig: GVec<T, 3>, dir: GVec<T, 3>) -> (out: Nearest<T>)
        requires
            total::<T>(),
        ensures
            is_nearest(self.spheres_of(), orig@, dir@, out),
    {
        let z: T = zero();
        let start = Nearest {
            dist: greatest(),
            surface: (GVec::<T, 3>::new(z, z, z), GVec::<T, 3>::new(z, z, z), Material::default()),
        };
        let ghost first = start;
        let mut best = start;
        let mut k: usize = 0;
        while k < self.spheres.len()
            invariant
                k <= self.spheres@.len(),
                total::<T>(),
                is_nothing(first),
                is_nearest_sphere(self.spheres@, orig@, dir@, k as nat, first, best),
            decreases self.spheres@.len() - k,
        {
            let sphere = &self.spheres[k];
            let ghost before = best;
            let found = sphere.ray_intersect(orig, dir);
            let mut closer = false;
            match found {
                Some(t) => {
                    closer = t < best.dist;
                    if closer {
                        let travel = dir * t;
                        let hit = orig + travel;
                        let radial = hit - sphere.center;
                        let normal = radial.normalize();
                        best = Nearest { dist: t, surface: (hit, normal, *sphere.material) };
                        assert(is_normalized(radial@, best.surface.1@));
                    }
                },
                None => {},
            }
            proof {
                assert(is_sphere_choice(*sphere, orig@, dir@, found, closer, before, best));
                assert(is_sphere_step(self.spheres@[k as int], orig@, dir@, before, best));
            }
            k += 1;
        }
        best
    }

    /// The nearest surface that the ray from `orig` in the direction `dir`
    /// meets, if it meets one within reach.
    pub fn scene_intersect(&self, orig: GVec<T, 3>, dir: GVec<T, 3>) -> (out: Option<Hit<T>>)
        requires
            total::<T>(),
        ensures
            is_scene_hit(self.spheres_of(), orig@, dir@, out),
    {
        let nearest = self.nearest_sphere(orig, dir);
        let far: T = greatest();
        let mut board_dist: T = far;
        let mut surface: Hit<T> = nearest.surface;
        let eps: T = ratio(1, 1000);
        let slope: T = abs(dir.0[1]);
        let steep = slope > eps;
        if steep {
            let d: T = ground_distance(orig, dir);
            let pt = orig + dir * d;
            if on_board(d, pt, nearest.dist) {
                board_dist = d;
                surface = board_surface(pt);
            }
        }
        proof {
            assert(is_ground_step(orig@, dir@, nearest, board_dist, surface));
        }
        let dist: T = min(nearest.dist, board_dist);
        let limit: T = natural(10000);
        let near = dist < limit;
        if near {
            Some(surface)
        } else {
            None
        }
    }
}

} // verus!
