//! The recursive shader: the light that arrives along a ray.

use vstd::prelude::*;
use num_traits::{Float, Num};
use crate::geometry::{
    is_difference, is_dot, is_norm, is_normalized, is_scaled, is_sum, triple, GVec,
};
use crate::optics::{
    is_offset, is_reflection, is_refraction, normal_offset, reflect, refract,
};
use crate::scalar::{
    adds, is_max, is_one, is_power, is_ratio, is_zero, less, max, multiplies, one, powf, ratio,
    total, zero, Scalar,
};
use crate::scene::{is_scene_hit, Hit, Light, Scene};
use crate::sphere::{Material, Sphere};

verus! {

/// The light that reaches a point of a surface from the lights of the
/// scene: the diffuse and the specular intensity.
pub struct Lighting<T> {
    pub diffuse: T,
    pub specular: T,
}

/// `out` is the colour of the sky: two, seven and eight tenths.
pub open spec fn is_sky<T: Float + Num + Scalar>(out: Seq<T>) -> bool {
    exists|r: T, g: T, b: T|
        #![trigger triple(r, g, b)]
        is_ratio(2, 10, r) && is_ratio(7, 10, g) && is_ratio(8, 10, b) && out == triple(r, g, b)
}

/// `out` says that the point `hit` lies in the shadow of a light in the
/// direction `light_dir` at the distance `light_dist`: a ray from the point,
/// moved off the surface, towards the light meets a surface before it
/// reaches the light.
pub open spec fn is_shadowed<T: Float + Num + Scalar>(
    spheres: Seq<Sphere<T>>,
    hit: Seq<T>,
    n: Seq<T>,
    light_dir: Seq<T>,
    light_dist: T,
    out: bool,
) -> bool {
    exists|shadow_orig: Seq<T>, found: Option<Hit<T>>|
        #![trigger is_offset(hit, n, light_dir, shadow_orig), is_scene_hit(spheres, shadow_orig, light_dir, found)]
        {
            &&& is_offset(hit, n, light_dir, shadow_orig)
            &&& is_scene_hit(spheres, shadow_orig, light_dir, found)
            &&& match found {
                None => !out,
                Some(blocker) => exists|gap: Seq<T>, reach: T|
                    #![trigger is_norm(gap, reach)]
                    {
                        &&& is_difference(blocker.0@, shadow_orig, gap)
                        &&& is_norm(gap, reach)
                        &&& less(reach, light_dist, out)
                    },
            }
        }
}

/// `after` is `before` with the light of one unshadowed light added. The
/// diffuse intensity grows by the light's intensity times the dot product of
/// the light's direction and the normal, where that is above zero. The
/// specular intensity grows by the dot product of the mirrored light
/// direction and the ray's direction, where that is above zero, raised to
/// the material's exponent, times the light's intensity.
pub open spec fn is_lit<T: Float + Num + Scalar>(
    intensity: T,
    light_dir: Seq<T>,
    n: Seq<T>,
    dir: Seq<T>,
    exponent: T,
    before: Lighting<T>,
    after: Lighting<T>,
) -> bool {
    exists|
        z: T,
        facing: T,
        lambert: T,
        gain: T,
        mirrored: Seq<T>,
        rf: T,
        gloss: T,
        shine: T,
        glint: T,
    |
        #![trigger is_max(z, facing, lambert), multiplies(intensity, lambert, gain), is_dot(mirrored, dir, rf), is_max(rf, z, gloss), is_power(gloss, exponent, shine), multiplies(shine, intensity, glint)]
        {
            &&& is_zero(z)
            &&& is_dot(light_dir, n, facing)
            &&& is_max(z, facing, lambert)
            &&& multiplies(intensity, lambert, gain)
            &&& adds(before.diffuse, gain, after.diffuse)
            &&& is_reflection(light_dir, n, mirrored)
            &&& is_dot(mirrored, dir, rf)
            &&& is_max(rf, z, gloss)
            &&& is_power(gloss, exponent, shine)
            &&& multiplies(shine, intensity, glint)
            &&& adds(before.specular, glint, after.specular)
        }
}

/// `after` is `before` with one more light tried: unchanged where the
/// point lies in the light's shadow, and with the light's contribution
/// added otherwise.
pub open spec fn is_light_step<T: Float + Num + Scalar>(
    spheres: Seq<Sphere<T>>,
    light: Light<T>,
    hit: Seq<T>,
    n: Seq<T>,
    dir: Seq<T>,
    exponent: T,
    before: Lighting<T>,
    after: Lighting<T>,
) -> bool {
    exists|to_light: Seq<T>, light_dir: Seq<T>, light_dist: T, shadowed: bool|
        #![trigger is_normalized(to_light, light_dir), is_shadowed(spheres, hit, n, light_dir, light_dist, shadowed)]
        {
            &&& is_difference(light.position_of()@, hit, to_light)
            &&& is_normalized(to_light, light_dir)
            &&& is_norm(to_light, light_dist)
            &&& is_shadowed(spheres, hit, n, light_dir, light_dist, shadowed)
            &&& if shadowed {
                after == before
            } else {
                is_lit(light.intensity_of(), light_dir, n, dir, exponent, before, after)
            }
        }
}

/// `out` is the light of the first `k` lights at the point `hit`, the
/// lights tried in their order from no light at all.
pub open spec fn is_illumination<T: Float + Num + Scalar>(
    spheres: Seq<Sphere<T>>,
    lights: Seq<Light<T>>,
    hit: Seq<T>,
    n: Seq<T>,
    dir: Seq<T>,
    exponent: T,
    k: nat,
    out: Lighting<T>,
) -> bool
    decreases k,
{
    if k == 0 {
        is_zero(out.diffuse) && out.specular == out.diffuse
    } else {
        exists|mid: Lighting<T>, last: Light<T>|
            #![trigger is_light_step(spheres, last, hit, n, dir, exponent, mid, out)]
            {
                &&& last == lights[k - 1]
                &&& is_illumination(spheres, lights, hit, n, dir, exponent, (k - 1) as nat, mid)
                &&& is_light_step(spheres, last, hit, n, dir, exponent, mid, out)
            }
    }
}

/// `out` is the colour of a surface: the material's colour scaled by the
/// diffuse light and the first weight, plus white scaled by the specular
/// light and the second weight, plus the reflected colour scaled by the
/// third weight, plus the refracted colour scaled by the fourth.
pub open spec fn is_shade<T: Float + Num + Scalar>(
    material: Material<T>,
    lighting: Lighting<T>,
    reflected: Seq<T>,
    refracted: Seq<T>,
    out: Seq<T>,
) -> bool {
    exists|
        lit: Seq<T>,
        diffuse: Seq<T>,
        o: T,
        glow: Seq<T>,
        specular: Seq<T>,
        mirror: Seq<T>,
        glass: Seq<T>,
        first: Seq<T>,
        second: Seq<T>,
    |
        #![trigger is_scaled(lit, material.albedo@[0], diffuse), is_scaled(triple(o, o, o), lighting.specular, glow), is_scaled(glow, material.albedo@[1], specular), is_scaled(reflected, material.albedo@[2], mirror), is_scaled(refracted, material.albedo@[3], glass), is_sum(diffuse, specular, first), is_sum(first, mirror, second)]
        {
            &&& is_scaled(material.diffuse_color@, lighting.diffuse, lit)
            &&& is_scaled(lit, material.albedo@[0], diffuse)
            &&& is_one(o)
            &&& is_scaled(triple(o, o, o), lighting.specular, glow)
            &&& is_scaled(glow, material.albedo@[1], specular)
            &&& is_scaled(reflected, material.albedo@[2], mirror)
            &&& is_scaled(refracted, material.albedo@[3], glass)
            &&& is_sum(diffuse, specular, first)
            &&& is_sum(first, mirror, second)
            &&& is_sum(second, glass, out)
        }
}

/// `out` is the direction and the origin of a secondary ray: the direction
/// `raw` normalized, and the point `hit` moved off the surface to the side
/// that the direction points to.
pub open spec fn is_secondary<T: Float + Num + Scalar>(
    hit: Seq<T>,
    n: Seq<T>,
    raw: Seq<T>,
    dir: Seq<T>,
    orig: Seq<T>,
) -> bool {
    is_normalized(raw, dir) && is_offset(hit, n, dir, orig)
}

/// `out` is the light that a ray of the direction `dir` gathers from what
/// it met. Where it met nothing, that is the colour of the sky. Where it
/// met a surface, it is the colour of the surface under the light
/// `lighting` of the scene's lights, with the radiance `reflected` along the
/// reflected ray and `refracted` along the refracted ray. The reflected ray
/// has the direction `mirrored`, normalized, and the refracted ray the
/// direction `bent`, normalized; each starts at the point of the surface,
/// moved off it to the side that the ray leaves by.
pub open spec fn is_bounce<T: Float + Num + Scalar>(
    spheres: Seq<Sphere<T>>,
    lights: Seq<Light<T>>,
    found: Option<Hit<T>>,
    dir: Seq<T>,
    mirrored: Seq<T>,
    reflect_dir: Seq<T>,
    reflect_orig: Seq<T>,
    reflected: Seq<T>,
    bent: Seq<T>,
    refract_dir: Seq<T>,
    refract_orig: Seq<T>,
    refracted: Seq<T>,
    lighting: Lighting<T>,
    out: Seq<T>,
) -> bool {
    match found {
        None => is_sky(out),
        Some(surface) => {
            &&& is_reflection(dir, surface.1@, mirrored)
            &&& is_secondary(surface.0@, surface.1@, mirrored, reflect_dir, reflect_orig)
            &&& is_refraction(dir, surface.1@, surface.2.refractive_index, bent)
            &&& is_secondary(surface.0@, surface.1@, bent, refract_dir, refract_orig)
            &&& is_illumination(
                spheres,
                lights,
                surface.0@,
                surface.1@,
                dir,
                surface.2.specular_exp,
                lights.len(),
                lighting,
            )
            &&& is_shade(surface.2, lighting, reflected, refracted, out)
        },
    }
}

/// `out` is the radiance that arrives at `orig` against the direction
/// `dir`, with `depth` bounces left. It is the colour of the sky where no
/// bounce is left. Otherwise it is what the ray gathers from what it meets,
/// the radiance along the reflected and along the refracted ray taken with
/// one bounce less.
///
/// A refracted direction of zeros, which total internal reflection gives,
/// is normalized and followed like any other: what comes back is whatever
/// the scalar's arithmetic makes of it.
pub open spec fn is_radiance<T: Float + Num + Scalar>(
    spheres: Seq<Sphere<T>>,
    lights: Seq<Light<T>>,
    orig: Seq<T>,
    dir: Seq<T>,
    depth: nat,
    out: Seq<T>,
) -> bool
    decreases depth,
{
    if depth == 0 {
        is_sky(out)
    } else {
        exists|
            found: Option<Hit<T>>,
            mirrored: Seq<T>,
            reflect_dir: Seq<T>,
            reflect_orig: Seq<T>,
            reflected: Seq<T>,
            bent: Seq<T>,
            refract_dir: Seq<T>,
            refract_orig: Seq<T>,
            refracted: Seq<T>,
            lighting: Lighting<T>,
        |
            #![trigger is_bounce(spheres, lights, found, dir, mirrored, reflect_dir, reflect_orig, reflected, bent, refract_dir, refract_orig, refracted, lighting, out)]
            {
                &&& is_scene_hit(spheres, orig, dir, found)
                &&& is_bounce(
                    spheres,
                    lights,
                    found,
                    dir,
                    mirrored,
                    reflect_dir,
                    reflect_orig,
                    reflected,
                    bent,
                    refract_dir,
                    refract_orig,
                    refracted,
                    lighting,
                    out,
                )
                &&& found is Some ==> {
                    &&& is_radiance(
                        spheres,
                        lights,
                        reflect_orig,
                        reflect_dir,
                        (depth - 1) as nat,
                        reflected,
                    )
                    &&& is_radiance(
                        spheres,
                        lights,
                        refract_orig,
                        refract_dir,
                        (depth - 1) as nat,
                        refracted,
                    )
                }
            }
    }
}

/// The colour of the sky.
pub fn sky<T: Float + Num + Scalar>() -> (out: GVec<T, 3>)
    requires
        total::<T>(),
    ensures
        is_sky(out@),
{
    let r: T = ratio(2, 10);
    let g: T = ratio(7, 10);
    let b: T = ratio(8, 10);
    let out = GVec::<T, 3>::new(r, g, b);
    assert(out@ == triple(r, g, b));
    out
}

/// The colour of a surface of the given material under the given light,
/// with the colours that arrive along the reflected and the refracted ray.
pub fn shade<T: Float + Num + Scalar>(
    material: &Material<T>,
    lighting: &Lighting<T>,
    reflected: GVec<T, 3>,
    refracted: GVec<T, 3>,
) -> (out: GVec<T, 3>)
    requires
        total::<T>(),
    ensures
        is_shade(*material, *lighting, reflected@, refracted@, out@),
{
    let weights = material.albedo;
    let lit = material.diffuse_color * lighting.diffuse;
    let diffuse = lit * weights[0];
    let o: T = one();
    let white = GVec::<T, 3>::new(o, o, o);
    let glow = white * lighting.specular;
    let specular = glow * weights[1];
    let mirror = reflected * weights[2];
    let glass = refracted * weights[3];
    let first = diffuse + specular;
    let second = first + mirror;
    let out = second + glass;
    proof {
        assert(white@ == triple(o, o, o));
    }
    out
}

impl<'a, T: Float + Num + Scalar> Scene<'a, T> {
    /// Whether the point `hit` lies in the shadow of a light in the
    /// direction `light_dir` at the distance `light_dist`.
    pub fn shadowed(
        &self,
        hit: GVec<T, 3>,
        n: GVec<T, 3>,
        light_dir: GVec<T, 3>,
        light_dist: T,
    ) -> (out: bool)
        requires
            total::<T>(),
        ensures
            is_shadowed(self.spheres_of(), hit@, n@, light_dir@, light_dist, out),
    {
        let shadow_orig = normal_offset(hit, n, light_dir);
        match self.scene_intersect(shadow_orig, light_dir) {
            Some(blocker) => {
                let gap = blocker.0 - shadow_orig;
                let reach: T = gap.norm();
                reach < light_dist
            },
            None => false,
        }
    }

    /// The light that reaches the point `hit` of a surface with the normal
    /// `n`, seen along the direction `dir`, for a material with the given
    /// specular exponent.
    pub fn illuminate(
        &self,
        hit: GVec<T, 3>,
        n: GVec<T, 3>,
        dir: GVec<T, 3>,
        exponent: T,
    ) -> (out: Lighting<T>)
        requires
            total::<T>(),
        ensures
            is_illumination(
                self.spheres_of(),
                self.lights_of(),
                hit@,
                n@,
                dir@,
                exponent,
                self.lights_of().len(),
                out,
            ),
    {
        let z: T = zero();
        let lights = self.lights();
        let mut lighting = Lighting { diffuse: z, specular: z };
        let mut k: usize = 0;
        while k < lights.len()
            invariant
                k <= lights@.len(),
                lights@ == self.lights_of(),
                total::<T>(),
                is_zero(z),
                is_illumination(
                    self.spheres_of(),
                    lights@,
                    hit@,
                    n@,
                    dir@,
                    exponent,
                    k as nat,
                    lighting,
                ),
            decreases lights@.len() - k,
        {
            let light = &lights[k];
            let ghost before = lighting;
            let to_light = *light.position() - hit;
            let light_dir = to_light.normalize();
            let light_dist: T = to_light.norm();
            let shadowed = self.shadowed(hit, n, light_dir, light_dist);
            if !shadowed {
                let facing: T = light_dir.dot(n);
                let lambert: T = max(z, facing);
                let gain: T = *light.intensity() * lambert;
                let mirrored = reflect(light_dir, n);
                let rf: T = mirrored.dot(dir);
                let gloss: T = max(rf, z);
                let shine: T = powf(gloss, exponent);
                let glint: T = shine * *light.intensity();
                lighting = Lighting {
                    diffuse: lighting.diffuse + gain,
                    specular: lighting.specular + glint,
                };
            }
            assert(is_light_step(
                self.spheres_of(),
                *light,
                hit@,
                n@,
                dir@,
                exponent,
                before,
                lighting,
            ));
            k += 1;
        }
        lighting
    }

    /// The radiance that arrives at `orig` against the direction `dir`,
    /// with `depth` bounces left.
    pub fn cast_ray(&self, orig: GVec<T, 3>, dir: GVec<T, 3>, depth: usize) -> (out: GVec<T, 3>)
        requires
            total::<T>(),
        ensures
            is_radiance(self.spheres_of(), self.lights_of(), orig@, dir@, depth as nat, out@),
        decreases depth,
    {
        if depth == 0 {
            return sky();
        }
        let found = self.scene_intersect(orig, dir);
        let (hit, n, material) = match found {
            Some(surface) => surface,
            None => {
                let out = sky();
                proof {
                    let nothing = Seq::<T>::empty();
                    let dark = Lighting { diffuse: orig@[0], specular: orig@[0] };
                    assert(is_bounce(
                        self.spheres_of(),
                        self.lights_of(),
                        found,
                        dir@,
                        nothing,
                        nothing,
                        nothing,
                        nothing,
                        nothing,
                        nothing,
                        nothing,
                        nothing,
                        dark,
                        out@,
                    ));
                }
                return out;
            },
        };

        let mirrored = reflect(dir, n);
        let reflect_dir = mirrored.normalize();
        let reflect_orig = normal_offset(hit, n, reflect_dir);
        let reflected = self.cast_ray(reflect_orig, reflect_dir, depth - 1);

        let bent = refract(dir, n, material.refractive_index);
        let refract_dir = bent.normalize();
        let refract_orig = normal_offset(hit, n, refract_dir);
        let refracted = self.cast_ray(refract_orig, refract_dir, depth - 1);

        let lighting = self.illuminate(hit, n, dir, material.specular_exp);
        let out = shade(&material, &lighting, reflected, refracted);
        proof {
            assert(is_bounce(
                self.spheres_of(),
                self.lights_of(),
                found,
                dir@,
                mirrored@,
                reflect_dir@,
                reflect_orig@,
                reflected@,
                bent@,
                refract_dir@,
                refract_orig@,
                refracted@,
                lighting,
                out@,
            ));
        }
        out
    }
}

/// The ray from `orig` along `dir` meets nothing: the nearest-surface test
/// can only come out empty.
pub open spec fn meets_nothing<T: Float + Num + Scalar>(
    spheres: Seq<Sphere<T>>,
    orig: Seq<T>,
    dir: Seq<T>,
) -> bool {
    forall|found: Option<Hit<T>>| #[trigger] is_scene_hit(spheres, orig, dir, found) ==> found is None
}

/// The point `hit` of a surface with the normal `n` is hidden from the
/// light: whatever the scalar's arithmetic gives for the direction and the
/// distance of the light, the shadow test finds the point in the shadow.
pub open spec fn hidden_from<T: Float + Num + Scalar>(
    spheres: Seq<Sphere<T>>,
    light: Light<T>,
    hit: Seq<T>,
    n: Seq<T>,
) -> bool {
    forall|to_light: Seq<T>, light_dir: Seq<T>, light_dist: T, shadowed: bool|
        #![trigger is_normalized(to_light, light_dir), is_shadowed(spheres, hit, n, light_dir, light_dist, shadowed)]
        {
            &&& is_difference(light.position_of()@, hit, to_light)
            &&& is_normalized(to_light, light_dir)
            &&& is_norm(to_light, light_dist)
            &&& is_shadowed(spheres, hit, n, light_dir, light_dist, shadowed)
        } ==> shadowed
}

/// A ray that meets nothing sees the sky, and so does every ray that has no
/// bounce left.
pub proof fn lemma_miss_sees_sky<T: Float + Num + Scalar>(
    spheres: Seq<Sphere<T>>,
    lights: Seq<Light<T>>,
    orig: Seq<T>,
    dir: Seq<T>,
    depth: nat,
    out: Seq<T>,
)
    requires
        is_radiance(spheres, lights, orig, dir, depth, out),
        depth == 0 || meets_nothing(spheres, orig, dir),
    ensures
        is_sky(out),
{
}

/// A light that a point is hidden from adds nothing to the light at that
/// point.
pub proof fn lemma_hidden_light_adds_nothing<T: Float + Num + Scalar>(
    spheres: Seq<Sphere<T>>,
    light: Light<T>,
    hit: Seq<T>,
    n: Seq<T>,
    dir: Seq<T>,
    exponent: T,
    before: Lighting<T>,
    after: Lighting<T>,
)
    requires
        hidden_from(spheres, light, hit, n),
        is_light_step(spheres, light, hit, n, dir, exponent, before, after),
    ensures
        after == before,
{
}

} // verus!
