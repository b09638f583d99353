//! The camera: the primary ray of each pixel, the tone clamp, and the
//! rendering of a scene.

use vstd::prelude::*;
use vstd::view::View as _;
use num_traits::{Float, Num};
use crate::geometry::{is_normalized, is_scaled, triple, GVec};
use crate::render::{Frame, View};
use crate::scalar::{
    adds, divides, greater, is_max, is_natural, is_one, is_ratio, is_tangent, is_zero, max,
    multiplies, natural, negates, one, ratio, subtracts, tan, total, zero, Scalar,
};
use crate::scene::{Light, Scene};
use crate::shading::is_radiance;
use crate::sphere::Sphere;

verus! {

/// The number of bounces that a primary ray is followed for.
pub const MAX_DEPTH: usize = 10;

/// `out` is the direction of the primary ray through the centre of the
/// pixel in column `i` and row `j` of an image of `width` by `height`
/// pixels: the vector
/// `((i + 1/2) - width / 2, -(j + 1/2) + height / 2, -height / (2 * tan(fov / 2)))`,
/// normalized.
pub open spec fn is_primary<T: Float + Num + Scalar>(
    width: nat,
    height: nat,
    fov: T,
    i: nat,
    j: nat,
    out: Seq<T>,
) -> bool {
    exists|
        half: T,
        two: T,
        fi: T,
        fj: T,
        fw: T,
        fh: T,
        right: T,
        middle: T,
        x: T,
        down: T,
        up: T,
        centre: T,
        y: T,
        back: T,
        angle: T,
        slope: T,
        spread: T,
        z: T,
    |
        #![trigger adds(fi, half, right), divides(fw, two, middle), subtracts(right, middle, x), adds(fj, half, down), negates(down, up), divides(fh, two, centre), adds(up, centre, y), negates(fh, back), divides(fov, two, angle), is_tangent(angle, slope), multiplies(two, slope, spread), divides(back, spread, z)]
        {
            &&& is_ratio(1, 2, half)
            &&& is_natural(2, two)
            &&& is_natural(i, fi)
            &&& is_natural(j, fj)
            &&& is_natural(width, fw)
            &&& is_natural(height, fh)
            &&& adds(fi, half, right)
            &&& divides(fw, two, middle)
            &&& subtracts(right, middle, x)
            &&& adds(fj, half, down)
            &&& negates(down, up)
            &&& divides(fh, two, centre)
            &&& adds(up, centre, y)
            &&& negates(fh, back)
            &&& divides(fov, two, angle)
            &&& is_tangent(angle, slope)
            &&& multiplies(two, slope, spread)
            &&& divides(back, spread, z)
            &&& is_normalized(triple(x, y, z), out)
        }
}

/// `out` is the pixel `pixel` after the tone clamp: divided by its largest
/// channel where that is above one, and unchanged otherwise.
pub open spec fn is_tone_clamped<T: Float + Num + Scalar>(pixel: Seq<T>, out: Seq<T>) -> bool {
    exists|lower: T, top: T, o: T, bright: bool|
        #![trigger is_max(pixel[1], pixel[2], lower), is_max(pixel[0], lower, top), greater(top, o, bright)]
        {
            &&& is_max(pixel[1], pixel[2], lower)
            &&& is_max(pixel[0], lower, top)
            &&& is_one(o)
            &&& greater(top, o, bright)
            &&& if bright {
                exists|factor: T|
                    #![trigger divides(o, top, factor)]
                    divides(o, top, factor) && is_scaled(pixel, factor, out)
            } else {
                out == pixel
            }
        }
}

/// `out` is the pixel in column `i` and row `j` of the image of a scene:
/// the radiance that arrives at the eye, which sits at the origin, along
/// the primary ray of the pixel, followed for `MAX_DEPTH` bounces, after
/// the tone clamp.
pub open spec fn is_pixel<T: Float + Num + Scalar>(
    spheres: Seq<Sphere<T>>,
    lights: Seq<Light<T>>,
    width: nat,
    height: nat,
    fov: T,
    i: nat,
    j: nat,
    out: Seq<T>,
) -> bool {
    exists|z: T, dir: Seq<T>, radiance: Seq<T>|
        #![trigger is_radiance(spheres, lights, triple(z, z, z), dir, MAX_DEPTH as nat, radiance)]
        {
            &&& is_zero(z)
            &&& is_primary(width, height, fov, i, j, dir)
            &&& is_radiance(spheres, lights, triple(z, z, z), dir, MAX_DEPTH as nat, radiance)
            &&& is_tone_clamped(radiance, out)
        }
}

/// The direction of the primary ray through the centre of the pixel in
/// column `i` and row `j` of an image of `width` by `height` pixels.
pub fn primary_direction<T: Float + Num + Scalar>(
    width: usize,
    height: usize,
    fov: T,
    i: usize,
    j: usize,
) -> (out: GVec<T, 3>)
    requires
        total::<T>(),
    ensures
        is_primary(width as nat, height as nat, fov, i as nat, j as nat, out@),
{
    let half: T = ratio(1, 2);
    let two: T = natural(2);
    let fi: T = natural(i);
    let fj: T = natural(j);
    let fw: T = natural(width);
    let fh: T = natural(height);
    let right: T = fi + half;
    let middle: T = fw / two;
    let x: T = right - middle;
    let down: T = fj + half;
    let up: T = down.neg();
    let centre: T = fh / two;
    let y: T = up + centre;
    let back: T = fh.neg();
    let angle: T = fov / two;
    let slope: T = tan(angle);
    let spread: T = two * slope;
    let z: T = back / spread;
    let raw = GVec::<T, 3>::new(x, y, z);
    raw.normalize()
}

/// The pixel divided by its largest channel where that is above one, which
/// keeps its hue.
pub fn tone_clamp<T: Float + Num + Scalar>(pixel: GVec<T, 3>) -> (out: GVec<T, 3>)
    requires
        total::<T>(),
    ensures
        is_tone_clamped(pixel@, out@),
{
    let lower: T = max(pixel[1], pixel[2]);
    let top: T = max(pixel[0], lower);
    let o: T = one();
    let bright = top > o;
    if bright {
        let factor: T = o / top;
        pixel * factor
    } else {
        pixel
    }
}

impl<T: Float + Num + Scalar> View<T> {
    /// `frame` is the image of the scene as this view sees it: it has the
    /// view's size, and each of its pixels is the pixel of the scene at its
    /// position.
    pub open spec fn sees(&self, scene: Scene<T>, frame: Frame<T>) -> bool {
        &&& frame.wf()
        &&& frame.width_of() == self.width_of()
        &&& frame.height_of() == self.height_of()
        &&& forall|i: int, j: int|
            0 <= i < self.width_of() && 0 <= j < self.height_of() ==> is_pixel(
                scene.spheres_of(),
                scene.lights_of(),
                self.width_of(),
                self.height_of(),
                self.fov_of(),
                i as nat,
                j as nat,
                #[trigger] frame.pixel_at(i, j)@,
            )
    }

    /// The pixel in column `i` and row `j` of the image of the scene.
    pub fn pixel(&self, scene: &Scene<T>, i: usize, j: usize) -> (out: GVec<T, 3>)
        requires
            total::<T>(),
        ensures
            is_pixel(
                scene.spheres_of(),
                scene.lights_of(),
                self.width_of(),
                self.height_of(),
                self.fov_of(),
                i as nat,
                j as nat,
                out@,
            ),
    {
        let dir = primary_direction(self.width(), self.height(), *self.fov(), i, j);
        let z: T = zero();
        let eye = GVec::<T, 3>::new(z, z, z);
        assert(eye@ == triple(z, z, z));
        let radiance = scene.cast_ray(eye, dir, MAX_DEPTH);
        tone_clamp(radiance)
    }

    /// The image of the scene as this view sees it.
    pub fn render(self, scene: &Scene<T>) -> (frame: Frame<T>)
        requires
            total::<T>(),
        ensures
            self.sees(*scene, frame),
    {
        let width = self.width();
        let height = self.height();
        let fov: T = *self.fov();
        let eye = View::new(width, height, fov);
        let shade = |i: usize, j: usize| -> (out: GVec<T, 3>)
            requires
                total::<T>(),
            ensures
                is_pixel(
                    scene.spheres_of(),
                    scene.lights_of(),
                    width as nat,
                    height as nat,
                    fov,
                    i as nat,
                    j as nat,
                    out@,
                ),
            { eye.pixel(scene, i, j) };
        self.render_with(shade)
    }
}

} // verus!
