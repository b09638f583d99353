//! The camera's pixel grid and the frame it fills.
//!
//! A [`View`] walks the image row by row and asks a shading function for the
//! colour of each pixel; the [`Frame`] that comes out holds one pixel per grid
//! position, in row-major order. What a shading function computes is its own
//! business: the contracts here speak of it through its postcondition.

use vstd::prelude::*;
use vstd::view::View as _;
use crate::geometry::GVec;

verus! {

/// A pinhole camera: the size of the image in pixels and the vertical field
/// of view.
pub struct View<T> {
    width: usize,
    height: usize,
    fov: T,
}

/// A rendered image: `width * height` pixels in row-major order, the pixel
/// of column `i` and row `j` at index `i + j * width`.
pub struct Frame<T> {
    framebuffer: Vec<GVec<T, 3>>,
    width: usize,
    height: usize,
}

/// A position of a `width` by `height` grid has an index below
/// `width * height`, and different positions have different indices.
pub proof fn lemma_grid_index(width: int, height: int, i: int, j: int)
    requires
        0 <= i < width,
        0 <= j < height,
    ensures
        0 <= j * width <= i + j * width < width * height,
        width * height == height * width,
        (i + j * width) % width == i,
        (i + j * width) / width == j,
{
    assert(j * width + width <= height * width) by (nonlinear_arith)
        requires
            j + 1 <= height,
            0 <= width,
    ;
    assert(0 <= j * width) by (nonlinear_arith)
        requires
            0 <= j,
            0 <= width,
    ;
    assert(height * width == width * height) by (nonlinear_arith);
    vstd::arithmetic::div_mod::lemma_fundamental_div_mod_converse(i + j * width, width, j, i);
}

/// An index below `width * height` is the index of one position of the
/// grid: that of column `k % width` and row `k / width`.
pub proof fn lemma_grid_position(width: int, height: int, k: int)
    requires
        0 <= width,
        0 <= height,
        0 <= k < width * height,
    ensures
        0 <= k % width < width,
        0 <= k / width < height,
        k == k % width + (k / width) * width,
{
    assert(width > 0) by (nonlinear_arith)
        requires
            0 <= k < width * height,
            0 <= width,
    ;
    let i = k % width;
    let j = k / width;
    vstd::arithmetic::div_mod::lemma_fundamental_div_mod(k, width);
    assert(j * width == width * j) by (nonlinear_arith);
    assert(0 <= j < height) by (nonlinear_arith)
        requires
            0 <= k < width * height,
            0 < width,
            k == width * j + i,
            0 <= i < width,
    ;
}

impl<T> View<T> {
    /// The number of columns.
    pub closed spec fn width_of(&self) -> nat {
        self.width as nat
    }

    /// The number of rows.
    pub closed spec fn height_of(&self) -> nat {
        self.height as nat
    }

    /// The vertical field of view.
    pub closed spec fn fov_of(&self) -> T {
        self.fov
    }

    /// `frame` is an image of this view under `shade`: it has the view's
    /// size, and each pixel is a result of `shade` at its position.
    pub open spec fn renders<F: Fn(usize, usize) -> GVec<T, 3>>(
        &self,
        shade: F,
        frame: Frame<T>,
    ) -> bool {
        &&& frame.wf()
        &&& frame.width_of() == self.width_of()
        &&& frame.height_of() == self.height_of()
        &&& forall|i: int, j: int|
            0 <= i < self.width_of() && 0 <= j < self.height_of() ==> call_ensures(
                shade,
                (i as usize, j as usize),
                #[trigger] frame.pixel_at(i, j),
            )
    }

    /// A view of `width` by `height` pixels with the field of view `fov`.
    pub fn new(width: usize, height: usize, fov: T) -> (out: Self)
        ensures
            out.width_of() == width,
            out.height_of() == height,
            out.fov_of() == fov,
    {
        View { width, height, fov }
    }

    /// The number of columns.
    pub fn width(&self) -> (out: usize)
        ensures
            out == self.width_of(),
    {
        self.width
    }

    /// The number of rows.
    pub fn height(&self) -> (out: usize)
        ensures
            out == self.height_of(),
    {
        self.height
    }

    /// The vertical field of view.
    pub fn fov(&self) -> (out: &T)
        ensures
            *out == self.fov_of(),
    {
        &self.fov
    }

    /// Shades every pixel, row by row from the top and from left to right
    /// within a row, and collects the results into a frame.
    pub fn render_with<F: Fn(usize, usize) -> GVec<T, 3>>(self, shade: F) -> (frame: Frame<T>)
        requires
            forall|i: usize, j: usize|
                i < self.width_of() && j < self.height_of() ==> call_requires(shade, (i, j)),
        ensures
            self.renders(shade, frame),
    {
        let width = self.width;
        let height = self.height;
        let mut framebuffer: Vec<GVec<T, 3>> = Vec::new();
        let mut j: usize = 0;
        while j < height
            invariant
                j <= height,
                framebuffer@.len() == j * width,
                forall|i: usize, j: usize| i < width && j < height ==> call_requires(shade, (i, j)),
                forall|a: int, b: int|
                    0 <= a < width && 0 <= b < j ==> call_ensures(
                        shade,
                        (a as usize, b as usize),
                        #[trigger] framebuffer@[a + b * width],
                    ),
            decreases height - j,
        {
            let mut i: usize = 0;
            while i < width
                invariant
                    i <= width,
                    j < height,
                    framebuffer@.len() == j * width + i,
                    forall|i: usize, j: usize|
                        i < width && j < height ==> call_requires(shade, (i, j)),
                    forall|a: int, b: int|
                        0 <= a < width && 0 <= b < j ==> call_ensures(
                            shade,
                            (a as usize, b as usize),
                            #[trigger] framebuffer@[a + b * width],
                        ),
                    forall|a: int|
                        0 <= a < i ==> call_ensures(
                            shade,
                            (a as usize, j),
                            #[trigger] framebuffer@[a + j * width],
                        ),
                decreases width - i,
            {
                let pixel = shade(i, j);
                framebuffer.push(pixel);
                proof {
                    assert forall|a: int, b: int| 0 <= a < width && 0 <= b < j implies call_ensures(
                        shade,
                        (a as usize, b as usize),
                        #[trigger] framebuffer@[a + b * width],
                    ) by {
                        lemma_grid_index(width as int, j as int, a, b);
                    }
                }
                i += 1;
            }
            proof {
                assert(j * width + width == (j + 1) * width) by (nonlinear_arith);
            }
            j += 1;
        }
        proof {
            assert(height * width == width * height) by (nonlinear_arith);
        }
        Frame { framebuffer, width, height }
    }
}

impl<T> Frame<T> {
    /// The frame holds exactly one pixel for each grid position.
    #[verifier::type_invariant]
    pub closed spec fn wf(&self) -> bool {
        self.framebuffer@.len() == self.width * self.height
    }

    /// The number of columns.
    pub closed spec fn width_of(&self) -> nat {
        self.width as nat
    }

    /// The number of rows.
    pub closed spec fn height_of(&self) -> nat {
        self.height as nat
    }

    /// The pixels in row-major order.
    pub closed spec fn pixels(&self) -> Seq<GVec<T, 3>> {
        self.framebuffer@
    }

    /// The pixel of column `i` and row `j`.
    pub open spec fn pixel_at(&self, i: int, j: int) -> GVec<T, 3> {
        self.pixels()[i + j * self.width_of()]
    }

    /// A well-formed frame has `width * height` pixels.
    pub proof fn lemma_len(&self)
        requires
            self.wf(),
        ensures
            self.pixels().len() == self.width_of() * self.height_of(),
    {
    }

    /// The number of columns.
    pub fn width(&self) -> (out: usize)
        ensures
            out == self.width_of(),
    {
        self.width
    }

    /// The number of rows.
    pub fn height(&self) -> (out: usize)
        ensures
            out == self.height_of(),
    {
        self.height
    }

    /// The pixels in row-major order.
    pub fn framebuffer(&self) -> (out: &Vec<GVec<T, 3>>)
        ensures
            out@ == self.pixels(),
    {
        &self.framebuffer
    }

    /// The pixel of column `i` and row `j`.
    pub fn pixel(&self, i: usize, j: usize) -> (out: &GVec<T, 3>)
        requires
            i < self.width_of(),
            j < self.height_of(),
        ensures
            *out == self.pixel_at(i as int, j as int),
    {
        let len = self.framebuffer.len();
        proof {
            use_type_invariant(self);
            lemma_grid_index(self.width as int, self.height as int, i as int, j as int);
            assert(i + j * self.width < len);
        }
        &self.framebuffer[i + j * self.width]
    }
}

} // verus!
