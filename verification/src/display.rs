//! A framebuffer display: pixels in a row-major buffer with a row stride.

use vstd::prelude::*;

verus! {

/// Why a pixel access failed.
#[derive(Debug, PartialEq, Eq, Clone, Copy, Structural)]
pub enum DisplayError {
    /// The coordinates fall outside the framebuffer.
    OutOfBound(usize, usize),
}

/// A graphics-output framebuffer: `width` by `height` visible pixels, rows
/// `stride` pixels apart in the buffer.
pub struct GOPDisplay {
    width: usize,
    height: usize,
    stride: usize,
    buf: Vec<u32>,
}

impl GOPDisplay {
    /// The visible width in pixels.
    pub closed spec fn spec_width(&self) -> usize {
        self.width
    }

    /// The visible height in pixels.
    pub closed spec fn spec_height(&self) -> usize {
        self.height
    }

    /// Pixels per buffer row.
    pub closed spec fn spec_stride(&self) -> usize {
        self.stride
    }

    /// The raw pixel buffer, row-major.
    pub closed spec fn spec_buf(&self) -> Seq<u32> {
        self.buf@
    }

    /// Geometry soundness: rows at least as wide as the display, the buffer
    /// holding every row.
    pub open spec fn wf(&self) -> bool {
        &&& self.spec_stride() >= self.spec_width()
        &&& self.spec_buf().len() == self.spec_height() * self.spec_stride()
    }

    /// A cleared framebuffer of the given geometry.
    pub fn new(width: usize, height: usize, stride: usize) -> (r: Self)
        requires
            stride >= width,
            height * stride <= usize::MAX,
        ensures
            r.wf(),
            r.spec_width() == width,
            r.spec_height() == height,
            r.spec_stride() == stride,
            forall|i: int| 0 <= i < r.spec_buf().len() ==> r.spec_buf()[i] == 0,
    {
        proof {
            assert(height * stride >= 0) by (nonlinear_arith);
        }
        let mut buf: Vec<u32> = Vec::new();
        let n = height * stride;
        let mut i: usize = 0;
        while i < n
            invariant
                i <= n,
                buf@.len() == i,
                forall|k: int| 0 <= k < i ==> buf@[k] == 0,
            decreases n - i,
        {
            buf.push(0);
            i = i + 1;
        }
        Self { width, height, stride, buf }
    }

    /// Read the pixel at `(x, y)`; coordinates outside the buffer's geometry
    /// are reported.
    pub fn get_pixel(&self, x: usize, y: usize) -> (r: Result<u32, DisplayError>)
        requires
            self.wf(),
        ensures
            x < self.spec_stride() && y < self.spec_height() ==> r == Ok::<u32, DisplayError>(
                self.spec_buf()[y * self.spec_stride() + x],
            ),
            !(x < self.spec_stride() && y < self.spec_height()) ==> r == Err::<
                u32,
                DisplayError,
            >(DisplayError::OutOfBound(x, y)),
    {
        if x < self.stride && y < self.height {
            let n = self.buf.len();
            proof {
                lemma_pixel_index_in_bounds(x as int, y as int, self.spec_stride() as int, self.spec_height() as int);
                assert(y * self.spec_stride() + x < n);
            }
            Ok(self.buf[y * self.stride + x])
        } else {
            Err(DisplayError::OutOfBound(x, y))
        }
    }

    /// Set the pixel at `(x, y)`; coordinates outside the buffer's geometry
    /// are reported and change nothing.
    pub fn set_pixel(&mut self, x: usize, y: usize, raw_color: u32) -> (r: Result<
        (),
        DisplayError,
    >)
        requires
            old(self).wf(),
        ensures
            final(self).wf(),
            final(self).spec_width() == old(self).spec_width(),
            final(self).spec_height() == old(self).spec_height(),
            final(self).spec_stride() == old(self).spec_stride(),
            x < old(self).spec_stride() && y < old(self).spec_height() ==> r == Ok::<
                (),
                DisplayError,
            >(()) && final(self).spec_buf() == old(self).spec_buf().update(
                y * old(self).spec_stride() + x,
                raw_color,
            ),
            !(x < old(self).spec_stride() && y < old(self).spec_height()) ==> r == Err::<
                (),
                DisplayError,
            >(DisplayError::OutOfBound(x, y)) && final(self).spec_buf() == old(self).spec_buf(),
    {
        if x < self.stride && y < self.height {
            let n = self.buf.len();
            proof {
                lemma_pixel_index_in_bounds(x as int, y as int, self.spec_stride() as int, self.spec_height() as int);
                assert(y * old(self).spec_stride() + x < n);
            }
            let idx = y * self.stride + x;
            self.buf[idx] = raw_color;
            Ok(())
        } else {
            Err(DisplayError::OutOfBound(x, y))
        }
    }

    /// Blank the whole framebuffer.
    pub fn clear(&mut self)
        requires
            old(self).wf(),
        ensures
            final(self).wf(),
            final(self).spec_width() == old(self).spec_width(),
            final(self).spec_height() == old(self).spec_height(),
            final(self).spec_stride() == old(self).spec_stride(),
            final(self).spec_buf().len() == old(self).spec_buf().len(),
            forall|i: int| 0 <= i < final(self).spec_buf().len() ==> final(self).spec_buf()[i] == 0,
    {
        let n = self.buf.len();
        let mut i: usize = 0;
        while i < n
            invariant
                i <= n,
                n == self.buf@.len(),
                self.width == old(self).spec_width(),
                self.height == old(self).spec_height(),
                self.stride == old(self).spec_stride(),
                self.buf@.len() == old(self).spec_buf().len(),
                forall|k: int| 0 <= k < i ==> self.buf@[k] == 0,
            decreases n - i,
        {
            self.buf[i] = 0;
            i = i + 1;
        }
    }

    /// Scroll the framebuffer up by `n` rows: each kept row takes the pixels
    /// of the row `n` below it; the bottom `n` rows keep their old pixels.
    pub fn scrollup_n(&mut self, n: u8)
        requires
            old(self).wf(),
            n as int <= old(self).spec_height(),
        ensures
            final(self).wf(),
            final(self).spec_width() == old(self).spec_width(),
            final(self).spec_height() == old(self).spec_height(),
            final(self).spec_stride() == old(self).spec_stride(),
            final(self).spec_buf().len() == old(self).spec_buf().len(),
            forall|i: int|
                0 <= i < (old(self).spec_height() - n) * old(self).spec_stride() ==> final(self).spec_buf()[i] == old(self).spec_buf()[i + n * old(self).spec_stride()],
            forall|i: int|
                (old(self).spec_height() - n) * old(self).spec_stride() <= i < final(self).spec_buf().len() ==> final(self).spec_buf()[i] == old(self).spec_buf()[i],
    {
        let total = self.buf.len();
        proof {
            lemma_scroll_bounds(n as int, self.spec_height() as int, self.spec_stride() as int);
            assert(n * self.spec_stride() <= total);
            assert((self.spec_height() - n) * self.spec_stride() <= total);
        }
        let shift = (n as usize) * self.stride;
        let kept = (self.height - n as usize) * self.stride;
        let mut i: usize = 0;
        while i < kept
            invariant
                i <= kept,
                total == self.buf@.len(),
                kept + shift == total,
                self.width == old(self).spec_width(),
                self.height == old(self).spec_height(),
                self.stride == old(self).spec_stride(),
                self.buf@.len() == old(self).spec_buf().len(),
                forall|m: int| 0 <= m < i ==> self.buf@[m] == old(self).spec_buf()[m + shift],
                forall|m: int| i <= m < total ==> self.buf@[m] == old(self).spec_buf()[m],
            decreases kept - i,
        {
            let v = self.buf[i + shift];
            self.buf[i] = v;
            i = i + 1;
        }
    }

    /// The visible resolution, width by height.
    pub fn resolution(&self) -> (r: (usize, usize))
        ensures
            r.0 == self.spec_width(),
            r.1 == self.spec_height(),
    {
        (self.width, self.height)
    }
}

/// Splitting the buffer at the scroll boundary: the kept rows and the
/// scrolled-past rows together make the whole buffer.
proof fn lemma_scroll_bounds(n: int, height: int, stride: int)
    requires
        0 <= n <= height,
        stride >= 0,
    ensures
        (height - n) * stride + n * stride == height * stride,
        0 <= (height - n) * stride,
        0 <= n * stride,
{
    assert((height - n) * stride + n * stride == height * stride && 0 <= (height - n) * stride && 0
        <= n * stride) by (nonlinear_arith)
        requires
            0 <= n <= height,
            stride >= 0,
    ;
}

/// A pixel inside the visible rows sits inside the buffer.
proof fn lemma_pixel_index_in_bounds(x: int, y: int, stride: int, height: int)
    requires
        0 <= x < stride,
        0 <= y < height,
    ensures
        0 <= y * stride + x < height * stride,
{
    assert(y * stride + x < height * stride) by (nonlinear_arith)
        requires
            0 <= x < stride,
            0 <= y < height,
    ;
    assert(y * stride >= 0) by (nonlinear_arith)
        requires
            y >= 0,
            stride >= 0,
    ;
}

} // verus!
