//! A grid of pixels, row by row.

use vstd::prelude::*;
use crate::pixel::Pixel;

verus! {

pub struct Image {
    m_width: usize,
    m_height: usize,
    m_pixels: Vec<Pixel>,
}

/// The lowest eight bits of a level.
pub open spec fn low_byte(level: u16) -> u8 {
    (level % 256) as u8
}

/// The bytes of a run of pixels: red, green, blue and an opaque alpha for each.
pub open spec fn bytes_of(pixels: Seq<Pixel>) -> Seq<u8>
    decreases pixels.len(),
{
    if pixels.len() == 0 {
        Seq::empty()
    } else {
        bytes_of(pixels.drop_last()).push(low_byte(pixels.last().red)).push(
            low_byte(pixels.last().green),
        ).push(low_byte(pixels.last().blue)).push(255u8)
    }
}

impl Image {
    pub closed spec fn width(self) -> nat {
        self.m_width as nat
    }

    pub closed spec fn height(self) -> nat {
        self.m_height as nat
    }

    /// The pixels, row after row.
    pub closed spec fn pixels(self) -> Seq<Pixel> {
        self.m_pixels@
    }

    /// There is one pixel for each place of the grid.
    pub closed spec fn wf(self) -> bool {
        self.m_pixels.len() == self.m_width * self.m_height
    }

    /// The image has the size of `before`, and none of its pixels has less
    /// of any colour than the pixel of `before` at the same place.
    pub open spec fn no_darker_than(self, before: Image) -> bool {
        &&& self.width() == before.width()
        &&& self.height() == before.height()
        &&& self.pixels().len() == before.pixels().len()
        &&& forall|i: int|
            0 <= i < self.pixels().len() ==> (#[trigger] self.pixels()[i]).red
                >= before.pixels()[i].red && self.pixels()[i].green >= before.pixels()[i].green
                && self.pixels()[i].blue >= before.pixels()[i].blue
    }

    /// Where the pixel at column `x` of row `y` stands in the list of pixels.
    pub open spec fn index_of(self, x: nat, y: nat) -> int {
        (x + y * self.width()) as int
    }

    /// A place within the grid has its index within the list of pixels.
    pub proof fn lemma_index_in_range(self, x: nat, y: nat)
        requires
            self.wf(),
            x < self.width(),
            y < self.height(),
        ensures
            0 <= self.index_of(x, y) < self.pixels().len(),
            self.pixels().len() == self.width() * self.height(),
    {
        let w = self.width() as int;
        let h = self.height() as int;
        assert(x + y * w < w * h) by (nonlinear_arith)
            requires
                0 <= x < w,
                0 <= y < h,
        ;
        assert(y * w >= 0) by (nonlinear_arith)
            requires
                y >= 0,
                w >= 0,
        ;
    }

    /// A black image. The number of pixels must be one that a `usize` holds.
    pub fn new(width: usize, height: usize) -> (image: Image)
        requires
            width * height <= usize::MAX,
        ensures
            image.wf(),
            image.width() == width,
            image.height() == height,
            image.pixels().len() == width * height,
            forall|i: int|
                0 <= i < image.pixels().len() ==> #[trigger] image.pixels()[i] == (Pixel {
                    red: 0,
                    green: 0,
                    blue: 0,
                }),
    {
        let mut pixels: Vec<Pixel> = Vec::new();
        let count: usize = width * height;
        let mut i: usize = 0;
        while i < count
            invariant
                i <= count,
                pixels.len() == i,
                forall|j: int|
                    0 <= j < i ==> #[trigger] pixels[j] == (Pixel { red: 0, green: 0, blue: 0 }),
            decreases count - i,
        {
            pixels.push(Pixel::new(0, 0, 0));
            i += 1;
        }
        Image { m_width: width, m_height: height, m_pixels: pixels }
    }

    pub fn get_width(&self) -> (w: usize)
        ensures
            w == self.width(),
    {
        self.m_width
    }

    pub fn get_height(&self) -> (h: usize)
        ensures
            h == self.height(),
    {
        self.m_height
    }

    /// The pixel at column `x` of row `y`, which must lie in the image.
    pub fn get_pixel(&self, x: usize, y: usize) -> (p: Pixel)
        requires
            self.wf(),
            x < self.width(),
            y < self.height(),
        ensures
            p == self.pixels()[self.index_of(x as nat, y as nat)],
    {
        proof {
            self.lemma_index_in_range(x as nat, y as nat);
            assert(y * self.m_width >= 0) by (nonlinear_arith)
                requires
                    y >= 0,
                    self.m_width >= 0,
            ;
        }
        self.m_pixels[x + y * self.m_width]
    }

    /// Replaces the pixel at column `x` of row `y`, which must lie in the image.
    pub fn set_pixel(&mut self, x: usize, y: usize, pixel: Pixel)
        requires
            old(self).wf(),
            x < old(self).width(),
            y < old(self).height(),
        ensures
            final(self).wf(),
            final(self).width() == old(self).width(),
            final(self).height() == old(self).height(),
            final(self).pixels() == old(self).pixels().update(
                old(self).index_of(x as nat, y as nat),
                pixel,
            ),
    {
        proof {
            self.lemma_index_in_range(x as nat, y as nat);
            assert(y * self.m_width >= 0) by (nonlinear_arith)
                requires
                    y >= 0,
                    self.m_width >= 0,
            ;
        }
        let index: usize = x + y * self.m_width;
        self.m_pixels.set(index, pixel);
    }

    /// Adds the levels of `pixel` to the pixel at column `x` of row `y`.
    pub fn accumulate(&mut self, x: usize, y: usize, pixel: Pixel)
        requires
            old(self).wf(),
            x < old(self).width(),
            y < old(self).height(),
        ensures
            final(self).wf(),
            final(self).width() == old(self).width(),
            final(self).height() == old(self).height(),
            final(self).pixels() == old(self).pixels().update(
                old(self).index_of(x as nat, y as nat),
                old(self).pixels()[old(self).index_of(x as nat, y as nat)].spec_plus(pixel),
            ),
            final(self).no_darker_than(*old(self)),
    {
        proof {
            self.lemma_index_in_range(x as nat, y as nat);
        }
        let sum: Pixel = self.get_pixel(x, y).plus(pixel);
        self.set_pixel(x, y, sum);
    }

    /// The image as bytes: four for each pixel, the lowest eight bits of each
    /// level and an opaque alpha.
    pub fn unpack(&self) -> (buffer: Vec<u8>)
        ensures
            buffer@ == bytes_of(self.pixels()),
    {
        let mut buffer: Vec<u8> = Vec::new();
        let mut i: usize = 0;
        proof {
            assert(self.m_pixels@.take(0) =~= Seq::<Pixel>::empty());
        }
        while i < self.m_pixels.len()
            invariant
                i <= self.m_pixels.len(),
                buffer@ == bytes_of(self.m_pixels@.take(i as int)),
            decreases self.m_pixels.len() - i,
        {
            proof {
                assert(self.m_pixels@.take(i + 1).drop_last() =~= self.m_pixels@.take(i as int));
            }
            let pixel: Pixel = self.m_pixels[i];
            buffer.push((pixel.red % 256) as u8);
            buffer.push((pixel.green % 256) as u8);
            buffer.push((pixel.blue % 256) as u8);
            buffer.push(255);
            i += 1;
        }
        proof {
            assert(self.m_pixels@.take(self.m_pixels.len() as int) =~= self.m_pixels@);
        }
        buffer
    }

    /// Makes every pixel black.
    pub fn clear(&mut self)
        requires
            old(self).wf(),
        ensures
            final(self).wf(),
            final(self).width() == old(self).width(),
            final(self).height() == old(self).height(),
            final(self).pixels().len() == old(self).pixels().len(),
            forall|i: int|
                0 <= i < final(self).pixels().len() ==> #[trigger] final(self).pixels()[i] == (
                Pixel { red: 0, green: 0, blue: 0 }),
    {
        let mut i: usize = 0;
        while i < self.m_pixels.len()
            invariant
                i <= self.m_pixels.len(),
                self.m_pixels.len() == old(self).m_pixels.len(),
                self.m_width == old(self).m_width,
                self.m_height == old(self).m_height,
                forall|j: int|
                    0 <= j < i ==> #[trigger] self.m_pixels[j] == (Pixel {
                        red: 0,
                        green: 0,
                        blue: 0,
                    }),
            decreases self.m_pixels.len() - i,
        {
            self.m_pixels.set(i, Pixel::new(0, 0, 0));
            i += 1;
        }
    }
}

} // verus!
