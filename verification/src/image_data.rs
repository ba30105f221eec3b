use vstd::prelude::*;

verus! {

/// A single pixel: four unsigned byte channels (red, green, blue, alpha).
#[derive(Clone, Copy, PartialEq, Eq, Structural, Debug)]
pub struct Pixel {
    pub r: u8,
    pub g: u8,
    pub b: u8,
    pub a: u8,
}

impl Pixel {
    /// Sum of all four channels, as a mathematical integer.
    pub open spec fn channel_sum(self) -> int {
        self.r + self.g + self.b + self.a
    }

    /// Sum of the three color channels, alpha excluded.
    pub open spec fn rgb_sum(self) -> int {
        self.r + self.g + self.b
    }

    pub fn new(r: u8, g: u8, b: u8, a: u8) -> (p: Pixel)
        ensures
            p == (Pixel { r, g, b, a }),
    {
        Pixel { r, g, b, a }
    }
}

/// An immutable two-dimensional grid of pixels, stored row-major.
/// Origin at (0, 0); rows grow downward, columns rightward.
pub struct Image {
    pub width: u32,
    pub height: u32,
    pub pixels: Vec<Pixel>,
}

impl Image {
    /// The pixel store holds exactly one pixel per coordinate.
    pub open spec fn wf(self) -> bool {
        self.pixels@.len() == self.width * self.height
    }

    pub open spec fn spec_width(self) -> int {
        self.width as int
    }

    pub open spec fn spec_height(self) -> int {
        self.height as int
    }

    /// Whether a coordinate addresses a real pixel.
    pub open spec fn contains(self, x: int, y: int) -> bool {
        0 <= x < self.width && 0 <= y < self.height
    }

    /// The pixel at an in-bounds coordinate.
    pub open spec fn pixel(self, x: int, y: int) -> Pixel
        recommends
            self.contains(x, y),
    {
        self.pixels@[y * self.width + x]
    }

    /// Builds an image from its dimensions and a row-major pixel store.
    /// Succeeds exactly when the store's length matches the dimensions.
    pub fn new(width: u32, height: u32, pixels: Vec<Pixel>) -> (r: Option<Image>)
        ensures
            r is Some <==> pixels@.len() == width * height,
            r matches Some(img) ==> {
                &&& img.wf()
                &&& img.spec_width() == width
                &&& img.spec_height() == height
                &&& forall|x: int, y: int|
                    img.contains(x, y) ==> img.pixel(x, y) == pixels@[y * width + x]
            },
    {
        proof {
            lemma_dimension_product_fits(width as int, height as int);
        }
        if pixels.len() as u64 == (width as u64) * (height as u64) {
            Some(Image { width, height, pixels })
        } else {
            None
        }
    }

    pub fn width(&self) -> (w: u32)
        ensures
            w == self.spec_width(),
    {
        self.width
    }

    pub fn height(&self) -> (h: u32)
        ensures
            h == self.spec_height(),
    {
        self.height
    }

    pub fn in_bounds(&self, x: u32, y: u32) -> (r: bool)
        ensures
            r == self.contains(x as int, y as int),
    {
        x < self.width && y < self.height
    }

    pub fn pixel_at(&self, x: u32, y: u32) -> (p: Pixel)
        requires
            self.wf(),
            self.contains(x as int, y as int),
        ensures
            p == self.pixel(x as int, y as int),
    {
        let n: usize = self.pixels.len();
        proof {
            lemma_row_major_index_in_range(
                x as int,
                y as int,
                self.width as int,
                self.height as int,
            );
            assert(y * self.width + x < n);
        }
        let idx: usize = (y as usize) * (self.width as usize) + (x as usize);
        self.pixels[idx]
    }
}

/// A row-major index stays below `width * height` for any in-bounds coordinate.
/// The product of two dimensions that each fit in 32 bits fits in 64 bits.
pub proof fn lemma_dimension_product_fits(width: int, height: int)
    by (nonlinear_arith)
    requires
        0 <= width <= u32::MAX,
        0 <= height <= u32::MAX,
    ensures
        width * height <= u64::MAX,
{
}

pub proof fn lemma_row_major_index_in_range(x: int, y: int, width: int, height: int)
    by (nonlinear_arith)
    requires
        0 <= x < width,
        0 <= y < height,
    ensures
        0 <= y * width + x < width * height,
{
}

pub fn channel_sum(p: Pixel) -> (s: i32)
    ensures
        s == p.channel_sum(),
{
    p.r as i32 + p.g as i32 + p.b as i32 + p.a as i32
}

pub fn rgb_sum(p: Pixel) -> (s: i32)
    ensures
        s == p.rgb_sum(),
{
    p.r as i32 + p.g as i32 + p.b as i32
}

} // verus!
