//! A rectangular grid of RGBA pixels with 8 bits per channel.

use vstd::prelude::*;

verus! {

/// The mathematical model of a pixel grid: its dimensions and its samples,
/// four per pixel (red, green, blue, alpha), row by row from the top.
pub struct Raster {
    pub width: nat,
    pub height: nat,
    pub samples: Seq<u8>,
}

impl Raster {
    /// A raster holds exactly four samples for each of its pixels.
    pub open spec fn well_formed(self) -> bool {
        self.samples.len() == 4 * self.width * self.height
    }

    /// The position in `samples` of the first sample of the pixel in
    /// column `x` of row `y`.
    pub open spec fn offset(self, x: nat, y: nat) -> int {
        (4 * (y * self.width + x)) as int
    }

    pub open spec fn red(self, x: nat, y: nat) -> u8 {
        self.samples[self.offset(x, y)]
    }

    pub open spec fn green(self, x: nat, y: nat) -> u8 {
        self.samples[self.offset(x, y) + 1]
    }

    pub open spec fn blue(self, x: nat, y: nat) -> u8 {
        self.samples[self.offset(x, y) + 2]
    }

    pub open spec fn alpha(self, x: nat, y: nat) -> u8 {
        self.samples[self.offset(x, y) + 3]
    }
}

/// The samples of every pixel of a well-formed raster lie inside its
/// sample sequence.
pub proof fn lemma_offset_in_range(r: Raster, x: nat, y: nat)
    requires
        r.well_formed(),
        x < r.width,
        y < r.height,
    ensures
        0 <= r.offset(x, y),
        r.offset(x, y) + 3 < r.samples.len(),
{
    assert(y * r.width + x < r.width * r.height) by (nonlinear_arith)
        requires
            x < r.width,
            y < r.height,
    ;
    assert(4 * r.width * r.height == 4 * (r.width * r.height)) by (nonlinear_arith);
}

/// One pixel.
#[derive(Clone, Copy, Debug, PartialEq, Eq, Structural)]
pub struct Rgba {
    pub red: u8,
    pub green: u8,
    pub blue: u8,
    pub alpha: u8,
}

/// A pixel grid in memory. Its sample count always matches its dimensions.
pub struct PixelGrid {
    width: u32,
    height: u32,
    samples: Vec<u8>,
}

impl View for PixelGrid {
    type V = Raster;

    closed spec fn view(&self) -> Raster {
        Raster { width: self.width as nat, height: self.height as nat, samples: self.samples@ }
    }
}

impl PixelGrid {
    #[verifier::type_invariant]
    pub closed spec fn sized(&self) -> bool {
        self@.well_formed()
    }

    /// Every grid in memory is well formed, with dimensions of 32 bits.
    pub proof fn lemma_well_formed(&self)
        requires
            self.sized(),
        ensures
            self@.well_formed(),
            self@.width <= u32::MAX,
            self@.height <= u32::MAX,
    {
    }

    /// A grid of the given dimensions over `samples`, where their count is
    /// four times the number of pixels; `None` otherwise.
    pub fn new(width: u32, height: u32, samples: Vec<u8>) -> (grid: Option<PixelGrid>)
        ensures
            grid is Some <==> samples@.len() == 4 * width * height,
            grid matches Some(g) ==> g@ == (Raster {
                width: width as nat,
                height: height as nat,
                samples: samples@,
            }),
    {
        assert(width * height <= 0xffff_ffff * 0xffff_ffff) by (nonlinear_arith)
            requires
                width <= 0xffff_ffff,
                height <= 0xffff_ffff,
        ;
        let pixels: u64 = (width as u64) * (height as u64);
        assert(4 * width * height == 4 * pixels) by (nonlinear_arith)
            requires
                pixels == width * height,
        ;
        if 4 * (pixels as u128) == samples.len() as u128 {
            Some(PixelGrid { width, height, samples })
        } else {
            None
        }
    }

    /// A grid of the given dimensions over `samples`, four for each pixel.
    pub fn from_samples(width: u32, height: u32, samples: Vec<u8>) -> (grid: PixelGrid)
        requires
            samples@.len() == 4 * width * height,
        ensures
            grid@ == (Raster { width: width as nat, height: height as nat, samples: samples@ }),
    {
        PixelGrid { width, height, samples }
    }

    /// The number of columns.
    pub fn width(&self) -> (w: u32)
        ensures
            w == self@.width,
    {
        self.width
    }

    /// The number of rows.
    pub fn height(&self) -> (h: u32)
        ensures
            h == self@.height,
    {
        self.height
    }

    /// The pixel in column `x` of row `y`.
    pub fn pixel(&self, x: u32, y: u32) -> (p: Rgba)
        requires
            x < self@.width,
            y < self@.height,
        ensures
            p.red == self@.red(x as nat, y as nat),
            p.green == self@.green(x as nat, y as nat),
            p.blue == self@.blue(x as nat, y as nat),
            p.alpha == self@.alpha(x as nat, y as nat),
    {
        proof {
            use_type_invariant(self);
            lemma_offset_in_range(self@, x as nat, y as nat);
            assert(self@.offset(x as nat, y as nat) == 4 * (y * self.width + x));
            assert(0 <= y * self.width) by (nonlinear_arith);
            assert(self.samples.len() <= usize::MAX);
            assert(4 * (y * self.width + x) + 3 < self.samples.len());
        }
        let first: usize = 4 * ((y as usize) * (self.width as usize) + (x as usize));
        Rgba {
            red: self.samples[first],
            green: self.samples[first + 1],
            blue: self.samples[first + 2],
            alpha: self.samples[first + 3],
        }
    }
}

} // verus!
