//! The textel grid and the sampler that fills it from a source raster.
//!
//! A grid holds exactly `width * height` textels, row-major, origin at
//! the top left; the dimensions are fixed at construction. The sampler
//! averages a fixed 3-by-3 pattern of source pixels for every cell.
use vstd::prelude::*;

use crate::raster::Raster;
use crate::raster::Rgb;

verus! {

/// One grid position: a display glyph and its color.
#[derive(Clone, Copy, Debug, PartialEq, Eq, Structural)]
pub struct Textel {
    pub glyph: char,
    pub color: Rgb,
}

/// The glyph of a freshly constructed, still empty cell.
pub const BLANK_GLYPH: char = ' ';

/// The glyph every sampled cell carries: a solid block.
pub const BLOCK_GLYPH: char = '\u{2588}';

/// The content of a cell that no image has been sampled into.
pub open spec fn blank_textel() -> Textel {
    Textel { glyph: BLANK_GLYPH, color: Rgb { r: 0, g: 0, b: 0 } }
}

/// Returns the content of a cell that no image has been sampled into.
pub fn blank_cell() -> (t: Textel)
    ensures
        t == blank_textel(),
{
    Textel { glyph: BLANK_GLYPH, color: Rgb { r: 0, g: 0, b: 0 } }
}

/// A fixed-size grid of textels: a lossy, downsampled projection of a
/// source raster.
#[derive(Clone, Debug, PartialEq, Eq)]
pub struct AsciiArt {
    pub width: usize,
    pub height: usize,
    pub data: Vec<Textel>,
}

impl AsciiArt {
    /// The grid holds exactly `width * height` cells.
    pub open spec fn wf(self) -> bool {
        self.data@.len() == self.width * self.height
    }

    /// The cell at column `x`, row `y`.
    pub open spec fn cell(self, x: int, y: int) -> Textel {
        self.data@[y * self.width + x]
    }

    /// Row `y` of the grid, left to right.
    pub open spec fn row(self, y: int) -> Seq<Textel> {
        Seq::new(self.width as nat, |x: int| self.cell(x, y))
    }

    /// The grid as a sequence of its rows, top to bottom.
    pub open spec fn rows(self) -> Seq<Seq<Textel>> {
        Seq::new(self.height as nat, |y: int| self.row(y))
    }

    /// Builds a grid of the requested dimensions from a source raster,
    /// sampling each cell's source region with the fixed 3-by-3
    /// pattern. Succeeds exactly when both requested dimensions are
    /// positive and the source is at least as large as the grid on
    /// both axes; the result is then determined by the source and the
    /// dimensions alone.
    pub fn from_image(image: &Raster, width: usize, height: usize) -> (r: Result<
        AsciiArt,
        SampleError,
    >)
        requires
            image.wf(),
        ensures
            width == 0 || height == 0 ==> r == Err::<AsciiArt, SampleError>(
                SampleError::EmptyGrid,
            ),
            width > 0 && height > 0 && (image.width < width || image.height < height) ==> r
                == Err::<AsciiArt, SampleError>(SampleError::SourceTooSmall),
            0 < width <= image.width && 0 < height <= image.height ==> r is Ok && (Ok::<
                AsciiArt,
                SampleError,
            >(r->Ok_0) == r && {
                let g = r->Ok_0;
                let rx = image.width as int / width as int;
                let ry = image.height as int / height as int;
                &&& g.wf()
                &&& g.width == width
                &&& g.height == height
                &&& forall|x: int, y: int|
                    0 <= x < width && 0 <= y < height ==> g.cell(x, y) == sampled_textel(
                        *image,
                        x,
                        y,
                        rx,
                        ry,
                    )
            }),
    {
        if width == 0 || height == 0 {
            return Err(SampleError::EmptyGrid);
        }
        if image.width < width || image.height < height {
            return Err(SampleError::SourceTooSmall);
        }
        let rx: usize = image.width / width;
        let ry: usize = image.height / height;
        proof {
            assert(rx >= 1 && width * rx <= image.width) by (nonlinear_arith)
                requires rx == image.width as int / width as int, 1 <= width <= image.width;
            assert(ry >= 1 && height * ry <= image.height) by (nonlinear_arith)
                requires ry == image.height as int / height as int, 1 <= height <= image.height;
            assert(width * height * 3 <= image.width * image.height * 3) by (nonlinear_arith)
                requires width <= image.width, height <= image.height;
        }
        // An exec read of the length bounds it as a usize for the
        // index arithmetic below.
        let n: usize = image.data.len();
        let total: usize = width * height;
        let mut data: Vec<Textel> = Vec::new();
        let mut k: usize = 0;
        while k < total
            invariant
                k <= total,
                total == width * height,
                1 <= width <= image.width,
                1 <= height <= image.height,
                image.wf(),
                rx == image.width as int / width as int,
                ry == image.height as int / height as int,
                rx >= 1,
                ry >= 1,
                width * rx <= image.width,
                height * ry <= image.height,
                data@.len() == k,
                forall|j: int|
                    0 <= j < k ==> data@[j] == sampled_textel(
                        *image,
                        j % width as int,
                        j / width as int,
                        rx as int,
                        ry as int,
                    ),
            decreases total - k,
        {
            let x: usize = k % width;
            let y: usize = k / width;
            proof {
                assert(y < height && (y + 1) * ry <= height * ry) by (nonlinear_arith)
                    requires
                        k < width * height,
                        y == k as int / width as int,
                        ry >= 1,
                        width >= 1,
                        height >= 1;
                assert((x + 1) * rx <= width * rx) by (nonlinear_arith)
                    requires x == k as int % width as int, width >= 1, rx >= 1;
            }
            let t = sample_at(x, y, rx, ry, image);
            data.push(t);
            k = k + 1;
        }
        let art = AsciiArt { width, height, data };
        proof {
            assert forall|x: int, y: int|
                0 <= x < width && 0 <= y < height implies art.cell(x, y) == sampled_textel(
                *image,
                x,
                y,
                rx as int,
                ry as int,
            ) by {
                assert(0 <= y * width + x < width * height && (y * width + x) % width as int == x
                    && (y * width + x) / width as int == y) by (nonlinear_arith)
                    requires 0 <= x < width, 0 <= y < height;
            }
        }
        Ok(art)
    }

    /// Reads the cell at column `x`, row `y`.
    pub fn cell_at(&self, x: usize, y: usize) -> (t: Textel)
        requires
            self.wf(),
            x < self.width,
            y < self.height,
        ensures
            t == self.cell(x as int, y as int),
    {
        // An exec read of the length bounds it as a usize for the
        // index arithmetic below.
        let n: usize = self.data.len();
        proof {
            assert(y * self.width + x < self.width * self.height) by (nonlinear_arith)
                requires x < self.width, y < self.height;
        }
        self.data[y * self.width + x]
    }
}

/// Why a source raster could not be sampled into a grid.
#[derive(Clone, Copy, Debug, PartialEq, Eq, Structural)]
pub enum SampleError {
    /// A requested grid dimension was zero, so no pixel-to-cell ratio
    /// exists.
    EmptyGrid,
    /// The source raster is smaller than the requested grid on some
    /// axis, so the pixel-to-cell ratio there would be zero.
    SourceTooSmall,
}

/// The sampling offset used on one axis: `0`, `(ratio - 1) / 2` and
/// `ratio - 1` for the three sample columns (or rows) of a cell.
pub open spec fn sample_off(ratio: int, k: int) -> int {
    if k == 0 {
        0
    } else if k == 1 {
        (ratio - 1) / 2
    } else {
        ratio - 1
    }
}

/// The sum of channel `c` over the first `n` of the nine sample points
/// of the cell at column `x`, row `y`, taken row by row, for the
/// per-axis pixel-to-cell ratios `rx` and `ry`.
pub open spec fn partial_sum(img: Raster, x: int, y: int, rx: int, ry: int, c: int, n: int) -> int
    decreases n,
{
    if n <= 0 {
        0
    } else {
        let k = n - 1;
        partial_sum(img, x, y, rx, ry, c, k)
            + img.chan(x * rx + sample_off(rx, k % 3), y * ry + sample_off(ry, k / 3), c)
    }
}

/// The sum of channel `c` over all nine sample points of the cell at
/// column `x`, row `y`.
pub open spec fn sample_sum(img: Raster, x: int, y: int, rx: int, ry: int, c: int) -> int {
    partial_sum(img, x, y, rx, ry, c, 9)
}

/// The color of the cell at column `x`, row `y`: each channel is the
/// truncating average of the nine sampled pixels.
pub open spec fn sampled_color(img: Raster, x: int, y: int, rx: int, ry: int) -> Rgb {
    Rgb {
        r: (sample_sum(img, x, y, rx, ry, 0) / 9) as u8,
        g: (sample_sum(img, x, y, rx, ry, 1) / 9) as u8,
        b: (sample_sum(img, x, y, rx, ry, 2) / 9) as u8,
    }
}

/// The textel the sampler emits for the cell at column `x`, row `y`.
pub open spec fn sampled_textel(img: Raster, x: int, y: int, rx: int, ry: int) -> Textel {
    Textel { glyph: BLOCK_GLYPH, color: sampled_color(img, x, y, rx, ry) }
}

/// Returns a blank grid of the requested dimensions: every cell holds
/// the space glyph with color black.
pub fn blank_art(width: usize, height: usize) -> (art: AsciiArt)
    ensures
        art.wf(),
        art.width == width,
        art.height == height,
        forall|x: int, y: int|
            0 <= x < width && 0 <= y < height ==> art.cell(x, y) == blank_textel(),
{
    let mut data: Vec<Textel> = Vec::new();
    let mut y: usize = 0;
    while y < height
        invariant
            y <= height,
            data@.len() == y * width,
            forall|j: int| 0 <= j < data@.len() ==> data@[j] == blank_textel(),
        decreases height - y,
    {
        let mut x: usize = 0;
        while x < width
            invariant
                x <= width,
                y < height,
                data@.len() == y * width + x,
                forall|j: int| 0 <= j < data@.len() ==> data@[j] == blank_textel(),
            decreases width - x,
        {
            data.push(Textel { glyph: BLANK_GLYPH, color: Rgb { r: 0, g: 0, b: 0 } });
            x = x + 1;
        }
        proof {
            assert((y + 1) * width == y * width + width) by (nonlinear_arith);
        }
        y = y + 1;
    }
    proof {
        assert(height * width == width * height) by (nonlinear_arith);
    }
    let art = AsciiArt { width, height, data };
    proof {
        assert forall|x: int, y: int|
            0 <= x < width && 0 <= y < height implies art.cell(x, y) == blank_textel() by {
            assert(0 <= y * width + x < height * width) by (nonlinear_arith)
                requires 0 <= x < width, 0 <= y < height;
        }
    }
    art
}

/// Samples the source region of the cell at column `tex_x`, row
/// `tex_y`: reads the fixed 3-by-3 pattern of pixels and averages
/// their channels.
pub fn sample_at(tex_x: usize, tex_y: usize, rx: usize, ry: usize, image: &Raster) -> (t: Textel)
    requires
        image.wf(),
        rx >= 1,
        ry >= 1,
        (tex_x + 1) * rx <= image.width,
        (tex_y + 1) * ry <= image.height,
    ensures
        t == sampled_textel(*image, tex_x as int, tex_y as int, rx as int, ry as int),
{
    proof {
        assert(tex_x * rx + (rx - 1) < image.width && tex_y * ry + (ry - 1) < image.height)
            by (nonlinear_arith)
            requires
                rx >= 1,
                ry >= 1,
                (tex_x + 1) * rx <= image.width,
                (tex_y + 1) * ry <= image.height;
    }
    let bx: usize = tex_x * rx;
    let by: usize = tex_y * ry;

    let mut sum_r: u32 = 0;
    let mut sum_g: u32 = 0;
    let mut sum_b: u32 = 0;
    let mut j: usize = 0;
    while j < 3
        invariant
            j <= 3,
            image.wf(),
            rx >= 1,
            ry >= 1,
            bx == tex_x * rx,
            by == tex_y * ry,
            bx + (rx - 1) < image.width,
            by + (ry - 1) < image.height,
            sum_r <= 765 * j,
            sum_g <= 765 * j,
            sum_b <= 765 * j,
            sum_r == partial_sum(*image, tex_x as int, tex_y as int, rx as int, ry as int, 0, 3 * j),
            sum_g == partial_sum(*image, tex_x as int, tex_y as int, rx as int, ry as int, 1, 3 * j),
            sum_b == partial_sum(*image, tex_x as int, tex_y as int, rx as int, ry as int, 2, 3 * j),
        decreases 3 - j,
    {
        let dy: usize = if j == 0 { 0 } else if j == 1 { (ry - 1) / 2 } else { ry - 1 };
        proof {
            assert(dy == sample_off(ry as int, j as int));
        }
        let mut i: usize = 0;
        while i < 3
            invariant
                i <= 3,
                j < 3,
                image.wf(),
                rx >= 1,
                ry >= 1,
                bx == tex_x * rx,
                by == tex_y * ry,
                bx + (rx - 1) < image.width,
                by + (ry - 1) < image.height,
                dy == sample_off(ry as int, j as int),
                sum_r <= 255 * (3 * j + i),
                sum_g <= 255 * (3 * j + i),
                sum_b <= 255 * (3 * j + i),
                sum_r == partial_sum(*image, tex_x as int, tex_y as int, rx as int, ry as int, 0, 3 * j + i),
                sum_g == partial_sum(*image, tex_x as int, tex_y as int, rx as int, ry as int, 1, 3 * j + i),
                sum_b == partial_sum(*image, tex_x as int, tex_y as int, rx as int, ry as int, 2, 3 * j + i),
            decreases 3 - i,
        {
            let dx: usize = if i == 0 { 0 } else if i == 1 { (rx - 1) / 2 } else { rx - 1 };
            proof {
                assert(dx == sample_off(rx as int, i as int));
                assert((3 * j + i) % 3 == i && (3 * j + i) / 3 == j) by (nonlinear_arith)
                    requires 0 <= i < 3, 0 <= j;
            }
            let px: usize = bx + dx;
            let py: usize = by + dy;
            let p = image.pixel_at(px, py);
            sum_r = sum_r + p.r as u32;
            sum_g = sum_g + p.g as u32;
            sum_b = sum_b + p.b as u32;
            i = i + 1;
        }
        j = j + 1;
    }
    Textel {
        glyph: BLOCK_GLYPH,
        color: Rgb { r: (sum_r / 9) as u8, g: (sum_g / 9) as u8, b: (sum_b / 9) as u8 },
    }
}

/// Averaging nine identical samples is lossless: on a source raster
/// When channel `c` reads the same value `v` at each of the first `n`
/// sample points of a cell, their partial sum is `n * v`.
proof fn lemma_partial_sum_constant(
    img: Raster,
    x: int,
    y: int,
    rx: int,
    ry: int,
    c: int,
    v: int,
    n: int,
)
    requires
        0 <= n <= 9,
        forall|k: int|
            0 <= k < n ==> #[trigger] img.chan(
                x * rx + sample_off(rx, k % 3),
                y * ry + sample_off(ry, k / 3),
                c,
            ) == v,
    ensures
        partial_sum(img, x, y, rx, ry, c, n) == n * v,
    decreases n,
{
    if n <= 0 {
        assert(n * v == 0) by (nonlinear_arith)
            requires n == 0;
    } else {
        lemma_partial_sum_constant(img, x, y, rx, ry, c, v, n - 1);
        assert(img.chan(
            x * rx + sample_off(rx, (n - 1) % 3),
            y * ry + sample_off(ry, (n - 1) / 3),
            c,
        ) == v);
        assert(n * v == (n - 1) * v + v) by (nonlinear_arith);
    }
}

/// whose every pixel has color `c`, every cell the sampler produces
/// for a grid of positive dimensions no larger than the source has
/// exactly color `c`.
pub proof fn lemma_uniform_sample(img: Raster, width: usize, height: usize, c: Rgb)
    requires
        img.wf(),
        forall|px: int, py: int|
            0 <= px < img.width && 0 <= py < img.height ==> img.pixel(px, py) == c,
        1 <= width <= img.width,
        1 <= height <= img.height,
    ensures
        forall|x: int, y: int|
            0 <= x < width && 0 <= y < height ==> #[trigger] sampled_textel(
                img,
                x,
                y,
                img.width as int / width as int,
                img.height as int / height as int,
            ) == (Textel { glyph: BLOCK_GLYPH, color: c }),
{
    let rx = img.width as int / width as int;
    let ry = img.height as int / height as int;
    assert(rx >= 1 && width * rx <= img.width) by (nonlinear_arith)
        requires rx == img.width as int / width as int, 1 <= width <= img.width;
    assert(ry >= 1 && height * ry <= img.height) by (nonlinear_arith)
        requires ry == img.height as int / height as int, 1 <= height <= img.height;
    assert forall|x: int, y: int|
        0 <= x < width && 0 <= y < height implies sampled_textel(img, x, y, rx, ry) == (Textel {
        glyph: BLOCK_GLYPH,
        color: c,
    }) by {
        assert(x * rx + rx <= width * rx && y * ry + ry <= height * ry) by (nonlinear_arith)
            requires 0 <= x < width, 0 <= y < height, rx >= 1, ry >= 1;
        assert(forall|k: int| 0 <= #[trigger] sample_off(rx, k) <= rx - 1);
        assert(forall|k: int| 0 <= #[trigger] sample_off(ry, k) <= ry - 1);
        assert forall|k: int, ch: int| 0 <= k < 9 && 0 <= ch < 3 implies #[trigger] img.chan(
            x * rx + sample_off(rx, k % 3),
            y * ry + sample_off(ry, k / 3),
            ch,
        ) == (if ch == 0 { c.r } else if ch == 1 { c.g } else { c.b }) by {
            let px = x * rx + sample_off(rx, k % 3);
            let py = y * ry + sample_off(ry, k / 3);
            assert(0 <= px < img.width && 0 <= py < img.height);
            assert(img.pixel(px, py) == c);
        }
        lemma_partial_sum_constant(img, x, y, rx, ry, 0, c.r as int, 9);
        lemma_partial_sum_constant(img, x, y, rx, ry, 1, c.g as int, 9);
        lemma_partial_sum_constant(img, x, y, rx, ry, 2, c.b as int, 9);
        assert(sample_sum(img, x, y, rx, ry, 0) == 9 * c.r);
        assert(sample_sum(img, x, y, rx, ry, 1) == 9 * c.g);
        assert(sample_sum(img, x, y, rx, ry, 2) == 9 * c.b);
        assert(9 * (c.r as int) / 9 == c.r && 9 * (c.g as int) / 9 == c.g && 9 * (c.b as int) / 9
            == c.b) by (nonlinear_arith);
    }
}

/// With a pixel-to-cell ratio of one on both axes, all nine sampling
/// offsets coincide at the cell's own source pixel, so sampling
/// reads the source pixel for pixel: every cell is its pixel's color.
pub proof fn lemma_exact_fit(img: Raster)
    requires
        img.wf(),
        img.width >= 1,
        img.height >= 1,
    ensures
        img.width as int / img.width as int == 1,
        img.height as int / img.height as int == 1,
        forall|x: int, y: int|
            0 <= x < img.width && 0 <= y < img.height ==> sampled_textel(img, x, y, 1, 1)
                == (Textel { glyph: BLOCK_GLYPH, color: img.pixel(x, y) }),
{
    assert(img.width as int / img.width as int == 1 && img.height as int / img.height as int == 1)
        by (nonlinear_arith)
        requires img.width >= 1, img.height >= 1;
    assert forall|x: int, y: int|
        0 <= x < img.width && 0 <= y < img.height implies sampled_textel(img, x, y, 1, 1)
        == (Textel { glyph: BLOCK_GLYPH, color: img.pixel(x, y) }) by {
        assert(forall|k: int| #[trigger] sample_off(1, k) == 0);
        assert forall|k: int, ch: int| 0 <= k < 9 implies #[trigger] img.chan(
            x * 1 + sample_off(1, k % 3),
            y * 1 + sample_off(1, k / 3),
            ch,
        ) == img.chan(x, y, ch) by {
            assert(x * 1 == x && y * 1 == y);
        }
        lemma_partial_sum_constant(img, x, y, 1, 1, 0, img.chan(x, y, 0) as int, 9);
        lemma_partial_sum_constant(img, x, y, 1, 1, 1, img.chan(x, y, 1) as int, 9);
        lemma_partial_sum_constant(img, x, y, 1, 1, 2, img.chan(x, y, 2) as int, 9);
        assert(sample_sum(img, x, y, 1, 1, 0) == 9 * img.chan(x, y, 0));
        assert(sample_sum(img, x, y, 1, 1, 1) == 9 * img.chan(x, y, 1));
        assert(sample_sum(img, x, y, 1, 1, 2) == 9 * img.chan(x, y, 2));
        assert(9 * (img.chan(x, y, 0) as int) / 9 == img.chan(x, y, 0) && 9 * (img.chan(
            x,
            y,
            1,
        ) as int) / 9 == img.chan(x, y, 1) && 9 * (img.chan(x, y, 2) as int) / 9 == img.chan(
            x,
            y,
            2,
        )) by (nonlinear_arith);
    }
}

/// Two well-formed grids of the same dimensions whose row sequences
/// are equal agree on every cell and on their whole cell buffers: the
/// row sequence determines the grid.
pub proof fn lemma_rows_determine_cells(a: AsciiArt, b: AsciiArt)
    requires
        a.wf(),
        b.wf(),
        a.width == b.width,
        a.height == b.height,
        a.rows() == b.rows(),
    ensures
        forall|x: int, y: int|
            0 <= x < a.width && 0 <= y < a.height ==> #[trigger] a.cell(x, y) == b.cell(x, y),
        a.data@ == b.data@,
{
    assert forall|x: int, y: int|
        0 <= x < a.width && 0 <= y < a.height implies #[trigger] a.cell(x, y) == b.cell(x, y) by {
        assert(a.rows()[y] == b.rows()[y]);
        assert(a.row(y)[x] == b.row(y)[x]);
    }
    assert forall|j: int| 0 <= j < a.data@.len() implies a.data@[j] == b.data@[j] by {
        assert(a.width >= 1) by (nonlinear_arith)
            requires a.data@.len() == a.width * a.height, a.data@.len() > 0;
        let y = j / a.width as int;
        let x = j % a.width as int;
        assert(0 <= x < a.width && 0 <= y < a.height && j == y * a.width + x) by (nonlinear_arith)
            requires
                a.width >= 1,
                0 <= j < a.width * a.height,
                y == j / a.width as int,
                x == j % a.width as int;
        assert(a.cell(x, y) == b.cell(x, y));
    }
    assert(a.data@ =~= b.data@);
}

/// Sampling is deterministic: any two well-formed grids of the same
/// dimensions whose cells each hold the sampled textel of the same
/// source raster agree on their whole cell buffers, so resampling the
/// same image at the same dimensions reproduces the grid exactly.
pub proof fn lemma_sample_deterministic(a: AsciiArt, b: AsciiArt, img: Raster)
    requires
        a.wf(),
        b.wf(),
        a.width == b.width,
        a.height == b.height,
        forall|x: int, y: int|
            0 <= x < a.width && 0 <= y < a.height ==> #[trigger] a.cell(x, y) == sampled_textel(
                img,
                x,
                y,
                img.width as int / a.width as int,
                img.height as int / a.height as int,
            ),
        forall|x: int, y: int|
            0 <= x < b.width && 0 <= y < b.height ==> #[trigger] b.cell(x, y) == sampled_textel(
                img,
                x,
                y,
                img.width as int / b.width as int,
                img.height as int / b.height as int,
            ),
    ensures
        a.data@ == b.data@,
{
    assert forall|y: int| 0 <= y < a.height implies a.rows()[y] == b.rows()[y] by {
        assert forall|x: int| 0 <= x < a.width implies a.row(y)[x] == b.row(y)[x] by {
            assert(a.cell(x, y) == b.cell(x, y));
        }
        assert(a.row(y) =~= b.row(y));
    }
    assert(a.rows() =~= b.rows());
    lemma_rows_determine_cells(a, b);
}

} // verus!
