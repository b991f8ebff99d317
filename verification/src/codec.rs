//! The grid codec: a grid persists as an ordered sequence of row
//! records, each holding exactly one row's textels. Decoding validates
//! the shape — no more rows than the grid's height, every row exactly
//! the grid's width — and fills rows missing at the end with blank
//! cells.
use vstd::prelude::*;

use crate::art::AsciiArt;
use crate::art::Textel;
use crate::art::blank_textel;

verus! {

/// One persisted row record: the textels of a single grid row, left
/// to right.
#[derive(Clone, Debug, PartialEq, Eq)]
pub struct RowWrapper {
    pub row: Vec<Textel>,
}

/// A structural fault in persisted grid data.
#[derive(Clone, Copy, Debug, PartialEq, Eq, Structural)]
pub enum DecodeError {
    /// More row records than the grid has rows.
    RowCount,
    /// A row record whose cell count is not the grid's width.
    RowWidth,
}

/// The row records as plain sequences of textels.
pub open spec fn rows_model(rs: Seq<RowWrapper>) -> Seq<Seq<Textel>> {
    rs.map_values(|r: RowWrapper| r.row@)
}

/// A row of `w` blank cells.
pub open spec fn blank_row(w: int) -> Seq<Textel> {
    Seq::new(w as nat, |x: int| blank_textel())
}

/// Some persisted row does not hold exactly `w` cells.
pub open spec fn has_bad_row(rs: Seq<Seq<Textel>>, w: int) -> bool {
    exists|i: int| 0 <= i < rs.len() && (#[trigger] rs[i]).len() != w
}

/// What decoding a sequence of persisted rows into a `w`-by-`h` grid
/// yields: an error on a shape violation, otherwise the given rows
/// followed by blank rows up to the grid's height.
pub open spec fn decoded_rows(rs: Seq<Seq<Textel>>, w: int, h: int) -> Result<
    Seq<Seq<Textel>>,
    DecodeError,
> {
    if rs.len() > h {
        Err(DecodeError::RowCount)
    } else if has_bad_row(rs, w) {
        Err(DecodeError::RowWidth)
    } else {
        Ok(rs + Seq::new((h - rs.len()) as nat, |i: int| blank_row(w)))
    }
}

impl AsciiArt {
    /// Serializes the grid as its sequence of row records, top to
    /// bottom: exactly `height` records of exactly `width` cells each.
    pub fn to_rows(&self) -> (rows: Vec<RowWrapper>)
        requires
            self.wf(),
        ensures
            rows_model(rows@) == self.rows(),
            rows@.len() == self.height,
    {
        let mut rows: Vec<RowWrapper> = Vec::new();
        let mut y: usize = 0;
        while y < self.height
            invariant
                y <= self.height,
                self.wf(),
                rows@.len() == y,
                forall|i: int| 0 <= i < y ==> #[trigger] rows@[i].row@ == self.row(i),
            decreases self.height - y,
        {
            let mut row: Vec<Textel> = Vec::new();
            let mut x: usize = 0;
            while x < self.width
                invariant
                    x <= self.width,
                    y < self.height,
                    self.wf(),
                    row@.len() == x,
                    forall|i: int| 0 <= i < x ==> row@[i] == self.cell(i, y as int),
                decreases self.width - x,
            {
                row.push(self.cell_at(x, y));
                x = x + 1;
            }
            proof {
                assert(row@ =~= self.row(y as int));
            }
            rows.push(RowWrapper { row });
            y = y + 1;
        }
        proof {
            assert(rows_model(rows@) =~= self.rows());
        }
        rows
    }

    /// Deserializes a grid of the given dimensions from a sequence of
    /// row records. Fails with `RowCount` when more than `height` rows
    /// are present, with `RowWidth` when some row does not hold exactly
    /// `width` cells; otherwise reconstructs the grid, filling rows
    /// missing at the end with blank cells.
    pub fn from_rows(rows: &Vec<RowWrapper>, width: usize, height: usize) -> (r: Result<
        AsciiArt,
        DecodeError,
    >)
        ensures
            ({
                let m = decoded_rows(rows_model(rows@), width as int, height as int);
                match r {
                    Ok(g) => m is Ok && g.wf() && g.width == width && g.height == height
                        && g.rows() == m->Ok_0,
                    Err(e) => m == Err::<Seq<Seq<Textel>>, DecodeError>(e),
                }
            }),
    {
        let n: usize = rows.len();
        if n > height {
            return Err(DecodeError::RowCount);
        }
        let mut i: usize = 0;
        while i < n
            invariant
                i <= n,
                n == rows@.len(),
                n <= height,
                forall|j: int| 0 <= j < i ==> #[trigger] rows@[j].row@.len() == width,
            decreases n - i,
        {
            if rows[i].row.len() != width {
                proof {
                    let rs = rows_model(rows@);
                    assert(rs.len() == rows@.len());
                    assert(0 <= (i as int) < rs.len() && rs[i as int].len() != width);
                    assert(has_bad_row(rs, width as int));
                    assert(decoded_rows(rs, width as int, height as int) == Err::<
                        Seq<Seq<Textel>>,
                        DecodeError,
                    >(DecodeError::RowWidth));
                }
                return Err(DecodeError::RowWidth);
            }
            i = i + 1;
        }
        proof {
            assert(forall|j: int|
                0 <= j < rows@.len() ==> #[trigger] rows_model(rows@)[j].len() == width);
        }

        let mut data: Vec<Textel> = Vec::new();
        let mut y: usize = 0;
        while y < n
            invariant
                y <= n,
                n == rows@.len(),
                n <= height,
                forall|j: int| 0 <= j < n ==> #[trigger] rows@[j].row@.len() == width,
                data@.len() == y * width,
                forall|j: int|
                    0 <= j < data@.len() ==> #[trigger] data@[j] == rows@[
                        j / width as int
                    ].row@[j % width as int],
            decreases n - y,
        {
            let mut x: usize = 0;
            while x < width
                invariant
                    x <= width,
                    y < n,
                    n == rows@.len(),
                    forall|j: int| 0 <= j < n ==> #[trigger] rows@[j].row@.len() == width,
                    data@.len() == y * width + x,
                    forall|j: int|
                        0 <= j < data@.len() ==> #[trigger] data@[j] == rows@[
                            j / width as int
                        ].row@[j % width as int],
                decreases width - x,
            {
                proof {
                    assert((y * width + x) / width as int == y && (y * width + x) % width as int
                        == x) by (nonlinear_arith)
                        requires 0 <= x < width, 0 <= y;
                }
                data.push(rows[y].row[x]);
                x = x + 1;
            }
            proof {
                assert((y + 1) * width == y * width + width) by (nonlinear_arith);
            }
            y = y + 1;
        }
        let mut y2: usize = n;
        while y2 < height
            invariant
                n == rows@.len(),
                n <= y2 <= height,
                data@.len() == y2 * width,
                forall|j: int|
                    0 <= j < n * width ==> #[trigger] data@[j] == rows@[
                        j / width as int
                    ].row@[j % width as int],
                forall|j: int| n * width <= j < data@.len() ==> #[trigger] data@[j] == blank_textel(),
            decreases height - y2,
        {
            proof {
                assert(n * width <= y2 * width) by (nonlinear_arith)
                    requires n <= y2, width >= 0;
            }
            let mut x: usize = 0;
            while x < width
                invariant
                    x <= width,
                    n <= y2 < height,
                    n == rows@.len(),
                    data@.len() == y2 * width + x,
                    n * width <= y2 * width,
                    forall|j: int|
                        0 <= j < n * width ==> #[trigger] data@[j] == rows@[
                            j / width as int
                        ].row@[j % width as int],
                    forall|j: int|
                        n * width <= j < data@.len() ==> #[trigger] data@[j] == blank_textel(),
                decreases width - x,
            {
                data.push(crate::art::blank_cell());
                x = x + 1;
            }
            proof {
                assert((y2 + 1) * width == y2 * width + width) by (nonlinear_arith);
                assert(n * width <= (y2 + 1) * width) by (nonlinear_arith)
                    requires n <= y2 + 1, width >= 0;
            }
            y2 = y2 + 1;
        }
        proof {
            assert(height * width == width * height) by (nonlinear_arith);
        }
        let art = AsciiArt { width, height, data };
        proof {
            let rs = rows_model(rows@);
            let m = decoded_rows(rs, width as int, height as int);
            assert(m is Ok);
            assert forall|y: int| 0 <= y < height implies art.row(y) == m->Ok_0[y] by {
                assert forall|x: int| 0 <= x < width implies art.cell(x, y) == m->Ok_0[y][x] by {
                    assert(0 <= y * width + x < height * width && (y * width + x)
                        / width as int == y && (y * width + x) % width as int == x)
                        by (nonlinear_arith)
                        requires 0 <= x < width, 0 <= y < height;
                    if y < n as int {
                        assert(y * width + x < n * width) by (nonlinear_arith)
                            requires 0 <= x < width, 0 <= y < n as int;
                    } else {
                        assert(y * width + x >= n * width) by (nonlinear_arith)
                            requires 0 <= x, n as int <= y, width >= 0;
                    }
                }
                assert(art.row(y) =~= m->Ok_0[y]);
            }
            assert(art.rows() =~= m->Ok_0);
        }
        Ok(art)
    }
}

/// Round-trip law: a well-formed grid's encoded row records decode
/// back, at the grid's own dimensions, to exactly the grid's rows,
/// with no error and nothing filled in.
pub proof fn lemma_round_trip(g: AsciiArt)
    requires
        g.wf(),
    ensures
        decoded_rows(g.rows(), g.width as int, g.height as int) == Ok::<
            Seq<Seq<Textel>>,
            DecodeError,
        >(g.rows()),
{
    let rs = g.rows();
    assert(forall|i: int| 0 <= i < rs.len() ==> #[trigger] rs[i].len() == g.width);
    let m = decoded_rows(rs, g.width as int, g.height as int);
    assert(m is Ok);
    assert(m->Ok_0 =~= rs);
}

} // verus!
