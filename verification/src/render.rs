//! The renderer: lays out, as a sequence of terminal operations, how a
//! grid is displayed. Each cell is printed as its glyph in its own
//! foreground color over one shared background color, and the colors
//! are reset after every row so nothing bleeds into later output.
//! Performing the operations on an actual terminal is the caller's
//! side of the contract.
use vstd::prelude::*;

use crate::art::AsciiArt;
use crate::raster::Rgb;

verus! {

/// One terminal operation of a render pass.
#[derive(Clone, Copy, Debug, PartialEq, Eq, Structural)]
pub enum RenderOp {
    /// Set the shared background color.
    SetBackground(Rgb),
    /// Set the foreground color for the glyphs that follow.
    SetForeground(Rgb),
    /// Print one glyph at the cursor.
    Glyph(char),
    /// Reset foreground and background to the terminal's defaults.
    ResetColor,
    /// Move to the start of the next line.
    Newline,
    /// Move the cursor to the given (column, row) position.
    MoveTo(u16, u16),
}

/// The background color a render pass sets once up front.
pub open spec fn background() -> Rgb {
    Rgb { r: 255, g: 255, b: 255 }
}

/// The two operations that print one cell: its color, then its glyph.
pub open spec fn cell_ops(t: crate::art::Textel) -> Seq<RenderOp> {
    seq![RenderOp::SetForeground(t.color), RenderOp::Glyph(t.glyph)]
}

/// The operations that print the first `n` cells of row `y`.
pub open spec fn row_ops(g: AsciiArt, y: int, n: int) -> Seq<RenderOp>
    decreases n,
{
    if n <= 0 {
        Seq::empty()
    } else {
        row_ops(g, y, n - 1) + cell_ops(g.cell(n - 1, y))
    }
}

/// The operations of an in-place render pass over the first `n` rows:
/// each row's cells, then a color reset and a line break.
pub open spec fn print_ops_upto(g: AsciiArt, n: int) -> Seq<RenderOp>
    decreases n,
{
    if n <= 0 {
        seq![RenderOp::SetBackground(background())]
    } else {
        print_ops_upto(g, n - 1) + row_ops(g, n - 1, g.width as int)
            + seq![RenderOp::ResetColor, RenderOp::Newline]
    }
}

/// The operations that render the whole grid at the cursor's current
/// position, row by row.
pub open spec fn print_ops(g: AsciiArt) -> Seq<RenderOp> {
    print_ops_upto(g, g.height as int)
}

/// The operations of an anchored render pass over the first `n` rows:
/// each row is placed at column `col`, row `row + y` of the terminal,
/// then printed and color-reset, with no line breaks.
pub open spec fn print_at_ops_upto(g: AsciiArt, col: u16, row: u16, n: int) -> Seq<RenderOp>
    decreases n,
{
    if n <= 0 {
        seq![RenderOp::SetBackground(background())]
    } else {
        print_at_ops_upto(g, col, row, n - 1) + seq![
            RenderOp::MoveTo(col, (row + n - 1) as u16),
        ] + row_ops(g, n - 1, g.width as int) + seq![RenderOp::ResetColor]
    }
}

/// The operations that render the whole grid anchored at the absolute
/// terminal position (`col`, `row`), one terminal row per grid row.
pub open spec fn print_at_ops(g: AsciiArt, col: u16, row: u16) -> Seq<RenderOp> {
    print_at_ops_upto(g, col, row, g.height as int)
}

impl AsciiArt {
    /// Lays out the operations that print the grid at the cursor's
    /// current position: the shared background once, then every row's
    /// cells in order, each row ending in a color reset and a line
    /// break.
    pub fn render_ops(&self) -> (ops: Vec<RenderOp>)
        requires
            self.wf(),
        ensures
            ops@ == print_ops(*self),
    {
        let mut ops: Vec<RenderOp> = Vec::new();
        ops.push(RenderOp::SetBackground(Rgb { r: 255, g: 255, b: 255 }));
        proof {
            assert(ops@ =~= print_ops_upto(*self, 0));
        }
        let mut y: usize = 0;
        while y < self.height
            invariant
                y <= self.height,
                self.wf(),
                ops@ == print_ops_upto(*self, y as int),
            decreases self.height - y,
        {
            proof {
                assert(ops@ =~= print_ops_upto(*self, y as int) + row_ops(*self, y as int, 0));
            }
            let mut x: usize = 0;
            while x < self.width
                invariant
                    x <= self.width,
                    y < self.height,
                    self.wf(),
                    ops@ == print_ops_upto(*self, y as int) + row_ops(*self, y as int, x as int),
                decreases self.width - x,
            {
                let t = self.cell_at(x, y);
                ops.push(RenderOp::SetForeground(t.color));
                ops.push(RenderOp::Glyph(t.glyph));
                proof {
                    assert(ops@ =~= print_ops_upto(*self, y as int) + row_ops(
                        *self,
                        y as int,
                        x + 1,
                    ));
                }
                x = x + 1;
            }
            ops.push(RenderOp::ResetColor);
            ops.push(RenderOp::Newline);
            proof {
                assert(ops@ =~= print_ops_upto(*self, y + 1));
            }
            y = y + 1;
        }
        ops
    }

    /// Lays out the operations that print the grid anchored at the
    /// absolute terminal position (`col`, `row`): the shared background
    /// once, then every row moved to its own terminal row, printed and
    /// color-reset.
    pub fn render_ops_at(&self, col: u16, row: u16) -> (ops: Vec<RenderOp>)
        requires
            self.wf(),
            row + self.height <= u16::MAX,
        ensures
            ops@ == print_at_ops(*self, col, row),
    {
        let mut ops: Vec<RenderOp> = Vec::new();
        ops.push(RenderOp::SetBackground(Rgb { r: 255, g: 255, b: 255 }));
        proof {
            assert(ops@ =~= print_at_ops_upto(*self, col, row, 0));
        }
        let mut y: usize = 0;
        while y < self.height
            invariant
                y <= self.height,
                self.wf(),
                row + self.height <= u16::MAX,
                ops@ == print_at_ops_upto(*self, col, row, y as int),
            decreases self.height - y,
        {
            ops.push(RenderOp::MoveTo(col, row + y as u16));
            proof {
                assert(ops@ =~= print_at_ops_upto(*self, col, row, y as int) + seq![
                    RenderOp::MoveTo(col, (row + y) as u16),
                ] + row_ops(*self, y as int, 0));
            }
            let mut x: usize = 0;
            while x < self.width
                invariant
                    x <= self.width,
                    y < self.height,
                    self.wf(),
                    row + self.height <= u16::MAX,
                    ops@ == print_at_ops_upto(*self, col, row, y as int) + seq![
                        RenderOp::MoveTo(col, (row + y) as u16),
                    ] + row_ops(*self, y as int, x as int),
                decreases self.width - x,
            {
                let t = self.cell_at(x, y);
                ops.push(RenderOp::SetForeground(t.color));
                ops.push(RenderOp::Glyph(t.glyph));
                proof {
                    assert(ops@ =~= print_at_ops_upto(*self, col, row, y as int) + seq![
                        RenderOp::MoveTo(col, (row + y) as u16),
                    ] + row_ops(*self, y as int, x + 1));
                }
                x = x + 1;
            }
            ops.push(RenderOp::ResetColor);
            proof {
                assert(ops@ =~= print_at_ops_upto(*self, col, row, y + 1));
            }
            y = y + 1;
        }
        ops
    }
}

} // verus!
