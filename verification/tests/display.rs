use vinylla::{blank_art, AsciiArt, Raster, RenderOp, Rgb};

fn white() -> Rgb {
    Rgb { r: 255, g: 255, b: 255 }
}

fn black() -> Rgb {
    Rgb { r: 0, g: 0, b: 0 }
}

#[test]
fn render_ops_lays_out_rows_with_resets() {
    let art = blank_art(2, 1);
    let ops = art.render_ops();
    assert_eq!(
        ops,
        vec![
            RenderOp::SetBackground(white()),
            RenderOp::SetForeground(black()),
            RenderOp::Glyph(' '),
            RenderOp::SetForeground(black()),
            RenderOp::Glyph(' '),
            RenderOp::ResetColor,
            RenderOp::Newline,
        ]
    );
}

#[test]
fn render_ops_uses_each_cells_color_and_glyph() {
    let data: Vec<u8> = vec![10, 20, 30, 40, 50, 60];
    let img = Raster { width: 2, height: 1, data };
    let art = AsciiArt::from_image(&img, 2, 1).unwrap();
    let ops = art.render_ops();
    assert_eq!(
        ops,
        vec![
            RenderOp::SetBackground(white()),
            RenderOp::SetForeground(Rgb { r: 10, g: 20, b: 30 }),
            RenderOp::Glyph('\u{2588}'),
            RenderOp::SetForeground(Rgb { r: 40, g: 50, b: 60 }),
            RenderOp::Glyph('\u{2588}'),
            RenderOp::ResetColor,
            RenderOp::Newline,
        ]
    );
}

#[test]
fn render_ops_at_anchors_each_row() {
    let art = blank_art(1, 2);
    let ops = art.render_ops_at(5, 7);
    assert_eq!(
        ops,
        vec![
            RenderOp::SetBackground(white()),
            RenderOp::MoveTo(5, 7),
            RenderOp::SetForeground(black()),
            RenderOp::Glyph(' '),
            RenderOp::ResetColor,
            RenderOp::MoveTo(5, 8),
            RenderOp::SetForeground(black()),
            RenderOp::Glyph(' '),
            RenderOp::ResetColor,
        ]
    );
}

#[test]
fn render_is_repeatable() {
    let art = blank_art(3, 2);
    assert_eq!(art.render_ops(), art.render_ops());
    assert_eq!(art.render_ops_at(1, 2), art.render_ops_at(1, 2));
}
