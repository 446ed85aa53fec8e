use ttyp::gfx::raster::{Canvas, Glyph};

fn canvas(w: usize, h: usize) -> Canvas {
    Canvas { w, h, px: vec![0; w * h * 4] }
}

#[test]
fn fill_is_opaque_and_clipped() {
    let mut c = canvas(4, 2);
    c.fill(-5, -5, 2, 1, [9, 9, 9]);
    assert_eq!(&c.px[0..8], &[9, 9, 9, 255, 9, 9, 9, 255]);
    assert_eq!(&c.px[8..], &[0; 24]);
}

#[test]
fn over_transparent_keeps_colour_and_coverage_as_alpha() {
    let mut c = canvas(2, 1);
    c.over(1, 0, 2, 1, &[128, 255], [200, 100, 0]);
    assert_eq!(c.px, vec![0, 0, 0, 0, 200, 100, 0, 128]);
}

#[test]
fn over_opaque_blends() {
    let mut c = canvas(1, 1);
    c.fill(0, 0, 1, 1, [0, 0, 0]);
    c.over(0, 0, 1, 1, &[128], [255, 255, 255]);
    assert_eq!(c.px, vec![128, 128, 128, 255]);
}

#[test]
fn new_canvas_is_transparent() {
    let c = Canvas::new(3, 2);
    assert_eq!(c.px, vec![0; 24]);
}

#[test]
fn fill_outside_changes_nothing() {
    let mut c = canvas(2, 2);
    c.fill(5, 5, 9, 9, [1, 2, 3]);
    c.fill(1, 1, 1, 2, [1, 2, 3]);
    assert_eq!(c.px, vec![0; 16]);
}

#[test]
fn blank_glyphs_leave_no_mark() {
    let g = Glyph { ch: ' ', fg: [1, 1, 1], bg: None, underline: false };
    assert!(g.is_blank());
    assert!(!Glyph { bg: Some([0, 0, 0]), ..g }.is_blank());
    assert!(!Glyph { underline: true, ..g }.is_blank());
    assert!(!Glyph { ch: 'x', ..g }.is_blank());
}
