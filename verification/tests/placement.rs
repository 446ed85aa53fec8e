use ttyp::gfx::placement::{collect_wanted, Placements, RenderKey, ID_BASE};
use ttyp::gfx::raster::Glyph;

fn g(ch: char, caret: bool) -> Glyph {
    Glyph { ch, fg: [200, 200, 200], bg: if caret { Some([255, 200, 0]) } else { None }, underline: false }
}

fn count(out: &[u8], pat: &str) -> usize {
    String::from_utf8_lossy(out).matches(pat).count()
}

fn key(height: u32) -> RenderKey {
    RenderKey { px_bits: 0x4180_0000, height, cell_w: 10, cell_h: 20, generation: 1 }
}

/// Uploads a one-pixel image for every glyph still missing one, as the
/// application does with its rasterized glyphs.
fn frame(p: &mut Placements, text: &str, caret: usize, height: u32, out: &mut Vec<u8>) {
    let entries: Vec<((u32, u32), Glyph)> = text
        .chars()
        .enumerate()
        .filter(|(_, c)| *c != ' ')
        .map(|(i, c)| ((40 + 10 * i as u32, 40), g(c, i == caret)))
        .collect();
    let want = collect_wanted(&entries);
    p.begin_frame(key(height), out);
    for glyph in p.missing(&want) {
        p.add_image(glyph, 1, 1, &[1, 2, 3, 4], out);
    }
    p.sync(&want, Some((10, 20)), out);
}

#[test]
fn glyphs_upload_once_and_frames_send_only_changes() {
    let mut p = Placements::new();
    let mut out = Vec::new();
    frame(&mut p, "aa bb", 0, 40, &mut out);
    // Caret 'a', plain 'a', 'b': three images; four placements.
    assert_eq!(count(&out, "a=t,"), 3);
    assert_eq!(count(&out, "a=p,"), 4);

    out.clear();
    frame(&mut p, "aa bb", 0, 40, &mut out);
    assert!(out.is_empty(), "unchanged frame sends nothing");

    // Caret moves right: both variants already exist, so two placements
    // are swapped and nothing is uploaded.
    out.clear();
    frame(&mut p, "aa bb", 1, 40, &mut out);
    assert_eq!(count(&out, "a=t,"), 0);
    assert_eq!(count(&out, "d=i,"), 2);
    assert_eq!(count(&out, "a=p,"), 2);
}

#[test]
fn clearing_and_size_changes_drop_images() {
    let mut p = Placements::new();
    let mut out = Vec::new();
    frame(&mut p, "ab", 0, 40, &mut out);
    out.clear();
    frame(&mut p, "", 0, 40, &mut out);
    assert_eq!(count(&out, "d=i,"), 2);

    out.clear();
    frame(&mut p, "ab", 0, 40, &mut out);
    out.clear();
    frame(&mut p, "ab", 0, 60, &mut out);
    assert_eq!(count(&out, "d=I,"), 2);
    assert_eq!(count(&out, "a=t,"), 2);

    out.clear();
    p.purge(&mut out);
    p.invalidate();
    assert_eq!(count(&out, "d=I,"), 2);
    assert!(p.placed.is_empty());
}

#[test]
fn placements_use_cell_plus_pixel_offset() {
    let mut p = Placements::new();
    let mut out = Vec::new();
    let want = collect_wanted(&vec![((45, 40), g('x', false))]);
    p.begin_frame(key(40), &mut out);
    for glyph in p.missing(&want) {
        p.add_image(glyph, 1, 1, &[1, 2, 3, 4], &mut out);
    }
    p.sync(&want, Some((10, 20)), &mut out);
    assert_eq!(p.placed[0].0, (45, 40));
    let s = String::from_utf8_lossy(&out);
    assert!(s.contains("\x1b[3;5H"), "{s:?}");
    assert!(s.contains("X=5,Y=0"));
    assert!(s.contains(&format!("i={ID_BASE}")));
}

#[test]
fn last_glyph_at_a_position_wins() {
    let want = collect_wanted(&vec![((0, 0), g('a', false)), ((9, 0), g('b', false)), ((0, 0), g('c', false))]);
    assert_eq!(want, vec![((0, 0), g('c', false)), ((9, 0), g('b', false))]);
}
