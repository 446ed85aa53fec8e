use ttyp::ui::bigtext::{half_block, sextant};
use ttyp::ui::layout::{content_column, popup_top, vcenter};
use ttyp::ui::stats::truncate;

#[test]
fn sextant_mapping_matches_unicode() {
    let cp = |c: char| c as u32;
    assert_eq!(cp(sextant(0b000001)), 0x1FB00); // top-left only
    assert_eq!(cp(sextant(0b000010)), 0x1FB01); // top-right only
    assert_eq!(cp(sextant(0b010100)), 0x1FB13); // left column minus top
    assert_eq!(cp(sextant(0b010110)), 0x1FB14); // first after the ▌ skip
    assert_eq!(cp(sextant(0b101011)), 0x1FB28); // first after the ▐ skip
    assert_eq!(cp(sextant(0b111110)), 0x1FB3B); // last sextant
    assert_eq!(sextant(0b010101), '▌');
    assert_eq!(sextant(0b101010), '▐');
}

#[test]
fn block_characters_for_empty_and_full() {
    assert_eq!(sextant(0), ' ');
    assert_eq!(sextant(0b111111), '█');
    assert_eq!(half_block(true, true), '█');
    assert_eq!(half_block(true, false), '▀');
    assert_eq!(half_block(false, true), '▄');
    assert_eq!(half_block(false, false), ' ');
}

#[test]
fn layout_columns() {
    // 100 columns, gutters of 4, at most 80 wide: centered.
    assert_eq!(content_column(0, 100, 80), (10, 80));
    // Narrow terminals keep at least 10 columns.
    assert_eq!(content_column(0, 12, 80), (1, 10));
    assert_eq!(vcenter(0, 20, 5), (6, 5));
    assert_eq!(vcenter(3, 4, 10), (3, 4));
    assert_eq!(popup_top(24, 3), 20);
    assert_eq!(popup_top(2, 8), 0);
}

#[test]
fn truncate_adds_ellipsis() {
    assert_eq!(truncate("english_1k", 20), "english_1k");
    assert_eq!(truncate("english_1k", 5), "engl…");
    assert_eq!(truncate("", 0), "");
}
