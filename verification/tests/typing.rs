use ttyp::test::{Mode, Status};
use ttyp::ui::typing::{counter, first_visible};

#[test]
fn counter_shows_seconds_or_words() {
    assert_eq!(counter(Mode::Time(30), Status::Idle, Some(30_000), 0), "30");
    assert_eq!(counter(Mode::Time(30), Status::Running, Some(12_001), 0), "13");
    assert_eq!(counter(Mode::Time(30), Status::Running, Some(12_000), 0), "12");
    assert_eq!(counter(Mode::Time(30), Status::Finished, Some(0), 0), "0");
    assert_eq!(counter(Mode::Words(25), Status::Running, None, 7), "7/25");
}

#[test]
fn window_starts_one_line_above_the_caret() {
    let lines = [(0, 5), (5, 9), (9, 14), (14, 20)];
    assert_eq!(first_visible(&lines, 0), 0);
    assert_eq!(first_visible(&lines, 6), 0);
    assert_eq!(first_visible(&lines, 10), 1);
    assert_eq!(first_visible(&lines, 19), 2);
    assert_eq!(first_visible(&lines, 99), 0);
}
