use alacritty_core::content::ViewportPoint;
use alacritty_core::damage::{
    merge_rects, rects_overlap, DamageTracker, FrameDamage, LineDamageBounds, Rect,
    RenderDamageIterator, SizeInfo,
};
use alacritty_core::index::Column;

fn size() -> SizeInfo {
    SizeInfo {
        width: 100,
        height: 100,
        cell_width: 4,
        cell_height: 10,
        padding_x: 2,
        padding_y: 5,
    }
}

#[test]
fn overlap_counts_touching_rectangles() {
    let a = Rect::new(0, 0, 10, 10);
    assert!(rects_overlap(a, Rect::new(5, 5, 10, 10)));
    assert!(rects_overlap(a, Rect::new(10, 0, 5, 5)));
    assert!(rects_overlap(a, Rect::new(0, 10, 5, 5)));
    assert!(rects_overlap(a, a));
    assert!(rects_overlap(a, Rect::new(2, 2, 1, 1)));
    assert!(!rects_overlap(a, Rect::new(11, 0, 5, 5)));
    assert!(!rects_overlap(a, Rect::new(0, 11, 5, 5)));
    assert!(!rects_overlap(Rect::new(11, 0, 5, 5), a));
    assert!(!rects_overlap(Rect::new(0, 11, 5, 5), a));
    // Sums beyond the range of an `i32` are no trouble.
    assert!(!rects_overlap(Rect::new(i32::MAX, 0, i32::MAX, 1), Rect::new(0, 0, 1, 1)));
}

#[test]
fn merge_gives_the_bounding_rectangle() {
    assert_eq!(
        merge_rects(Rect::new(0, 0, 10, 10), Rect::new(5, 20, 10, 10)),
        Rect::new(0, 0, 15, 30)
    );
    assert_eq!(
        merge_rects(Rect::new(5, 20, 10, 10), Rect::new(0, 0, 10, 10)),
        Rect::new(0, 0, 15, 30)
    );
    assert_eq!(merge_rects(Rect::new(1, 2, 3, 4), Rect::new(1, 2, 3, 4)), Rect::new(1, 2, 3, 4));
    assert_eq!(merge_rects(Rect::new(0, 0, 10, 10), Rect::new(2, 2, 1, 1)), Rect::new(0, 0, 10, 10));
}

#[test]
fn line_rectangles_are_counted_from_the_bottom() {
    let size = size();
    // Columns 1 to 3 of the first line.
    assert_eq!(size.rect_for_line(LineDamageBounds::new(0, 1, 3)), Rect::new(6, 85, 12, 10));
    assert_eq!(size.rect_for_line(LineDamageBounds::new(8, 0, 0)), Rect::new(2, 5, 4, 10));
}

#[test]
fn overdamage_grows_within_the_window() {
    let size = size();
    assert_eq!(size.overdamage(Rect::new(6, 85, 12, 10)), Rect::new(2, 80, 20, 20));
    // At the window's edges the rectangle is held.
    assert_eq!(size.overdamage(Rect::new(2, 2, 4, 10)), Rect::new(0, 0, 12, 20));
    assert_eq!(size.overdamage(Rect::new(90, 85, 8, 10)), Rect::new(86, 80, 14, 20));
    assert_eq!(size.overdamage(Rect::new(6, 88, 12, 10)), Rect::new(2, 83, 20, 17));
}

#[test]
fn damaged_lines_next_to_each_other_are_merged() {
    let lines = vec![
        LineDamageBounds::new(0, 1, 3),
        LineDamageBounds::new(1, 2, 4),
        LineDamageBounds::new(4, 0, 0),
        LineDamageBounds::new(7, 2, 2),
        LineDamageBounds::new(8, 3, 3),
    ];
    let mut iter = RenderDamageIterator::new(lines.clone(), size());
    // Lines 0 and 1: their grown rectangles overlap and are merged.
    assert_eq!(iter.next(), Some(Rect::new(2, 70, 24, 30)));
    assert_eq!(iter.next(), Some(Rect::new(0, 40, 12, 20)));
    assert_eq!(iter.next(), Some(Rect::new(6, 0, 16, 30)));
    assert_eq!(iter.next(), None);
    assert_eq!(iter.next(), None);
    assert_eq!(
        RenderDamageIterator::new(lines, size()).collect(),
        vec![Rect::new(2, 70, 24, 30), Rect::new(0, 40, 12, 20), Rect::new(6, 0, 16, 30)]
    );
    assert_eq!(RenderDamageIterator::new(Vec::new(), size()).collect(), Vec::new());
}

#[test]
fn damaged_lines_apart_in_their_columns_stay_apart() {
    let lines = vec![LineDamageBounds::new(0, 1, 3), LineDamageBounds::new(1, 10, 12)];
    assert_eq!(
        RenderDamageIterator::new(lines, size()).collect(),
        vec![Rect::new(2, 80, 20, 20), Rect::new(38, 70, 20, 20)]
    );
}

#[test]
fn line_damage_only_grows() {
    let mut bounds = LineDamageBounds::undamaged(3, 80);
    assert_eq!(bounds, LineDamageBounds::new(3, 80, 0));
    assert!(!bounds.is_damaged());
    bounds.expand(10, 12);
    assert_eq!(bounds, LineDamageBounds::new(3, 10, 12));
    assert!(bounds.is_damaged());
    bounds.expand(11, 11);
    assert_eq!(bounds, LineDamageBounds::new(3, 10, 12));
    bounds.expand(2, 40);
    assert_eq!(bounds, LineDamageBounds::new(3, 2, 40));
}

#[test]
fn frame_damage_is_reset() {
    let mut frame = FrameDamage::empty();
    assert!(!frame.is_fully_damaged());
    assert!(frame.lines().is_empty());
    frame.reset(2, 80);
    assert_eq!(frame.lines(), &vec![LineDamageBounds::new(0, 80, 0), LineDamageBounds::new(1, 80, 0)]);
    frame.damage_line(1, 3, 5);
    frame.damage_line(1, 1, 4);
    frame.add_rect(Rect::new(1, 2, 3, 4));
    frame.mark_fully_damaged();
    assert!(frame.is_fully_damaged());
    assert_eq!(frame.lines()[1], LineDamageBounds::new(1, 1, 5));
    assert_eq!(frame.lines()[0], LineDamageBounds::new(0, 80, 0));
    assert_eq!(frame.rects(), &vec![Rect::new(1, 2, 3, 4)]);
    frame.reset(1, 10);
    assert!(!frame.is_fully_damaged());
    assert_eq!(frame.lines(), &vec![LineDamageBounds::new(0, 10, 0)]);
    assert!(frame.rects().is_empty());
}

#[test]
fn tracker_keeps_two_frames() {
    let mut tracker = DamageTracker::new(2, 10);
    assert!(tracker.current().is_fully_damaged());
    assert_eq!(tracker.current().lines().len(), 2);
    assert!(tracker.old_vi_cursor.is_none());
    assert!(tracker.old_selection.is_none());
    assert!(!tracker.debug);
    tracker.old_vi_cursor = Some(ViewportPoint { line: 1, column: Column(2) });
    // The frame before this one was clean.
    tracker.swap_damage();
    assert!(!tracker.current().is_fully_damaged());
    tracker.frame().damage_line(0, 1, 2);
    tracker.frame().mark_fully_damaged();
    tracker.swap_damage();
    // The damage of the frame that was drawn first was cleared.
    assert!(!tracker.current().is_fully_damaged());
    assert_eq!(tracker.current().lines()[0], LineDamageBounds::new(0, 10, 0));
    tracker.swap_damage();
    assert!(!tracker.current().is_fully_damaged());
    assert_eq!(tracker.current().lines()[0], LineDamageBounds::new(0, 10, 0));
    assert_eq!(tracker.old_vi_cursor, Some(ViewportPoint { line: 1, column: Column(2) }));
}

#[test]
fn damage_is_read_before_the_swap() {
    let mut tracker = DamageTracker::new(1, 10);
    tracker.swap_damage();
    tracker.swap_damage();
    tracker.frame().damage_line(0, 3, 4);
    assert_eq!(tracker.current().lines()[0], LineDamageBounds::new(0, 3, 4));
    tracker.swap_damage();
    assert_eq!(tracker.current().lines()[0], LineDamageBounds::new(0, 10, 0));
}

#[test]
fn resize_damages_the_whole_frame() {
    let mut tracker = DamageTracker::new(2, 10);
    tracker.swap_damage();
    tracker.resize(3, 20);
    assert!(tracker.current().is_fully_damaged());
    assert_eq!(tracker.current().lines().len(), 3);
    assert_eq!(tracker.current().lines()[2], LineDamageBounds::new(2, 20, 0));
    tracker.swap_damage();
    assert!(!tracker.current().is_fully_damaged());
    assert_eq!(tracker.current().lines().len(), 3);
}

#[test]
fn writing_damages_the_columns_between() {
    let mut frame = FrameDamage::empty();
    frame.reset(3, 10);
    let at = |line, column| ViewportPoint { line, column: Column(column) };
    frame.damage_written(at(1, 2), at(1, 5));
    assert_eq!(frame.lines()[1], LineDamageBounds::new(1, 2, 5));
    frame.damage_written(at(1, 7), at(1, 0));
    assert_eq!(frame.lines()[1], LineDamageBounds::new(1, 0, 7));
    assert!(!frame.is_fully_damaged());
    assert_eq!(frame.lines()[0], LineDamageBounds::new(0, 10, 0));
    // From one line to another, everything is drawn anew.
    frame.damage_written(at(1, 7), at(2, 0));
    assert!(frame.is_fully_damaged());
    frame.reset(3, 10);
    frame.damage_written(at(3, 0), at(3, 1));
    assert!(frame.is_fully_damaged());
}
