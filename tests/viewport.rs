use hamshark::viewport::{DragState, PointerDrag, PointerEvent, ScreenPos, Selection, Timeline};

fn fixed_view(width: usize, scale: u32, len: usize) -> Timeline {
    let mut t = Timeline::new();
    t.set_live(false);
    t.set_size(width, 256);
    t.update_scale(scale, 0);
    t.update_sample_len(len);
    t
}

fn event(down: bool, x: Option<u32>, drag: PointerDrag, delta_x: i64) -> PointerEvent {
    PointerEvent {
        down,
        pos: x.map(|x| ScreenPos { x, y: 0 }),
        drag,
        delta_x,
        delta_y: 0,
        hover: None,
    }
}

#[test]
fn pixel_99_covers_990_to_1000() {
    let t = fixed_view(100, 10, 1500);
    assert_eq!(t.offset(), 0);
    assert_eq!(t.screen_x_coordinate_to_data_range(99), 990..1000);
    assert_eq!(t.screen_x_coordinate_to_data_range(0), 0..10);
}

#[test]
fn columns_past_the_data_are_empty() {
    let t = fixed_view(200, 10, 1500);
    assert_eq!(t.screen_x_coordinate_to_data_range(149), 1490..1500);
    assert!(t.screen_x_coordinate_to_data_range(150).is_empty());
    assert!(t.screen_x_coordinate_to_data_range(180).is_empty());
}

#[test]
fn partial_last_bucket_is_clamped() {
    let t = fixed_view(100, 10, 995);
    assert_eq!(t.screen_x_coordinate_to_data_range(99), 990..995);
}

#[test]
fn live_follow_puts_newest_sample_in_last_column() {
    let mut t = Timeline::new();
    t.set_size(100, 256);
    t.update_scale(10, 0);
    t.update_sample_len(1500);
    assert_eq!(t.offset(), 500);
    let r = t.screen_x_coordinate_to_data_range(99);
    assert_eq!(r, 1490..1500);
    assert!(r.contains(&1499));
    t.update_sample_len(1503);
    assert_eq!(t.offset(), 503);
}

#[test]
fn live_follow_with_short_data_starts_at_zero() {
    let mut t = Timeline::new();
    t.set_size(100, 256);
    t.update_scale(10, 0);
    t.update_sample_len(400);
    assert_eq!(t.offset(), 0);
}

#[test]
fn screen_and_data_transforms() {
    let mut t = fixed_view(100, 10, 5000);
    t.pan_action(-50);
    assert_eq!(t.offset(), 500);
    assert_eq!(t.screen_to_data_x(3), 530);
    assert_eq!(t.screen_to_data_x_without_offset(3), 30);
    assert_eq!(t.data_to_screen_x(505), 0);
    assert_eq!(t.data_to_screen_x(515), 1);
    assert_eq!(t.data_to_screen_x(495), -1);
    assert_eq!(t.data_to_screen_x(480), -2);
    assert_eq!(t.data_x_range_to_screen_x_range(&(480..2000)), 0..100);
    assert_eq!(t.data_x_range_to_screen_x_range(&(520..560)), 2..6);
}

#[test]
fn pan_disables_live_and_clamps_at_zero() {
    let mut t = Timeline::new();
    t.set_size(100, 256);
    t.update_scale(10, 0);
    t.update_sample_len(1500);
    assert!(t.is_live());
    t.pan_action(20);
    assert!(!t.is_live());
    assert_eq!(t.offset(), 300);
    t.pan_action(100);
    assert_eq!(t.offset(), 0);
}

#[test]
fn zoom_keeps_the_point_under_the_cursor() {
    let mut t = fixed_view(100, 10, 100000);
    t.pan_action(-100);
    assert_eq!(t.offset(), 1000);
    assert_eq!(t.screen_to_data_x(50), 1500);
    t.update_scale(20, 50);
    assert_eq!(t.scale(), 20);
    assert_eq!(t.offset(), 500);
    assert_eq!(t.screen_to_data_x(50), 1500);
}

#[test]
fn large_scales_are_kept() {
    let mut t = fixed_view(100, 10, 100);
    t.update_scale(2_000_000, 10);
    assert_eq!(t.scale(), 2_000_000);
    t.update_scale(u32::MAX, 0);
    assert_eq!(t.scale(), u32::MAX);
    assert_eq!(t.screen_to_data_x(3), 3 * u32::MAX as i128);
}

#[test]
fn visible_extents_stop_at_the_data() {
    let t = fixed_view(10, 2, 7);
    let samples: Vec<i16> = vec![3, -1, 5, 5, -8, 2, 9, 100];
    assert_eq!(t.visible_extents(&samples), vec![(-1, 3), (5, 5), (-8, 2), (9, 9)]);
    let t = fixed_view(2, 2, 7);
    assert_eq!(t.visible_extents(&samples), vec![(-1, 3), (5, 5)]);
    assert_eq!(t.column_extent(&samples, 3), Some((9, 9)));
    assert_eq!(t.column_extent(&samples, 4), None);
}

#[test]
fn zoom_is_clamped_to_at_least_one() {
    let mut t = fixed_view(100, 10, 100);
    t.update_scale(0, 10);
    assert_eq!(t.scale(), 1);
}

#[test]
fn zoom_leaves_offset_to_live_follow() {
    let mut t = Timeline::new();
    t.set_size(100, 256);
    t.update_scale(10, 0);
    t.update_sample_len(1500);
    t.update_scale(5, 50);
    assert_eq!(t.offset(), 500);
    t.update_sample_len(1500);
    assert_eq!(t.offset(), 1000);
}

#[test]
fn selection_new_orders_its_bounds() {
    let s = Selection::new(9, 3);
    assert_eq!(s.range, 3..9);
    let s = Selection::new(3, 9);
    assert_eq!(s.range, 3..9);
}

#[test]
fn selection_update_bounds_moves_nearer_end() {
    let mut s = Selection::new(10, 20);
    let r = s.update_bounds(5);
    assert_eq!(s.range, 5..20);
    assert_eq!(r.range, 5..20);
    s.update_bounds(12);
    assert_eq!(s.range, 5..12);
}

#[test]
fn primary_drag_selects_from_press_point() {
    let mut t = fixed_view(100, 10, 1000);
    t.interact(&event(true, Some(20), PointerDrag::NoDrag, 0));
    assert_eq!(t.drag_state(), DragState::DownButNotDragging(ScreenPos { x: 20, y: 0 }));
    t.interact(&event(true, Some(30), PointerDrag::Primary, 0));
    assert_eq!(t.selection().unwrap().range, 200..300);
    t.interact(&event(true, Some(5), PointerDrag::Primary, 0));
    assert_eq!(t.selection().unwrap().range, 50..200);
    t.interact(&event(false, None, PointerDrag::NoDrag, 0));
    assert_eq!(t.drag_state(), DragState::NotDragging);
    assert_eq!(t.selection().unwrap().range, 50..200);
}

#[test]
fn selection_stays_ordered_and_within_the_data() {
    let mut t = fixed_view(100, 10, 450);
    t.interact(&event(true, Some(40), PointerDrag::NoDrag, 0));
    for x in [0u32, 99, 45, 12, 80, 40, 3] {
        t.interact(&event(true, Some(x), PointerDrag::Primary, 0));
        let s = t.selection().unwrap();
        assert!(s.range.start <= s.range.end);
        assert!(s.range.end <= 450);
    }
    let s = t.selection().unwrap();
    assert_eq!(s.range, 30..400);
    t.update_sample_len(100);
    let s = t.selection().unwrap();
    assert_eq!(s.range, 30..100);
}

#[test]
fn secondary_drag_pans_with_corrected_first_delta() {
    let mut t = fixed_view(100, 10, 100000);
    t.pan_action(-100);
    t.interact(&event(true, Some(50), PointerDrag::NoDrag, 0));
    t.interact(&event(true, Some(53), PointerDrag::Secondary, 0));
    assert_eq!(t.drag_state(), DragState::Dragging);
    assert_eq!(t.offset(), 970);
    t.interact(&event(true, Some(51), PointerDrag::Secondary, -2));
    assert_eq!(t.offset(), 990);
    assert!(!t.is_live());
}

#[test]
fn correct_drag_delta_reconstructs_motion_since_press() {
    let mut t = fixed_view(100, 10, 1000);
    assert_eq!(t.correct_drag_delta(Some(ScreenPos { x: 1, y: 1 }), 4, 4), (0, 0));
    t.interact(&event(true, Some(10), PointerDrag::NoDrag, 0));
    let d = t.correct_drag_delta(Some(ScreenPos { x: 17, y: 3 }), 0, 0);
    assert_eq!(d, (7, 3));
    assert_eq!(t.correct_drag_delta(None, -4, 2), (-4, 2));
}

#[test]
fn hover_sets_cursor() {
    let mut t = fixed_view(100, 10, 1000);
    let mut ev = event(false, None, PointerDrag::NoDrag, 0);
    ev.hover = Some(ScreenPos { x: 4, y: 9 });
    t.interact(&ev);
    assert_eq!(t.cursor_pos(), Some(ScreenPos { x: 4, y: 9 }));
    ev.hover = None;
    t.interact(&ev);
    assert_eq!(t.cursor_pos(), None);
}

#[test]
fn new_timeline_defaults() {
    let t = Timeline::new();
    assert_eq!(t.width(), 1);
    assert_eq!(t.height(), 256);
    assert_eq!(t.scale(), 1024);
    assert_eq!(t.vscale(), 1);
    assert!(t.is_live());
    assert!(t.selection().is_none());
}
