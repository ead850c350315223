use srdwm::Rect;

#[test]
fn overlap_detection_matches_aabb_semantics() {
    let a = Rect::new(0, 0, 100, 100);
    let b = Rect::new(50, 50, 100, 100);
    let c = Rect::new(100, 100, 50, 50);
    let d = Rect::new(200, 200, 10, 10);

    assert!(a.overlaps(&b));
    assert!(!a.overlaps(&c));
    assert!(!a.overlaps(&d));
}

#[test]
fn inset_shrinks_symmetrically() {
    let r = Rect::new(0, 0, 100, 60);
    let inset = r.inset(10);
    assert_eq!(inset, Rect::new(10, 10, 80, 40));
}

#[test]
fn contains_point_is_half_open() {
    let r = Rect::new(0, 0, 10, 10);
    assert!(r.contains_point(0, 0));
    assert!(!r.contains_point(10, 10));
    assert!(r.contains_point(9, 9));
}

#[test]
fn intersection_of_non_overlapping_rects_is_none() {
    let a = Rect::new(0, 0, 10, 10);
    let b = Rect::new(20, 20, 10, 10);
    assert_eq!(a.intersection(&b), None);
}

#[test]
fn intersection_is_the_overlapping_region() {
    let a = Rect::new(0, 0, 100, 100);
    let b = Rect::new(50, 50, 100, 100);
    assert_eq!(a.intersection(&b), Some(Rect::new(50, 50, 50, 50)));
}

#[test]
fn subtract_all_with_no_occluders_returns_the_rect_unchanged() {
    let r = Rect::new(0, 0, 100, 100);
    assert_eq!(r.subtract_all(&[]), vec![r]);
}

#[test]
fn subtract_all_with_a_non_overlapping_occluder_returns_the_rect_unchanged() {
    let r = Rect::new(0, 0, 100, 100);
    let occluder = Rect::new(200, 200, 10, 10);
    assert_eq!(r.subtract_all(&[occluder]), vec![r]);
}

#[test]
fn subtract_all_with_a_fully_covering_occluder_returns_nothing() {
    let r = Rect::new(10, 10, 20, 20);
    let occluder = Rect::new(0, 0, 100, 100);
    assert!(r.subtract_all(&[occluder]).is_empty());
}

#[test]
fn subtract_all_splits_a_tall_strip_around_a_covering_window_into_two_slivers() {
    let border = Rect::new(890, 126, 3, 630);
    let foreground = Rect::new(240, 277, 800, 630);
    let pieces = border.subtract_all(&[foreground]);
    assert_eq!(pieces, vec![Rect::new(890, 126, 3, 277 - 126)]);
}

#[test]
fn subtract_all_leaves_a_gap_when_the_occluder_only_covers_the_middle() {
    let strip = Rect::new(0, 0, 5, 100);
    let occluder = Rect::new(0, 30, 5, 20);
    let pieces = strip.subtract_all(&[occluder]);
    assert_eq!(pieces.len(), 2);
    assert!(pieces.contains(&Rect::new(0, 0, 5, 30)));
    assert!(pieces.contains(&Rect::new(0, 50, 5, 50)));
}

#[test]
fn subtract_all_handles_multiple_occluders_in_sequence() {
    let strip = Rect::new(0, 0, 5, 100);
    let a = Rect::new(0, 10, 5, 10);
    let b = Rect::new(0, 40, 5, 10);
    let pieces = strip.subtract_all(&[a, b]);
    assert_eq!(pieces.len(), 3);
    assert!(pieces.contains(&Rect::new(0, 0, 5, 10)));
    assert!(pieces.contains(&Rect::new(0, 20, 5, 20)));
    assert!(pieces.contains(&Rect::new(0, 50, 5, 50)));
}

#[test]
fn subtract_all_handles_a_partial_side_overlap_without_losing_area() {
    let r = Rect::new(0, 0, 100, 50);
    let occluder = Rect::new(-10, -10, 60, 70);
    let pieces = r.subtract_all(&[occluder]);
    assert_eq!(pieces, vec![Rect::new(50, 0, 50, 50)]);
}
