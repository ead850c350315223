use srdwm::monitor::split_rect;
use srdwm::Rect;

#[test]
fn single_part_returns_the_whole_rect_unchanged() {
    let r = Rect::new(0, 0, 1920, 1080);
    assert_eq!(split_rect(r, 0, 1, false), r);
}

#[test]
fn even_columns_split_width_with_no_gap_or_overlap() {
    let r = Rect::new(100, 0, 1920, 1080);
    let a = split_rect(r, 0, 2, false);
    let b = split_rect(r, 1, 2, false);
    assert_eq!(a, Rect::new(100, 0, 960, 1080));
    assert_eq!(b, Rect::new(1060, 0, 960, 1080));
    assert_eq!(a.right(), b.x, "no gap or overlap between adjacent parts");
}

#[test]
fn uneven_columns_spread_the_remainder_one_pixel_at_a_time() {
    let r = Rect::new(0, 0, 1919, 1080);
    let a = split_rect(r, 0, 2, false);
    let b = split_rect(r, 1, 2, false);
    assert_eq!(a.width, 960);
    assert_eq!(b.width, 959);
    assert_eq!(a.width + b.width, r.width);
    assert_eq!(a.right(), b.x);
}

#[test]
fn rows_split_height_and_leave_width_untouched() {
    let r = Rect::new(0, 50, 1920, 1080);
    let a = split_rect(r, 0, 2, true);
    let b = split_rect(r, 1, 2, true);
    assert_eq!(a, Rect::new(0, 50, 1920, 540));
    assert_eq!(b, Rect::new(0, 590, 1920, 540));
    assert_eq!(a.bottom(), b.y);
}

#[test]
fn three_parts_covers_the_whole_rect_exactly() {
    let r = Rect::new(0, 0, 1000, 500);
    let parts: Vec<Rect> = (0..3).map(|i| split_rect(r, i, 3, false)).collect();
    let total_width: u32 = parts.iter().map(|p| p.width).sum();
    assert_eq!(total_width, r.width);
    for w in parts.windows(2) {
        assert_eq!(w[0].right(), w[1].x);
    }
}

#[test]
fn out_of_range_index_returns_the_whole_rect_unchanged() {
    let r = Rect::new(0, 0, 1920, 1080);
    assert_eq!(split_rect(r, 5, 2, false), r);
}
