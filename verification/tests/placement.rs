use srdwm::placement::{PlacementConfig, SmartPlacement, SnapZoneKind};
use srdwm::{Monitor, Rect};

fn monitor() -> Monitor {
    Monitor::new(0, "test", Rect::new(0, 0, 1920, 1080))
}

#[test]
fn a_window_opened_alone_cascades_rather_than_using_a_pointless_1x1_grid() {
    let cfg = PlacementConfig::default();
    let r = SmartPlacement::place(&monitor(), &[], (400, 300), &cfg, 0);
    assert_eq!(r.x, cfg.cascade_offset);
    assert_eq!(r.y, cfg.cascade_offset);
}

#[test]
fn opening_the_same_app_alone_twice_in_a_row_lands_in_different_spots() {
    let cfg = PlacementConfig::default();
    let first = SmartPlacement::place(&monitor(), &[], (400, 300), &cfg, 0);
    let second = SmartPlacement::place(&monitor(), &[], (400, 300), &cfg, 1);
    assert_ne!(first, second);
}

#[test]
fn grid_avoids_occupied_cells() {
    let cfg = PlacementConfig::default();
    let first = SmartPlacement::place(&monitor(), &[], (400, 300), &cfg, 0);
    let second = SmartPlacement::place(&monitor(), &[first], (400, 300), &cfg, 1);
    assert!(!first.overlaps(&second), "second window must not overlap the first: {first:?} vs {second:?}");
}

#[test]
fn cascade_kicks_in_once_grid_is_full() {
    let cfg = PlacementConfig { max_grid: 1, ..Default::default() };
    let first = SmartPlacement::place(&monitor(), &[], (400, 300), &cfg, 0);
    let second = SmartPlacement::place(&monitor(), &[first], (400, 300), &cfg, 1);
    assert_ne!(first, second);
    assert_eq!(second.x, cfg.cascade_offset * 2);
    assert_eq!(second.y, cfg.cascade_offset * 2);
}

#[test]
fn cascade_step_keeps_advancing_even_if_the_previous_window_closed() {
    let cfg = PlacementConfig::default();
    let first = SmartPlacement::cascade(&monitor(), (400, 300), &cfg, 0);
    let second = SmartPlacement::cascade(&monitor(), (400, 300), &cfg, 1);
    assert_ne!(first, second, "an unchanged cascade_step of 0 vs 1 must not collapse to the same spot");
}

#[test]
fn snap_left_edge_yields_left_half() {
    let cfg = PlacementConfig::default();
    let dragged = Rect::new(2, 100, 400, 300);
    let zone = SmartPlacement::snap_zone(dragged, &monitor(), &cfg).unwrap();
    assert_eq!(zone, Rect::new(0, 0, 960, 1080));
}

#[test]
fn snap_top_edge_yields_maximize() {
    let cfg = PlacementConfig::default();
    let dragged = Rect::new(500, 1, 400, 300);
    let zone = SmartPlacement::snap_zone(dragged, &monitor(), &cfg).unwrap();
    assert_eq!(zone, monitor().geometry);
}

#[test]
fn snap_top_left_corner_yields_quarter() {
    let cfg = PlacementConfig::default();
    let dragged = Rect::new(1, 1, 400, 300);
    let zone = SmartPlacement::snap_zone(dragged, &monitor(), &cfg).unwrap();
    assert_eq!(zone, Rect::new(0, 0, 960, 540));
}

#[test]
fn no_snap_away_from_edges() {
    let cfg = PlacementConfig::default();
    let dragged = Rect::new(700, 400, 400, 300);
    assert!(SmartPlacement::snap_zone(dragged, &monitor(), &cfg).is_none());
}

#[test]
fn grid_placement_keeps_the_size_the_window_asked_for() {
    let cfg = PlacementConfig::default();
    let existing = [Rect::new(0, 0, 100, 100)];
    let r = SmartPlacement::place(&monitor(), &existing, (1200, 400), &cfg, 0);
    assert_eq!((r.width, r.height), (1200, 400), "the requested size must survive placement");
}

#[test]
fn a_window_never_lands_partly_off_screen() {
    let cfg = PlacementConfig::default();
    let area = monitor().geometry;
    for step in 0..40u32 {
        for size in [(400, 300), (1600, 900), (1900, 1000)] {
            let r = SmartPlacement::place(&monitor(), &[Rect::new(0, 0, 50, 50)], size, &cfg, step);
            assert!(
                r.x >= area.x && r.y >= area.y && r.right() <= area.right() && r.bottom() <= area.bottom(),
                "step {step} size {size:?} landed at {r:?}, outside {area:?}"
            );
        }
    }
}

#[test]
fn consecutive_windows_do_not_all_pile_into_the_same_corner() {
    let cfg = PlacementConfig::default();
    let existing = [Rect::new(900, 500, 80, 80)];
    let xs: Vec<i32> = (0..4).map(|step| SmartPlacement::place(&monitor(), &existing, (300, 200), &cfg, step).x).collect();
    assert!(xs.iter().any(|&x| x != xs[0]), "every placement started at the same x: {xs:?}");
}

#[test]
fn a_window_larger_than_the_whole_screen_is_cut_down_to_it() {
    let cfg = PlacementConfig::default();
    let r = SmartPlacement::place(&monitor(), &[Rect::new(0, 0, 50, 50)], (4000, 3000), &cfg, 0);
    let area = monitor().geometry;
    assert_eq!((r.width, r.height), (area.width, area.height));
    assert_eq!((r.x, r.y), (area.x, area.y));
}

#[test]
fn snap_zone_kind_halves_split_the_area_down_the_middle() {
    let area = monitor().geometry;
    assert_eq!(SnapZoneKind::LeftHalf.rect(area), Rect::new(0, 0, 960, 1080));
    assert_eq!(SnapZoneKind::RightHalf.rect(area), Rect::new(960, 0, 960, 1080));
}

#[test]
fn snap_zone_kind_quarters_tile_the_area_with_no_gap_or_overlap() {
    let area = monitor().geometry;
    let quarters = [
        SnapZoneKind::TopLeftQuarter.rect(area),
        SnapZoneKind::TopRightQuarter.rect(area),
        SnapZoneKind::BottomLeftQuarter.rect(area),
        SnapZoneKind::BottomRightQuarter.rect(area),
    ];
    for (i, a) in quarters.iter().enumerate() {
        for b in &quarters[i + 1..] {
            assert!(!a.overlaps(b), "{a:?} and {b:?} must not overlap");
        }
    }
    let covered: u32 = quarters.iter().map(|r| r.width * r.height).sum();
    assert_eq!(covered, area.width * area.height, "quarters must cover the whole area with no gap");
}

#[test]
fn snap_zone_kind_all_has_no_duplicates() {
    let area = monitor().geometry;
    let rects: Vec<_> = SnapZoneKind::all().iter().map(|z| z.rect(area)).collect();
    for (i, a) in rects.iter().enumerate() {
        for b in &rects[i + 1..] {
            assert_ne!(a, b, "two different zones must not resolve to the same rect");
        }
    }
}
