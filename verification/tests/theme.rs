use srdwm::theme::{format_hex_color, parse_hex_color, ThemeConfig};

#[test]
fn parses_a_well_formed_hex_color() {
    assert_eq!(parse_hex_color("#88c0d0"), Some((0x88, 0xc0, 0xd0)));
}

#[test]
fn rejects_missing_hash_or_wrong_length() {
    assert_eq!(parse_hex_color("88c0d0"), None);
    assert_eq!(parse_hex_color("#88c0d"), None);
    assert_eq!(parse_hex_color("#88c0d00"), None);
}

#[test]
fn rejects_non_hex_digits() {
    assert_eq!(parse_hex_color("#zzzzzz"), None);
}

#[test]
fn format_hex_color_round_trips_through_parse_hex_color() {
    for rgb in [(0x88, 0xc0, 0xd0), (0, 0, 0), (0xff, 0xff, 0xff), (0x05, 0x0a, 0x0f)] {
        assert_eq!(parse_hex_color(&format_hex_color(rgb)), Some(rgb));
    }
}

#[test]
fn format_hex_color_pads_low_channel_values() {
    assert_eq!(format_hex_color((0x05, 0x0a, 0x0f)), "#050a0f");
}

#[test]
fn default_matches_the_legacy_hardcoded_nord_palette() {
    let t = ThemeConfig::default();
    assert_eq!(t.titlebar_bg, (0x2e, 0x34, 0x40));
    assert_eq!(t.titlebar_fg_focused, (0x88, 0xc0, 0xd0));
    assert_eq!(t.default_border_color, (136, 192, 208));
}
