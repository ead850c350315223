//! Decoration colours and sizes, and colours as text.
use crate::ieee::Float32;
use crate::text::chars_of;
use crate::window::ButtonOrder;
use vstd::prelude::*;
use vstd::std_specs::cmp::PartialEqSpec;

verus! {

/// The encoding of the factor 0.35.
pub const DEFAULT_INACTIVE_DIM: u32 = 0x3eb3_3333;

/// Default decoration colours and sizes, applied to every window at creation,
/// before rules run.
#[derive(Debug, Clone, Copy)]
pub struct ThemeConfig {
    pub titlebar_bg: (u8, u8, u8),
    pub titlebar_fg_focused: (u8, u8, u8),
    pub titlebar_fg_unfocused: (u8, u8, u8),
    pub default_border_color: (u8, u8, u8),
    pub default_border_width: u32,
    /// Corner radius of titlebar and border, in logical pixels.
    pub default_corner_radius: u32,
    /// Whether a new window gets a titlebar drawn by the window manager.
    pub default_decorated: bool,
    /// How much an unfocused window's border is dimmed: 1 keeps its colour, 0
    /// removes the border.
    pub border_inactive_dim: Float32,
    pub title_centered: bool,
    /// Whether titlebar buttons are on the left.
    pub buttons_left: bool,
    /// An explicit order of the titlebar buttons.
    pub button_order: Option<ButtonOrder>,
    /// Whether the glyph of a titlebar button shows without hovering.
    pub button_glyph_always: bool,
    /// Whether titlebar buttons are filled, coloured circles.
    pub traffic_light_buttons: bool,
    /// Whether a window that cannot be resized goes without a maximize button.
    pub dynamic_buttons: bool,
}

impl PartialEq for ThemeConfig {
    fn eq(&self, other: &Self) -> (r: bool) {
        same_color(self.titlebar_bg, other.titlebar_bg)
            && same_color(self.titlebar_fg_focused, other.titlebar_fg_focused)
            && same_color(self.titlebar_fg_unfocused, other.titlebar_fg_unfocused)
            && same_color(self.default_border_color, other.default_border_color)
            && self.default_border_width == other.default_border_width
            && self.default_corner_radius == other.default_corner_radius
            && self.default_decorated == other.default_decorated
            && self.title_centered == other.title_centered
            && self.buttons_left == other.buttons_left
            && self.button_glyph_always == other.button_glyph_always
            && self.traffic_light_buttons == other.traffic_light_buttons
            && self.dynamic_buttons == other.dynamic_buttons
            && self.border_inactive_dim.is_equal(&other.border_inactive_dim)
            && same_order(self.button_order, other.button_order)
    }
}

/// All fields are equal, the factors as numbers.
impl vstd::std_specs::cmp::PartialEqSpecImpl for ThemeConfig {
    open spec fn obeys_eq_spec() -> bool {
        true
    }

    open spec fn eq_spec(&self, other: &Self) -> bool {
        &&& self.titlebar_bg == other.titlebar_bg
        &&& self.titlebar_fg_focused == other.titlebar_fg_focused
        &&& self.titlebar_fg_unfocused == other.titlebar_fg_unfocused
        &&& self.default_border_color == other.default_border_color
        &&& self.default_border_width == other.default_border_width
        &&& self.default_corner_radius == other.default_corner_radius
        &&& self.default_decorated == other.default_decorated
        &&& self.title_centered == other.title_centered
        &&& self.buttons_left == other.buttons_left
        &&& self.button_glyph_always == other.button_glyph_always
        &&& self.traffic_light_buttons == other.traffic_light_buttons
        &&& self.dynamic_buttons == other.dynamic_buttons
        &&& self.border_inactive_dim.equals(other.border_inactive_dim)
        &&& equal_orders(self.button_order, other.button_order)
    }
}

/// Whether two colours are the same.
pub(crate) fn same_color(a: (u8, u8, u8), b: (u8, u8, u8)) -> (r: bool)
    ensures
        r == (a == b),
{
    a.0 == b.0 && a.1 == b.1 && a.2 == b.2
}

/// Two orders of titlebar buttons that agree in each place, or none twice.
pub open spec fn equal_orders(a: Option<ButtonOrder>, b: Option<ButtonOrder>) -> bool {
    match (a, b) {
        (Some(x), Some(y)) => x@ == y@,
        (None, None) => true,
        _ => false,
    }
}

/// Whether two orders of titlebar buttons are the same.
fn same_order(a: Option<ButtonOrder>, b: Option<ButtonOrder>) -> (r: bool)
    ensures
        r == equal_orders(a, b),
{
    match (a, b) {
        (Some(x), Some(y)) => {
            let r: bool = x[0] == y[0] && x[1] == y[1] && x[2] == y[2];
            assert(r ==> x@ =~= y@);
            r
        },
        (None, None) => true,
        _ => false,
    }
}

impl Default for ThemeConfig {
    fn default() -> (r: Self)
        ensures
            r.titlebar_bg == (0x2eu8, 0x34u8, 0x40u8),
            r.titlebar_fg_focused == (0x88u8, 0xc0u8, 0xd0u8),
            r.titlebar_fg_unfocused == (0x4cu8, 0x56u8, 0x6au8),
            r.default_border_color == (136u8, 192u8, 208u8),
            r.default_border_width == 4,
            r.default_corner_radius == 12,
            r.default_decorated,
            r.border_inactive_dim.bits == DEFAULT_INACTIVE_DIM,
            !r.title_centered,
            !r.buttons_left,
            r.button_order is None,
            !r.button_glyph_always,
            r.traffic_light_buttons,
            !r.dynamic_buttons,
    {
        ThemeConfig {
            titlebar_bg: (0x2e, 0x34, 0x40),
            titlebar_fg_focused: (0x88, 0xc0, 0xd0),
            titlebar_fg_unfocused: (0x4c, 0x56, 0x6a),
            default_border_color: (136, 192, 208),
            default_border_width: 4,
            default_corner_radius: 12,
            default_decorated: true,
            border_inactive_dim: Float32 { bits: DEFAULT_INACTIVE_DIM },
            title_centered: false,
            buttons_left: false,
            button_order: None,
            button_glyph_always: false,
            traffic_light_buttons: true,
            dynamic_buttons: false,
        }
    }
}

pub open spec fn is_hex_digit(c: char) -> bool {
    '0' <= c <= '9' || 'a' <= c <= 'f' || 'A' <= c <= 'F'
}

pub open spec fn hex_value(c: char) -> int {
    if c <= '9' {
        c as int - '0' as int
    } else if c <= 'F' {
        c as int - 'A' as int + 10
    } else {
        c as int - 'a' as int + 10
    }
}

/// Whether a text has the shape `#rrggbb`.
pub open spec fn is_hex_color(s: Seq<char>) -> bool {
    s.len() == 7 && s[0] == '#' && forall|i: int| 1 <= i < 7 ==> is_hex_digit(#[trigger] s[i])
}

/// The channel that two hex digits from position `i` on are.
pub open spec fn channel_at(s: Seq<char>, i: int) -> u8 {
    (hex_value(s[i]) * 16 + hex_value(s[i + 1])) as u8
}

/// The colour that a text denotes, if it has the shape `#rrggbb`.
pub open spec fn color_of(s: Seq<char>) -> Option<(u8, u8, u8)> {
    if is_hex_color(s) {
        Some((channel_at(s, 1), channel_at(s, 3), channel_at(s, 5)))
    } else {
        None
    }
}

fn hex_digit(c: char) -> (r: Option<u8>)
    ensures
        r == (if is_hex_digit(c) { Some(hex_value(c) as u8) } else { None }),
        r matches Some(d) ==> d < 16,
{
    if '0' <= c && c <= '9' {
        Some((c as u32 - '0' as u32) as u8)
    } else if 'a' <= c && c <= 'f' {
        Some((c as u32 - 'a' as u32 + 10) as u8)
    } else if 'A' <= c && c <= 'F' {
        Some((c as u32 - 'A' as u32 + 10) as u8)
    } else {
        None
    }
}

/// Whether a text has the shape `#rrggbb`.
pub fn is_valid_hex_color(s: &str) -> (r: bool)
    ensures
        r == is_hex_color(s@),
{
    parse_hex_color(s).is_some()
}

/// Parses a `#rrggbb` string into its channels. Returns `None` for anything
/// else.
pub fn parse_hex_color(s: &str) -> (r: Option<(u8, u8, u8)>)
    ensures
        r == color_of(s@),
{
    let v = chars_of(s);
    if v.len() != 7 || v[0] != '#' {
        return None;
    }
    match (hex_digit(v[1]), hex_digit(v[2]), hex_digit(v[3]), hex_digit(v[4]), hex_digit(v[5]), hex_digit(v[6])) {
        (Some(a), Some(b), Some(c), Some(d), Some(e), Some(f)) => {
            assert(forall|i: int| 1 <= i < 7 ==> is_hex_digit(#[trigger] s@[i]));
            Some((a * 16 + b, c * 16 + d, e * 16 + f))
        },
        _ => {
            assert(!is_hex_digit(s@[1]) || !is_hex_digit(s@[2]) || !is_hex_digit(s@[3]) || !is_hex_digit(s@[4])
                || !is_hex_digit(s@[5]) || !is_hex_digit(s@[6]));
            None
        },
    }
}

/// The lower-case hex digit for `d < 16`.
pub open spec fn hex_char(d: int) -> char {
    if d < 10 {
        ('0' as int + d) as char
    } else {
        ('a' as int + d - 10) as char
    }
}

/// A colour as `#rrggbb`, in lower case.
pub open spec fn color_text(rgb: (u8, u8, u8)) -> Seq<char> {
    seq![
        '#',
        hex_char(rgb.0 as int / 16),
        hex_char(rgb.0 as int % 16),
        hex_char(rgb.1 as int / 16),
        hex_char(rgb.1 as int % 16),
        hex_char(rgb.2 as int / 16),
        hex_char(rgb.2 as int % 16),
    ]
}

fn hex_letter(d: u8) -> (r: char)
    requires
        d < 16,
    ensures
        r == hex_char(d as int),
{
    if d < 10 {
        (48 + d) as char
    } else {
        (87 + d) as char
    }
}

/// The inverse of [`parse_hex_color`]: `#rrggbb`, in lower case, always six
/// hex digits.
pub fn format_hex_color(rgb: (u8, u8, u8)) -> (r: String)
    ensures
        r@ == color_text(rgb),
{
    let mut s = String::new();
    s.push('#');
    s.push(hex_letter(rgb.0 / 16));
    s.push(hex_letter(rgb.0 % 16));
    s.push(hex_letter(rgb.1 / 16));
    s.push(hex_letter(rgb.1 % 16));
    s.push(hex_letter(rgb.2 / 16));
    s.push(hex_letter(rgb.2 % 16));
    assert(s@ =~= color_text(rgb));
    s
}

/// What a colour is written as reads back as the same colour.
pub proof fn lemma_color_reads_back(rgb: (u8, u8, u8))
    ensures
        color_of(color_text(rgb)) == Some(rgb),
{
    let s = color_text(rgb);
    assert forall|d: int| 0 <= d < 16 implies is_hex_digit(#[trigger] hex_char(d)) && hex_value(hex_char(d)) == d by {
    }
    assert(s.len() == 7);
    assert(s[1] == hex_char(rgb.0 as int / 16) && s[2] == hex_char(rgb.0 as int % 16));
    assert(s[3] == hex_char(rgb.1 as int / 16) && s[4] == hex_char(rgb.1 as int % 16));
    assert(s[5] == hex_char(rgb.2 as int / 16) && s[6] == hex_char(rgb.2 as int % 16));
}

/// A colour's red, green and blue are the three pairs of hex digits, in that
/// order, in either case. A text of another form is no colour.
pub proof fn lemma_color_digits(s: Seq<char>, i: int)
    requires
        0 <= i <= 2,
    ensures
        ({
            let a = s[1 + 2 * i];
            let b = s[2 + 2 * i];
            let high = if '0' <= a <= '9' {
                a as int - '0' as int
            } else if 'a' <= a <= 'f' {
                a as int - 'a' as int + 10
            } else {
                a as int - 'A' as int + 10
            };
            let low = if '0' <= b <= '9' {
                b as int - '0' as int
            } else if 'a' <= b <= 'f' {
                b as int - 'a' as int + 10
            } else {
                b as int - 'A' as int + 10
            };
            match color_of(s) {
                Some(rgb) => {
                    let channel = if i == 0 { rgb.0 } else if i == 1 { rgb.1 } else { rgb.2 };
                    &&& s.len() == 7 && s[0] == '#'
                    &&& '0' <= a <= '9' || 'a' <= a <= 'f' || 'A' <= a <= 'F'
                    &&& '0' <= b <= '9' || 'a' <= b <= 'f' || 'A' <= b <= 'F'
                    &&& channel == 16 * high + low
                },
                None => s.len() != 7 || s[0] != '#' || exists|k: int|
                    1 <= k < 7 && {
                        let c = #[trigger] s[k];
                        !('0' <= c <= '9' || 'a' <= c <= 'f' || 'A' <= c <= 'F')
                    },
            }
        }),
{
    if is_hex_color(s) {
        assert(is_hex_digit(s[1 + 2 * i]) && is_hex_digit(s[2 + 2 * i]));
    } else if s.len() == 7 && s[0] == '#' {
        let k = choose|k: int| 1 <= k < 7 && !is_hex_digit(#[trigger] s[k]);
        assert(!is_hex_digit(s[k]));
    }
}

/// A color is written with small letters, and two digits for each channel.
pub proof fn lemma_color_written_small(rgb: (u8, u8, u8), i: int)
    requires
        1 <= i < 7,
    ensures
        color_text(rgb).len() == 7,
        color_text(rgb)[0] == '#',
        '0' <= color_text(rgb)[i] <= '9' || 'a' <= color_text(rgb)[i] <= 'f',
{
}

/// Themes that are equal are equal in every field, and a theme with numbers in
/// it is equal to itself.
pub proof fn lemma_equal_themes(a: ThemeConfig, b: ThemeConfig)
    ensures
        a.eq_spec(&b) ==> {
            &&& a.titlebar_bg == b.titlebar_bg && a.titlebar_fg_focused == b.titlebar_fg_focused
            &&& a.titlebar_fg_unfocused == b.titlebar_fg_unfocused && a.default_border_color == b.default_border_color
            &&& a.default_border_width == b.default_border_width && a.default_corner_radius == b.default_corner_radius
            &&& a.default_decorated == b.default_decorated && a.title_centered == b.title_centered
            &&& a.buttons_left == b.buttons_left && a.button_glyph_always == b.button_glyph_always
            &&& a.traffic_light_buttons == b.traffic_light_buttons && a.dynamic_buttons == b.dynamic_buttons
            &&& !a.border_inactive_dim.less(b.border_inactive_dim) && !b.border_inactive_dim.less(a.border_inactive_dim)
            &&& a.button_order is Some == b.button_order is Some
            &&& a.button_order is Some ==> a.button_order->Some_0@ == b.button_order->Some_0@
        },
        a == b && !a.border_inactive_dim.nan() ==> a.eq_spec(&b),
        a.eq_spec(&b) == b.eq_spec(&a),
{
}

} // verus!
