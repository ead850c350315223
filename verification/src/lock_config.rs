//! Configuration of the session-lock screen.
use crate::ieee::Float32;
use crate::text::same;
use crate::theme::same_color;
use vstd::prelude::*;
use vstd::std_specs::cmp::PartialEqSpec;

verus! {

#[derive(Debug)]
pub struct LockConfig {
    pub box_bg: (u8, u8, u8),
    /// How opaque the password box's panel is, from 0 (no panel) to 1.
    pub box_opacity: Float32,
    pub box_border: (u8, u8, u8),
    pub text_color: (u8, u8, u8),
    pub error_color: (u8, u8, u8),
    pub corner_radius: u32,
    /// Blur radius of the captured screen content, in pixels; 0 disables it.
    pub blur_radius: u32,
    /// Drawn once per character typed.
    pub dot_char: char,
    pub show_caps_lock: bool,
    pub show_failed_attempts: bool,
    pub fail_message: String,
    /// Whether time, date and user show above the password box.
    pub show_clock: bool,
    pub show_keyboard: bool,
    pub avatar_bg: (u8, u8, u8),
}

impl PartialEq for LockConfig {
    fn eq(&self, other: &Self) -> (r: bool) {
        same_color(self.box_bg, other.box_bg)
            && same_color(self.box_border, other.box_border)
            && same_color(self.text_color, other.text_color)
            && same_color(self.error_color, other.error_color)
            && self.corner_radius == other.corner_radius
            && self.blur_radius == other.blur_radius
            && self.dot_char == other.dot_char
            && self.show_caps_lock == other.show_caps_lock
            && self.show_failed_attempts == other.show_failed_attempts
            && self.show_clock == other.show_clock
            && self.show_keyboard == other.show_keyboard
            && same_color(self.avatar_bg, other.avatar_bg)
            && self.box_opacity.is_equal(&other.box_opacity)
            && same(self.fail_message.as_str(), other.fail_message.as_str())
    }
}

/// All fields are equal, the opacities as numbers.
impl vstd::std_specs::cmp::PartialEqSpecImpl for LockConfig {
    open spec fn obeys_eq_spec() -> bool {
        true
    }

    open spec fn eq_spec(&self, other: &Self) -> bool {
        &&& self.box_bg == other.box_bg
        &&& self.box_border == other.box_border
        &&& self.text_color == other.text_color
        &&& self.error_color == other.error_color
        &&& self.corner_radius == other.corner_radius
        &&& self.blur_radius == other.blur_radius
        &&& self.dot_char == other.dot_char
        &&& self.show_caps_lock == other.show_caps_lock
        &&& self.show_failed_attempts == other.show_failed_attempts
        &&& self.show_clock == other.show_clock
        &&& self.show_keyboard == other.show_keyboard
        &&& self.avatar_bg == other.avatar_bg
        &&& self.box_opacity.equals(other.box_opacity)
        &&& self.fail_message@ == other.fail_message@
    }
}

impl Default for LockConfig {
    fn default() -> (r: Self)
        ensures
            r.box_bg == (0x2eu8, 0x34u8, 0x40u8),
            r.box_opacity.bits == 0,
            r.box_border == (0x88u8, 0xc0u8, 0xd0u8),
            r.text_color == (0xecu8, 0xefu8, 0xf4u8),
            r.error_color == (0xbfu8, 0x61u8, 0x6au8),
            r.corner_radius == 10,
            r.blur_radius == 20,
            r.dot_char == '\u{25cf}',
            r.show_caps_lock,
            r.show_failed_attempts,
            r.fail_message@ == "Wrong password"@,
            r.show_clock,
            r.show_keyboard,
            r.avatar_bg == (0x88u8, 0xc0u8, 0xd0u8),
    {
        LockConfig {
            box_bg: (0x2e, 0x34, 0x40),
            box_opacity: Float32 { bits: 0 },
            box_border: (0x88, 0xc0, 0xd0),
            text_color: (0xec, 0xef, 0xf4),
            error_color: (0xbf, 0x61, 0x6a),
            corner_radius: 10,
            blur_radius: 20,
            dot_char: '\u{25cf}',
            show_caps_lock: true,
            show_failed_attempts: true,
            fail_message: "Wrong password".to_string(),
            show_clock: true,
            show_keyboard: true,
            avatar_bg: (0x88, 0xc0, 0xd0),
        }
    }
}

impl Clone for LockConfig {
    fn clone(&self) -> (r: Self)
        ensures
            r == *self,
    {
        LockConfig {
            box_bg: self.box_bg,
            box_opacity: self.box_opacity,
            box_border: self.box_border,
            text_color: self.text_color,
            error_color: self.error_color,
            corner_radius: self.corner_radius,
            blur_radius: self.blur_radius,
            dot_char: self.dot_char,
            show_caps_lock: self.show_caps_lock,
            show_failed_attempts: self.show_failed_attempts,
            fail_message: self.fail_message.clone(),
            show_clock: self.show_clock,
            show_keyboard: self.show_keyboard,
            avatar_bg: self.avatar_bg,
        }
    }
}

/// Lock screens that are equal are equal in every field, and one with numbers in
/// it is equal to itself.
pub proof fn lemma_equal_lock_screens(a: LockConfig, b: LockConfig)
    ensures
        a.eq_spec(&b) ==> {
            &&& a.box_bg == b.box_bg && a.box_border == b.box_border && a.text_color == b.text_color
            &&& a.error_color == b.error_color && a.corner_radius == b.corner_radius && a.blur_radius == b.blur_radius
            &&& a.dot_char == b.dot_char && a.show_caps_lock == b.show_caps_lock
            &&& a.show_failed_attempts == b.show_failed_attempts && a.show_clock == b.show_clock
            &&& a.show_keyboard == b.show_keyboard && a.avatar_bg == b.avatar_bg
            &&& !a.box_opacity.less(b.box_opacity) && !b.box_opacity.less(a.box_opacity)
            &&& a.fail_message@ == b.fail_message@
        },
        a == b && !a.box_opacity.nan() ==> a.eq_spec(&b),
        a.eq_spec(&b) == b.eq_spec(&a),
{
}

} // verus!
