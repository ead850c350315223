//! Windows, and what a point on a window's frame means.
use crate::geometry::{int_max, Rect};
use crate::ieee::Float32;
use crate::num::{as_signed, read_signed, saturate_i32, saturate_u32, to_i32_range, to_u32_range};
use crate::placement::{MIN_WINDOW_HEIGHT, MIN_WINDOW_WIDTH};
use crate::text::{
    ascii_lower, has_prefix, lemma_first_is, same, split, split_at_each, starts_with, to_ascii_lower, trim,
    trim_end, trim_start, views,
};
use vstd::prelude::*;

verus! {

pub type WindowId = u64;

/// A window's global-menu address on the session bus.
#[derive(Debug, PartialEq, Eq)]
pub struct GlobalMenu {
    pub bus_name: String,
    pub menu_path: Option<String>,
    pub app_path: Option<String>,
    pub window_path: Option<String>,
    pub source: MenuSource,
}

/// A copy of an optional text.
pub(crate) fn copy_text(t: &Option<String>) -> (r: Option<String>)
    ensures
        r == *t,
{
    match t {
        Some(s) => Some(s.clone()),
        None => None,
    }
}

impl Clone for GlobalMenu {
    fn clone(&self) -> (r: Self)
        ensures
            r == *self,
    {
        GlobalMenu {
            bus_name: self.bus_name.clone(),
            menu_path: copy_text(&self.menu_path),
            app_path: copy_text(&self.app_path),
            window_path: copy_text(&self.window_path),
            source: self.source,
        }
    }
}

impl Default for GlobalMenu {
    fn default() -> (r: Self)
        ensures
            r.bus_name@ == Seq::<char>::empty(),
            r.menu_path is None,
            r.app_path is None,
            r.window_path is None,
            r.source == MenuSource::Gtk,
    {
        GlobalMenu {
            bus_name: String::new(),
            menu_path: None,
            app_path: None,
            window_path: None,
            source: MenuSource::Gtk,
        }
    }
}

/// How a global menu has to be read.
#[derive(Debug, Clone, Copy, PartialEq, Eq, Structural)]
pub enum MenuSource {
    /// A `GMenuModel` of a `GtkApplication`, with `app.` and `win.` actions.
    Gtk,
    /// A `GMenuModel` with `unity.` actions, exported for a plain window.
    Unity,
    /// The wire protocol `com.canonical.dbusmenu`.
    DbusMenu,
}

impl Default for MenuSource {
    fn default() -> (r: Self)
        ensures
            r == MenuSource::Gtk,
    {
        MenuSource::Gtk
    }
}

/// The menu path to use and how to read it. A GTK path always wins, and is read
/// as a `GtkApplication`'s only where the window belongs to one; a bare Unity
/// path is a dbusmenu.
pub fn classify_menu_source(
    gtk_menu_path: Option<String>,
    is_real_gtk_application: bool,
    unity_path: Option<String>,
) -> (r: (Option<String>, MenuSource))
    ensures
        r == (match gtk_menu_path {
            Some(path) => (Some(path), if is_real_gtk_application { MenuSource::Gtk } else { MenuSource::Unity }),
            None => match unity_path {
                Some(path) => (Some(path), MenuSource::DbusMenu),
                None => (None, MenuSource::Gtk),
            },
        }),
{
    match gtk_menu_path {
        Some(path) => if is_real_gtk_application {
            (Some(path), MenuSource::Gtk)
        } else {
            (Some(path), MenuSource::Unity)
        },
        None => match unity_path {
            Some(path) => (Some(path), MenuSource::DbusMenu),
            None => (None, MenuSource::Gtk),
        },
    }
}

/// Whether `app_id` almost certainly belongs to an application that draws its
/// own header bar whatever decoration mode is negotiated: the namespaces
/// `org.gnome.*` and `org.pwmt.*`, in any case.
pub fn likely_draws_own_titlebar(app_id: &str) -> (r: bool)
    ensures
        r == (has_prefix(ascii_lower(app_id@), "org.gnome."@) || has_prefix(ascii_lower(app_id@), "org.pwmt."@)),
{
    let lower = to_ascii_lower(app_id);
    starts_with(lower.as_str(), "org.gnome.") || starts_with(lower.as_str(), "org.pwmt.")
}

/// The encoding of full opacity.
pub const OPAQUE: u32 = 0x3f80_0000;

/// State of a single managed window. Backends own the real surface and keep a
/// `Window` in sync with it.
#[derive(Debug)]
pub struct Window {
    pub id: WindowId,
    pub title: String,
    /// X11's `WM_CLASS` class, or Wayland's `app_id`.
    pub app_id: String,
    /// X11's `WM_CLASS` instance; empty on Wayland.
    pub instance: String,
    pub geometry: Rect,
    /// Geometry to restore to when un-maximizing.
    pub restore_geometry: Option<Rect>,
    pub decorated: bool,
    /// Whether the window declared itself a dialog of another one. Its
    /// titlebar shows a close button only.
    pub is_dialog: bool,
    /// Whether the client says it can be resized.
    pub resizable: bool,
    /// The window's own minimum size.
    pub min_size: (u32, u32),
    /// Whether `min_size` stays, whatever minimum the client declares.
    pub min_size_from_rule: bool,
    /// `decorated` from just before entering fullscreen, restored on exit.
    pub restore_decorated: Option<bool>,
    pub floating: bool,
    pub minimized: bool,
    /// Whether the window belongs to the scratchpad pool. Persists across
    /// showing and hiding.
    pub scratchpad: bool,
    pub maximized: bool,
    pub fullscreen: bool,
    pub always_on_top: bool,
    pub border_color: (u8, u8, u8),
    pub border_width: u32,
    pub corner_radius: u32,
    /// Content opacity, from 0 to 1.
    pub opacity: Float32,
    /// Override of the manager's resize margin.
    pub resize_margin: Option<i32>,
    /// Ratio of width to height to hold while being resized.
    pub aspect_ratio: Option<(u32, u32)>,
    pub workspace: usize,
    pub monitor: u32,
    /// Whether the rules have been evaluated against the real identity of the
    /// window. They are applied once.
    pub rules_applied: bool,
    /// Where an animated move started; a backend takes it.
    pub anim_from: Option<Rect>,
    pub global_menu: Option<GlobalMenu>,
    /// Whether the size of `geometry` is a guess that the client's own first
    /// size may replace.
    pub size_is_provisional: bool,
}

impl Window {
    pub fn new(id: WindowId, title: &str) -> (r: Self)
        ensures
            r.id == id,
            r.title@ == title@,
            r.app_id@ == Seq::<char>::empty(),
            r.instance@ == Seq::<char>::empty(),
            r.geometry == (Rect { x: 0, y: 0, width: 640, height: 480 }),
            r.restore_geometry is None,
            r.decorated,
            !r.is_dialog,
            r.resizable,
            r.min_size == (MIN_WINDOW_WIDTH, MIN_WINDOW_HEIGHT),
            !r.min_size_from_rule,
            r.restore_decorated is None,
            !r.floating && !r.minimized && !r.scratchpad && !r.maximized && !r.fullscreen && !r.always_on_top,
            r.border_color == (136u8, 192u8, 208u8),
            r.border_width == 2,
            r.corner_radius == 6,
            r.opacity.bits == OPAQUE,
            r.resize_margin is None,
            r.aspect_ratio is None,
            r.workspace == 1,
            r.monitor == 0,
            !r.rules_applied,
            r.anim_from is None,
            r.global_menu is None,
            !r.size_is_provisional,
    {
        Window {
            id,
            title: title.to_string(),
            app_id: String::new(),
            instance: String::new(),
            geometry: Rect::new(0, 0, 640, 480),
            restore_geometry: None,
            decorated: true,
            is_dialog: false,
            resizable: true,
            min_size: (MIN_WINDOW_WIDTH, MIN_WINDOW_HEIGHT),
            min_size_from_rule: false,
            restore_decorated: None,
            floating: false,
            minimized: false,
            scratchpad: false,
            maximized: false,
            fullscreen: false,
            always_on_top: false,
            border_color: (136, 192, 208),
            border_width: 2,
            corner_radius: 6,
            opacity: Float32 { bits: OPAQUE },
            resize_margin: None,
            aspect_ratio: None,
            workspace: 1,
            monitor: 0,
            rules_applied: false,
            anim_from: None,
            global_menu: None,
            size_is_provisional: false,
        }
    }
}

impl Clone for Window {
    fn clone(&self) -> (r: Self)
        ensures
            r == *self,
    {
        Window {
            id: self.id,
            title: self.title.clone(),
            app_id: self.app_id.clone(),
            instance: self.instance.clone(),
            geometry: self.geometry,
            restore_geometry: self.restore_geometry,
            decorated: self.decorated,
            is_dialog: self.is_dialog,
            resizable: self.resizable,
            min_size: self.min_size,
            min_size_from_rule: self.min_size_from_rule,
            restore_decorated: self.restore_decorated,
            floating: self.floating,
            minimized: self.minimized,
            scratchpad: self.scratchpad,
            maximized: self.maximized,
            fullscreen: self.fullscreen,
            always_on_top: self.always_on_top,
            border_color: self.border_color,
            border_width: self.border_width,
            corner_radius: self.corner_radius,
            opacity: self.opacity,
            resize_margin: self.resize_margin,
            aspect_ratio: self.aspect_ratio,
            workspace: self.workspace,
            monitor: self.monitor,
            rules_applied: self.rules_applied,
            anim_from: self.anim_from,
            global_menu: match &self.global_menu {
                Some(m) => Some(m.clone()),
                None => None,
            },
            size_is_provisional: self.size_is_provisional,
        }
    }
}

/// The height, in pixels, of the drawn title bar.
pub const TITLEBAR_HEIGHT: u32 = 32;

/// The centre-to-centre spacing between titlebar buttons, and the size of the
/// square that each one is drawn and hit-tested inside.
pub const BUTTON_PITCH: u32 = 24;

/// The gap, in pixels, between the titlebar's edge and the first button.
pub const BUTTON_CLUSTER_MARGIN: u32 = 13;

/// How far inside a window's edge the pointer may be and still grab it.
pub const RESIZE_MARGIN: i32 = 6;

/// The margin of a window without decoration, on every edge and corner.
pub const UNDECORATED_RESIZE_MARGIN: i32 = 3;

/// How far outside a window its edge can be grabbed, at least.
pub const RESIZE_OUTSET: i32 = 5;

/// The rows at the top of a titlebar that resize instead of dragging.
pub const DECORATED_TOP_RESIZE_MARGIN: i32 = RESIZE_MARGIN;

/// How many times the resize margin a corner reaches.
pub const CORNER_MARGIN: i32 = 5;

#[derive(Debug, Clone, Copy, PartialEq, Eq, Structural)]
pub enum ResizeEdge {
    Left,
    Right,
    Top,
    Bottom,
    TopLeft,
    TopRight,
    BottomLeft,
    BottomRight,
}

#[derive(Debug, Clone, Copy, PartialEq, Eq, Structural)]
pub enum TitlebarHit {
    Drag,
    Close,
    Maximize,
    Minimize,
    Resize(ResizeEdge),
}

/// One of the three titlebar buttons.
#[derive(Debug, Clone, Copy, PartialEq, Eq, Structural)]
pub enum TitlebarButton {
    Close,
    Minimize,
    Maximize,
}

/// An order of the three titlebar buttons, the one closest to the edge that
/// they are aligned to first.
pub type ButtonOrder = [TitlebarButton; 3];

impl TitlebarButton {
    /// What a click on the button is.
    pub open spec fn hit_of(self) -> TitlebarHit {
        match self {
            TitlebarButton::Close => TitlebarHit::Close,
            TitlebarButton::Minimize => TitlebarHit::Minimize,
            TitlebarButton::Maximize => TitlebarHit::Maximize,
        }
    }

    fn hit(self) -> (r: TitlebarHit)
        ensures
            r == self.hit_of(),
    {
        match self {
            TitlebarButton::Close => TitlebarHit::Close,
            TitlebarButton::Minimize => TitlebarHit::Minimize,
            TitlebarButton::Maximize => TitlebarHit::Maximize,
        }
    }

    /// The name of the button in a list of buttons.
    pub open spec fn word(self) -> Seq<char> {
        match self {
            TitlebarButton::Close => "close"@,
            TitlebarButton::Minimize => "minimize"@,
            TitlebarButton::Maximize => "maximize"@,
        }
    }

    fn name(self) -> (r: &'static str)
        ensures
            r@ == self.word(),
    {
        match self {
            TitlebarButton::Close => "close",
            TitlebarButton::Minimize => "minimize",
            TitlebarButton::Maximize => "maximize",
        }
    }
}

/// A window's frame as far as hit-testing reads it.
pub struct Frame {
    pub rect: Rect,
    pub decorated: bool,
    pub border_width: u32,
    pub resize_margin: i32,
    pub buttons_left: bool,
    pub order_override: Option<ButtonOrder>,
    pub is_dialog: bool,
    pub show_maximize: bool,
}

impl Frame {
    /// How far outside the frame it can be grabbed.
    pub open spec fn reach(self) -> int {
        int_max(as_signed(self.border_width), RESIZE_OUTSET as int)
    }

    /// Whether the point is on the frame or on the band around it.
    pub open spec fn reaches(self, x: int, y: int) -> bool {
        self.rect.x - self.reach() <= x < self.rect.right_edge() + self.reach() && self.rect.y - self.reach() <= y
            < self.rect.bottom_edge() + self.reach()
    }

    /// The buttons, the one closest to the edge first.
    pub open spec fn buttons(self) -> Seq<TitlebarButton> {
        let close = TitlebarButton::Close;
        let minimize = TitlebarButton::Minimize;
        let maximize = TitlebarButton::Maximize;
        let order = match self.order_override {
            Some(order) => order@,
            None => if self.buttons_left {
                seq![close, minimize, maximize]
            } else {
                seq![close, maximize, minimize]
            },
        };
        if self.is_dialog {
            seq![close]
        } else if self.show_maximize {
            order
        } else {
            order.filter(|b: TitlebarButton| b != TitlebarButton::Maximize)
        }
    }

    /// Whether `x` is in the strip between the edge and the first button.
    pub open spec fn before_buttons(self, x: int) -> bool {
        if self.buttons_left {
            x < self.rect.x + BUTTON_CLUSTER_MARGIN
        } else {
            x > self.rect.right_edge() - BUTTON_CLUSTER_MARGIN
        }
    }

    /// The number of the button that `x` is on, counted from the edge.
    pub open spec fn slot(self, x: int) -> int {
        if self.buttons_left {
            (x - (self.rect.x + BUTTON_CLUSTER_MARGIN)) / BUTTON_PITCH as int
        } else {
            int_max(self.rect.right_edge() - BUTTON_CLUSTER_MARGIN - x - 1, 0) / BUTTON_PITCH as int
        }
    }

    /// The corner of the titlebar on the side of the buttons, or the other one.
    pub open spec fn top_corner(self, with_buttons: bool) -> ResizeEdge {
        if self.buttons_left == with_buttons {
            ResizeEdge::TopLeft
        } else {
            ResizeEdge::TopRight
        }
    }

    /// Whether the point is in the corner of the titlebar away from the buttons.
    pub open spec fn in_free_corner(self, x: int, y: int) -> bool {
        let zone = CORNER_MARGIN * self.resize_margin;
        y <= self.rect.y + zone && (if self.buttons_left {
            x >= self.rect.right_edge() - zone
        } else {
            x <= self.rect.x + zone
        })
    }

    /// What a point in the titlebar is: its free corner, a button, the narrow
    /// rows at the top that resize, or a place to drag the window by.
    pub open spec fn titlebar_hit(self, x: int, y: int) -> TitlebarHit {
        if self.in_free_corner(x, y) {
            TitlebarHit::Resize(self.top_corner(false))
        } else if !self.before_buttons(x) && self.slot(x) < self.buttons().len() {
            self.buttons()[self.slot(x)].hit_of()
        } else if y <= self.rect.y + DECORATED_TOP_RESIZE_MARGIN {
            TitlebarHit::Resize(if self.before_buttons(x) { self.top_corner(true) } else { ResizeEdge::Top })
        } else {
            TitlebarHit::Drag
        }
    }

    /// The edge or corner that a point is near to, if it is near to just one.
    pub open spec fn edge_at(self, x: int, y: int) -> Option<ResizeEdge> {
        let m = if self.decorated { self.resize_margin as int } else { UNDECORATED_RESIZE_MARGIN as int };
        let corner = if self.decorated { CORNER_MARGIN * self.resize_margin } else { m };
        let r = self.rect;
        if x <= r.x + corner && y <= r.y + corner {
            Some(ResizeEdge::TopLeft)
        } else if x >= r.right_edge() - corner && y <= r.y + corner {
            Some(ResizeEdge::TopRight)
        } else if x <= r.x + corner && y >= r.bottom_edge() - corner {
            Some(ResizeEdge::BottomLeft)
        } else if x >= r.right_edge() - corner && y >= r.bottom_edge() - corner {
            Some(ResizeEdge::BottomRight)
        } else {
            let left = x <= r.x + m;
            let right = x >= r.right_edge() - m;
            let top = y <= r.y + m;
            let bottom = y >= r.bottom_edge() - m;
            if left && !right && !top && !bottom {
                Some(ResizeEdge::Left)
            } else if !left && right && !top && !bottom {
                Some(ResizeEdge::Right)
            } else if !left && !right && top && !bottom {
                Some(ResizeEdge::Top)
            } else if !left && !right && !top && bottom {
                Some(ResizeEdge::Bottom)
            } else {
                None
            }
        }
    }

    /// What the point is on the frame, if anything.
    pub open spec fn hit(self, x: int, y: int) -> Option<TitlebarHit> {
        if !self.reaches(x, y) {
            None
        } else if self.decorated && y < self.rect.y + TITLEBAR_HEIGHT {
            Some(self.titlebar_hit(x, y))
        } else {
            match self.edge_at(x, y) {
                Some(edge) => Some(TitlebarHit::Resize(edge)),
                None => None,
            }
        }
    }

    /// The buttons that the titlebar shows, the one closest to the edge first.
    fn shown_buttons(&self) -> (r: Vec<TitlebarButton>)
        ensures
            r@ == self.buttons(),
    {
        let mut shown: Vec<TitlebarButton> = Vec::new();
        if self.is_dialog {
            shown.push(TitlebarButton::Close);
            return shown;
        }
        let order: ButtonOrder = match self.order_override {
            Some(order) => order,
            None => if self.buttons_left {
                [TitlebarButton::Close, TitlebarButton::Minimize, TitlebarButton::Maximize]
            } else {
                [TitlebarButton::Close, TitlebarButton::Maximize, TitlebarButton::Minimize]
            },
        };
        let ghost kept = |b: TitlebarButton| b != TitlebarButton::Maximize;
        let mut i: usize = 0;
        assert(order@.subrange(0, 0).filter(kept) =~= Seq::<TitlebarButton>::empty()) by {
            reveal(Seq::filter);
        }
        while i < 3
            invariant
                i <= 3,
                order@.len() == 3,
                kept == (|b: TitlebarButton| b != TitlebarButton::Maximize),
                self.show_maximize ==> shown@ == order@.subrange(0, i as int),
                !self.show_maximize ==> shown@ == order@.subrange(0, i as int).filter(kept),
            decreases 3 - i,
        {
            proof {
                let next = order@.subrange(0, i + 1);
                assert(next.drop_last() =~= order@.subrange(0, i as int));
                assert(next.last() == order@[i as int]);
                reveal(Seq::filter);
            }
            if self.show_maximize || order[i] != TitlebarButton::Maximize {
                shown.push(order[i]);
            }
            i = i + 1;
        }
        proof {
            assert(order@.subrange(0, 3) =~= order@);
        }
        shown
    }
}

impl ResizeEdge {
    /// What a point on a window's frame means: a titlebar button, a place to
    /// drag the window by, an edge or corner to resize it by, or nothing.
    ///
    /// `decorated` must be the window's current state: a window without
    /// decoration has no titlebar band and resizes from every edge.
    /// `is_dialog` leaves only the close button, and `show_maximize` says
    /// whether there is a maximize button at all.
    pub fn hit_test(
        frame: Rect,
        x: i32,
        y: i32,
        decorated: bool,
        border_width: u32,
        resize_margin: i32,
        buttons_left: bool,
        order_override: Option<ButtonOrder>,
        is_dialog: bool,
        show_maximize: bool,
    ) -> (r: Option<TitlebarHit>)
        ensures
            r == (Frame {
                rect: frame,
                decorated,
                border_width,
                resize_margin,
                buttons_left,
                order_override,
                is_dialog,
                show_maximize,
            }).hit(x as int, y as int),
    {
        let f = Frame {
            rect: frame,
            decorated,
            border_width,
            resize_margin,
            buttons_left,
            order_override,
            is_dialog,
            show_maximize,
        };
        let drawn: i64 = read_signed(border_width);
        let reach: i64 = if drawn >= RESIZE_OUTSET as i64 { drawn } else { RESIZE_OUTSET as i64 };
        let px: i64 = x as i64;
        let py: i64 = y as i64;
        let left_edge: i64 = frame.x as i64;
        let top_edge: i64 = frame.y as i64;
        let right_edge: i64 = frame.right_wide();
        let bottom_edge: i64 = frame.bottom_wide();
        if !(left_edge - reach <= px && px < right_edge + reach && top_edge - reach <= py && py < bottom_edge + reach) {
            return None;
        }
        if decorated && py < top_edge + TITLEBAR_HEIGHT as i64 {
            // The corner away from the buttons resizes; the one with the
            // buttons closes the window, but for the strip beside them.
            let zone: i64 = CORNER_MARGIN as i64 * resize_margin as i64;
            if !buttons_left && px <= left_edge + zone && py <= top_edge + zone {
                return Some(TitlebarHit::Resize(ResizeEdge::TopLeft));
            }
            if buttons_left && px >= right_edge - zone && py <= top_edge + zone {
                return Some(TitlebarHit::Resize(ResizeEdge::TopRight));
            }
            let shown = f.shown_buttons();
            // How far past the margin of the button cluster the point is.
            let inward: i64 = if buttons_left {
                px - (left_edge + BUTTON_CLUSTER_MARGIN as i64)
            } else {
                (right_edge - BUTTON_CLUSTER_MARGIN as i64) - px
            };
            if inward >= 0 {
                let along: i64 = if buttons_left || inward == 0 { inward } else { inward - 1 };
                let slot: i64 = along / BUTTON_PITCH as i64;
                if slot < shown.len() as i64 {
                    return Some(shown[slot as usize].hit());
                }
            }
            if py <= top_edge + DECORATED_TOP_RESIZE_MARGIN as i64 {
                if inward >= 0 {
                    return Some(TitlebarHit::Resize(ResizeEdge::Top));
                }
                return Some(
                    TitlebarHit::Resize(if buttons_left { ResizeEdge::TopLeft } else { ResizeEdge::TopRight }),
                );
            }
            return Some(TitlebarHit::Drag);
        }
        match Self::resize_edge_at(&f, x, y) {
            Some(edge) => Some(TitlebarHit::Resize(edge)),
            None => None,
        }
    }

    /// The edge or corner that a point is near to. A corner reaches further
    /// than an edge, except on a window without decoration.
    fn resize_edge_at(f: &Frame, x: i32, y: i32) -> (r: Option<ResizeEdge>)
        ensures
            r == f.edge_at(x as int, y as int),
    {
        let m: i64 = if f.decorated { f.resize_margin as i64 } else { UNDECORATED_RESIZE_MARGIN as i64 };
        let corner: i64 = if f.decorated { CORNER_MARGIN as i64 * f.resize_margin as i64 } else { m };
        let px: i64 = x as i64;
        let py: i64 = y as i64;
        let left_edge: i64 = f.rect.x as i64;
        let top_edge: i64 = f.rect.y as i64;
        let right_edge: i64 = f.rect.right_wide();
        let bottom_edge: i64 = f.rect.bottom_wide();
        let corner_left: bool = px <= left_edge + corner;
        let corner_right: bool = px >= right_edge - corner;
        let corner_top: bool = py <= top_edge + corner;
        let corner_bottom: bool = py >= bottom_edge - corner;
        if corner_left && corner_top {
            return Some(ResizeEdge::TopLeft);
        }
        if corner_right && corner_top {
            return Some(ResizeEdge::TopRight);
        }
        if corner_left && corner_bottom {
            return Some(ResizeEdge::BottomLeft);
        }
        if corner_right && corner_bottom {
            return Some(ResizeEdge::BottomRight);
        }
        let left: bool = px <= left_edge + m;
        let right: bool = px >= right_edge - m;
        let top: bool = py <= top_edge + m;
        let bottom: bool = py >= bottom_edge - m;
        match (left, right, top, bottom) {
            (true, false, false, false) => Some(ResizeEdge::Left),
            (false, true, false, false) => Some(ResizeEdge::Right),
            (false, false, true, false) => Some(ResizeEdge::Top),
            (false, false, false, true) => Some(ResizeEdge::Bottom),
            _ => None,
        }
    }

    pub open spec fn leftward(self) -> bool {
        self == ResizeEdge::Left || self == ResizeEdge::TopLeft || self == ResizeEdge::BottomLeft
    }

    pub open spec fn rightward(self) -> bool {
        self == ResizeEdge::Right || self == ResizeEdge::TopRight || self == ResizeEdge::BottomRight
    }

    pub open spec fn upward(self) -> bool {
        self == ResizeEdge::Top || self == ResizeEdge::TopLeft || self == ResizeEdge::TopRight
    }

    pub open spec fn downward(self) -> bool {
        self == ResizeEdge::Bottom || self == ResizeEdge::BottomLeft || self == ResizeEdge::BottomRight
    }

    /// The geometry after dragging this edge of `original` by `(dx, dy)`.
    pub open spec fn dragged(self, original: Rect, dx: int, dy: int, min_w: u32, min_h: u32) -> Rect {
        let width = to_u32_range(
            if self.leftward() {
                int_max(original.width - dx, min_w as int)
            } else if self.rightward() {
                int_max(original.width + dx, min_w as int)
            } else {
                original.width as int
            },
        );
        let height = to_u32_range(
            if self.upward() {
                int_max(original.height - dy, min_h as int)
            } else if self.downward() {
                int_max(original.height + dy, min_h as int)
            } else {
                original.height as int
            },
        );
        Rect {
            x: if self.leftward() { to_i32_range(original.right_edge() - width) as i32 } else { original.x },
            y: if self.upward() { to_i32_range(original.bottom_edge() - height) as i32 } else { original.y },
            width: width as u32,
            height: height as u32,
        }
    }

    /// Applies a pointer delta to `original` geometry along this edge,
    /// honoring the given minimum size. The opposite edge stays where it is.
    pub fn apply_delta(self, original: Rect, dx: i32, dy: i32, min_w: u32, min_h: u32) -> (r: Rect)
        ensures
            r == self.dragged(original, dx as int, dy as int, min_w, min_h),
    {
        self.apply_wide_delta(original, dx as i64, dy as i64, min_w, min_h)
    }

    /// [`ResizeEdge::apply_delta`] for any distance between two points.
    pub(crate) fn apply_wide_delta(self, original: Rect, dx: i64, dy: i64, min_w: u32, min_h: u32) -> (r: Rect)
        requires
            -0x2_0000_0000 <= dx <= 0x2_0000_0000,
            -0x2_0000_0000 <= dy <= 0x2_0000_0000,
        ensures
            r == self.dragged(original, dx as int, dy as int, min_w, min_h),
    {
        let mut r = original;
        if self.has_left() || self.has_right() {
            let wanted: i64 = if self.has_left() { original.width as i64 - dx } else { original.width as i64 + dx };
            r.width = saturate_u32(if wanted >= min_w as i64 { wanted } else { min_w as i64 });
            if self.has_left() {
                r.x = saturate_i32(original.right_wide() - r.width as i64);
            }
        }
        if self.has_top() || self.has_bottom() {
            let wanted: i64 = if self.has_top() { original.height as i64 - dy } else { original.height as i64 + dy };
            r.height = saturate_u32(if wanted >= min_h as i64 { wanted } else { min_h as i64 });
            if self.has_top() {
                r.y = saturate_i32(original.bottom_wide() - r.height as i64);
            }
        }
        r
    }

    /// Whether this edge has a left-hand component.
    pub fn has_left(self) -> (r: bool)
        ensures
            r == self.leftward(),
    {
        matches!(self, ResizeEdge::Left | ResizeEdge::TopLeft | ResizeEdge::BottomLeft)
    }

    /// Whether this edge has a right-hand component.
    pub fn has_right(self) -> (r: bool)
        ensures
            r == self.rightward(),
    {
        matches!(self, ResizeEdge::Right | ResizeEdge::TopRight | ResizeEdge::BottomRight)
    }

    fn has_top(self) -> (r: bool)
        ensures
            r == self.upward(),
    {
        matches!(self, ResizeEdge::Top | ResizeEdge::TopLeft | ResizeEdge::TopRight)
    }

    fn has_bottom(self) -> (r: bool)
        ensures
            r == self.downward(),
    {
        matches!(self, ResizeEdge::Bottom | ResizeEdge::BottomLeft | ResizeEdge::BottomRight)
    }

    /// `r` with one dimension derived from the other to hold `ratio`.
    pub open spec fn in_ratio(self, r: Rect, ratio: (u32, u32), min_w: u32, min_h: u32) -> Rect {
        if ratio.0 == 0 || ratio.1 == 0 {
            r
        } else if self == ResizeEdge::Top || self == ResizeEdge::Bottom {
            let width = int_max(r.height * ratio.0 / ratio.1 as int, min_w as int) % 0x1_0000_0000;
            Rect { width: width as u32, ..r }
        } else {
            let height = int_max(r.width * ratio.1 / ratio.0 as int, min_h as int) % 0x1_0000_0000;
            let y = if self.upward() { to_i32_range(r.bottom_edge() - height) as i32 } else { r.y };
            Rect { y, height: height as u32, ..r }
        }
    }

    /// Re-derives one dimension of `delta_applied`, the result of
    /// [`ResizeEdge::apply_delta`], so that it holds `ratio` (width, height).
    ///
    /// The top and bottom edges derive the width from the height, the others
    /// the height from the width. The top corners keep the bottom edge where
    /// it is. A ratio with a zero in it is ignored.
    pub fn apply_aspect_ratio(self, delta_applied: Rect, ratio: (u32, u32), min_w: u32, min_h: u32) -> (r: Rect)
        ensures
            r == self.in_ratio(delta_applied, ratio, min_w, min_h),
    {
        if ratio.0 == 0 || ratio.1 == 0 {
            return delta_applied;
        }
        let mut r = delta_applied;
        if matches!(self, ResizeEdge::Top | ResizeEdge::Bottom) {
            let derived: u64 = scaled(r.height, ratio.0, ratio.1);
            let width: u64 = if derived >= min_w as u64 { derived } else { min_w as u64 };
            r.width = (width % 0x1_0000_0000) as u32;
        } else {
            let derived: u64 = scaled(r.width, ratio.1, ratio.0);
            let height: u64 = if derived >= min_h as u64 { derived } else { min_h as u64 };
            let height: u32 = (height % 0x1_0000_0000) as u32;
            if self.has_top() {
                r.y = saturate_i32(delta_applied.bottom_wide() - height as i64);
            }
            r.height = height;
        }
        r
    }
}

/// `n * num / den`.
fn scaled(n: u32, num: u32, den: u32) -> (r: u64)
    requires
        den > 0,
    ensures
        r == n * num / den as int,
{
    proof {
        assert(0 <= n * num <= 0xffff_ffff * 0xffff_ffff) by (nonlinear_arith)
            requires
                0 <= n <= 0xffff_ffff,
                0 <= num <= 0xffff_ffff,
        ;
    }
    n as u64 * num as u64 / den as u64
}

// ---- Button orders ---------------------------------------------------------

/// The button that a word of a list names, if any: in any case, with spaces
/// around it, and in either spelling.
pub open spec fn button_named(part: Seq<char>) -> Option<TitlebarButton> {
    let word = ascii_lower(trim_end(trim_start(part)));
    if word == "close"@ {
        Some(TitlebarButton::Close)
    } else if word == "minimize"@ || word == "minimise"@ {
        Some(TitlebarButton::Minimize)
    } else if word == "maximize"@ || word == "maximise"@ {
        Some(TitlebarButton::Maximize)
    } else {
        None
    }
}

/// The order that a list names, if it names each button exactly once.
pub open spec fn order_named(s: Seq<char>) -> Option<Seq<TitlebarButton>> {
    let parts = split_at_each(s, ',');
    if parts.len() == 3 {
        match (button_named(parts[0]), button_named(parts[1]), button_named(parts[2])) {
            (Some(a), Some(b), Some(c)) => if a != b && b != c && a != c { Some(seq![a, b, c]) } else { None },
            _ => None,
        }
    } else {
        None
    }
}

fn parse_button(part: &str) -> (r: Option<TitlebarButton>)
    ensures
        r == button_named(part@),
{
    let word = to_ascii_lower(trim(part).as_str());
    let word = word.as_str();
    if same(word, "close") {
        Some(TitlebarButton::Close)
    } else if same(word, "minimize") || same(word, "minimise") {
        Some(TitlebarButton::Minimize)
    } else if same(word, "maximize") || same(word, "maximise") {
        Some(TitlebarButton::Maximize)
    } else {
        None
    }
}

/// Parses a list such as `close,minimize,maximize`. `None` if it doesn't name
/// each of the three buttons exactly once.
pub fn parse_button_order(s: &str) -> (r: Option<ButtonOrder>)
    ensures
        (match r {
            Some(order) => Some(order@),
            None => None,
        }) == order_named(s@),
{
    let parts = split(s, ',');
    proof {
        assert(views(parts@).len() == parts@.len());
        assert(forall|i: int| 0 <= i < parts@.len() ==> views(parts@)[i] == (#[trigger] parts@[i])@);
    }
    if parts.len() != 3 {
        return None;
    }
    let a = parse_button(parts[0].as_str());
    let b = parse_button(parts[1].as_str());
    let c = parse_button(parts[2].as_str());
    match (a, b, c) {
        (Some(a), Some(b), Some(c)) => {
            if a != b && b != c && a != c {
                let order: ButtonOrder = [a, b, c];
                assert(order@ =~= seq![a, b, c]);
                Some(order)
            } else {
                None
            }
        },
        _ => None,
    }
}

/// The list of an order's button names.
pub open spec fn order_text(order: Seq<TitlebarButton>) -> Seq<char> {
    order[0].word() + ","@ + order[1].word() + ","@ + order[2].word()
}

/// The inverse of [`parse_button_order`]: `close,minimize,maximize`, in lower
/// case, in the order in which the buttons are shown.
pub fn format_button_order(order: ButtonOrder) -> (r: String)
    ensures
        r@ == order_text(order@),
{
    order[0].name().to_string().concat(",").concat(order[1].name()).concat(",").concat(order[2].name())
}

/// What a button order is written as reads back as the same order.
pub proof fn lemma_order_reads_back(order: Seq<TitlebarButton>)
    requires
        order.len() == 3,
        order[0] != order[1] && order[1] != order[2] && order[0] != order[2],
    ensures
        order_named(order_text(order)) == Some(order),
{
    lemma_word(order[0]);
    lemma_word(order[1]);
    lemma_word(order[2]);
    lemma_three_parts(order[0].word(), order[1].word(), order[2].word());
    assert(order =~= seq![order[0], order[1], order[2]]);
}

/// Whether a text holds no comma.
spec fn no_comma(s: Seq<char>) -> bool {
    forall|i: int| 0 <= i < s.len() ==> s[i] != ','
}

/// Three texts without commas, joined by commas, split into themselves.
proof fn lemma_three_parts(a: Seq<char>, b: Seq<char>, c: Seq<char>)
    requires
        no_comma(a),
        no_comma(b),
        no_comma(c),
    ensures
        split_at_each(a + ","@ + b + ","@ + c, ',') == seq![a, b, c],
{
    reveal_strlit(",");
    let rest = b + ","@ + c;
    let text = a + ","@ + b + ","@ + c;
    assert(text =~= a + ","@ + rest);
    lemma_first_is(text, ',', a.len() as int);
    assert(text.take(a.len() as int) =~= a);
    assert(text.skip(a.len() as int + 1) =~= rest);
    lemma_first_is(rest, ',', b.len() as int);
    assert(rest.take(b.len() as int) =~= b);
    assert(rest.skip(b.len() as int + 1) =~= c);
    lemma_first_is(c, ',', c.len() as int);
    assert(split_at_each(c, ',') =~= seq![c]);
    assert(split_at_each(rest, ',') =~= seq![b, c]);
    assert(split_at_each(text, ',') =~= seq![a, b, c]);
}

/// A button's name holds neither commas nor spaces nor capitals, and names it.
proof fn lemma_word(b: TitlebarButton)
    ensures
        no_comma(b.word()),
        button_named(b.word()) == Some(b),
{
    reveal_strlit("close");
    reveal_strlit("minimize");
    reveal_strlit("maximize");
    reveal_strlit("minimise");
    reveal_strlit("maximise");
    let w = b.word();
    assert(trim_start(w) == w);
    assert(trim_end(w) == w);
    assert(ascii_lower(w) =~= w);
    assert("close"@.len() == 5 && "minimize"@.len() == 8 && "maximize"@.len() == 8);
    assert("minimize"@[1] == 'i' && "maximize"@[1] == 'a' && "minimise"@[1] == 'i');
}

/// A window without decoration can only be resized by its frame; a dialog has
/// no button but close; where there is no maximize button, nothing maximizes;
/// and there is nothing to hit outside the reach of the frame.
pub proof fn lemma_hit_kinds(f: Frame, x: int, y: int)
    ensures
        !f.decorated ==> (f.hit(x, y) matches Some(h) ==> h is Resize),
        f.is_dialog ==> f.hit(x, y) != Some(TitlebarHit::Minimize) && f.hit(x, y) != Some(TitlebarHit::Maximize),
        !f.show_maximize ==> f.hit(x, y) != Some(TitlebarHit::Maximize),
        f.hit(x, y) is Some ==> f.reaches(x, y),
{
    let kept = |b: TitlebarButton| b != TitlebarButton::Maximize;
    if !f.show_maximize && !f.is_dialog && 0 <= f.slot(x) < f.buttons().len() {
        let order = match f.order_override {
            Some(order) => order@,
            None => if f.buttons_left {
                seq![TitlebarButton::Close, TitlebarButton::Minimize, TitlebarButton::Maximize]
            } else {
                seq![TitlebarButton::Close, TitlebarButton::Maximize, TitlebarButton::Minimize]
            },
        };
        order.lemma_filter_pred(kept, f.slot(x));
        assert(kept(f.buttons()[f.slot(x)]));
    }
}

/// Dragging an edge leaves the opposite edge and the other axis alone, and
/// keeps the window at its minimum size or above.
pub proof fn lemma_drag_anchors(edge: ResizeEdge, original: Rect, dx: int, dy: int, min_w: u32, min_h: u32)
    requires
        original.fits(),
        -0x7fff_ffff <= dx <= 0x7fff_ffff,
        -0x7fff_ffff <= dy <= 0x7fff_ffff,
        edge.leftward() ==> original.right_edge() - int_max(original.width - dx, min_w as int) >= i32::MIN,
        edge.upward() ==> original.bottom_edge() - int_max(original.height - dy, min_h as int) >= i32::MIN,
    ensures
        ({
            let r = edge.dragged(original, dx, dy, min_w, min_h);
            &&& edge.leftward() ==> r.right_edge() == original.right_edge() && r.width >= min_w
            &&& edge.rightward() ==> r.x == original.x && r.width >= min_w
            &&& !edge.leftward() && !edge.rightward() ==> r.x == original.x && r.width == original.width
            &&& edge.upward() ==> r.bottom_edge() == original.bottom_edge() && r.height >= min_h
            &&& edge.downward() ==> r.y == original.y && r.height >= min_h
            &&& !edge.upward() && !edge.downward() ==> r.y == original.y && r.height == original.height
        }),
{
}

// ---- What a frame answers --------------------------------------------------------

/// The titlebar's buttons stand in a row from one end of it, in equal slots: from
/// the left end where buttons are on the left, from the right end otherwise. The
/// first is Close. Then come, on the left, Minimize and Maximize, on the right,
/// Maximize and Minimize, unless an order is given. A dialog has no other than
/// Close, and a window that cannot be resized may go without Maximize. Each
/// answers in its slot, over the height of the titlebar, away from the corner at
/// the other end.
pub proof fn lemma_buttons_in_slots(f: Frame, x: int, y: int, k: int)
    requires
        f.rect.fits(),
        f.decorated,
        f.rect.x <= x < f.rect.x + f.rect.width,
        f.rect.y <= y < f.rect.y + f.rect.height,
        y < f.rect.y + TITLEBAR_HEIGHT,
        f.resize_margin >= 0,
        0 <= k <= 2,
        f.buttons_left ==> f.rect.x + BUTTON_CLUSTER_MARGIN + k * BUTTON_PITCH <= x < f.rect.x + BUTTON_CLUSTER_MARGIN
            + (k + 1) * BUTTON_PITCH && x < f.rect.x + f.rect.width - CORNER_MARGIN * f.resize_margin,
        !f.buttons_left ==> f.rect.x + f.rect.width - BUTTON_CLUSTER_MARGIN - (k + 1) * BUTTON_PITCH <= x < f.rect.x
            + f.rect.width - BUTTON_CLUSTER_MARGIN - k * BUTTON_PITCH && x > f.rect.x + CORNER_MARGIN
            * f.resize_margin,
    ensures
        ({
            let hit = f.hit(x, y);
            let plain = !f.is_dialog && f.show_maximize && f.order_override is None;
            &&& f.is_dialog && k == 0 ==> hit == Some(TitlebarHit::Close)
            &&& f.is_dialog && k > 0 ==> hit != Some(TitlebarHit::Close)
            &&& plain && k == 0 ==> hit == Some(TitlebarHit::Close)
            &&& plain && f.buttons_left && k == 1 ==> hit == Some(TitlebarHit::Minimize)
            &&& plain && f.buttons_left && k == 2 ==> hit == Some(TitlebarHit::Maximize)
            &&& plain && !f.buttons_left && k == 1 ==> hit == Some(TitlebarHit::Maximize)
            &&& plain && !f.buttons_left && k == 2 ==> hit == Some(TitlebarHit::Minimize)
            &&& !f.is_dialog && !f.show_maximize && f.order_override is None && k == 0 ==> hit == Some(
                TitlebarHit::Close,
            )
            &&& !f.is_dialog && !f.show_maximize && f.order_override is None && k == 1 ==> hit == Some(
                TitlebarHit::Minimize,
            )
            &&& !f.is_dialog && f.show_maximize ==> (f.order_override matches Some(order) ==> {
                &&& order@[k] is Close ==> hit == Some(TitlebarHit::Close)
                &&& order@[k] is Minimize ==> hit == Some(TitlebarHit::Minimize)
                &&& order@[k] is Maximize ==> hit == Some(TitlebarHit::Maximize)
            })
        }),
{
    let zone = CORNER_MARGIN * f.resize_margin;
    if f.buttons_left {
        let d = x - (f.rect.x + BUTTON_CLUSTER_MARGIN);
        lemma_slot_of(d, k);
    } else {
        let d = f.rect.right_edge() - BUTTON_CLUSTER_MARGIN - x - 1;
        lemma_slot_of(d, k);
    }
    assert(f.slot(x) == k);
    assert(!f.in_free_corner(x, y));
    let close = TitlebarButton::Close;
    let minimize = TitlebarButton::Minimize;
    let maximize = TitlebarButton::Maximize;
    if !f.is_dialog && !f.show_maximize && f.order_override is None {
        let keep = |b: TitlebarButton| b != TitlebarButton::Maximize;
        reveal(Seq::filter);
        let none = Seq::<TitlebarButton>::empty();
        assert(none.filter(keep) =~= none);
        let a = seq![close, minimize, maximize];
        let b = seq![close, maximize, minimize];
        assert(a.drop_last() =~= seq![close, minimize]);
        assert(seq![close, minimize].drop_last() =~= seq![close]);
        assert(seq![close].drop_last() =~= none);
        assert(seq![close].filter(keep) =~= seq![close]);
        assert(seq![close, minimize].filter(keep) =~= seq![close, minimize]);
        assert(a.filter(keep) =~= seq![close, minimize]);
        assert(b.drop_last() =~= seq![close, maximize]);
        assert(seq![close, maximize].drop_last() =~= seq![close]);
        assert(seq![close, maximize].filter(keep) =~= seq![close]);
        assert(b.filter(keep) =~= seq![close, minimize]);
    }
}

/// The slot of a pixel that is `d` from where the slots begin.
proof fn lemma_slot_of(d: int, k: int)
    requires
        k * BUTTON_PITCH <= d < (k + 1) * BUTTON_PITCH,
        0 <= k,
    ensures
        d / BUTTON_PITCH as int == k,
{
    assert((k + 1) * BUTTON_PITCH == k * BUTTON_PITCH + BUTTON_PITCH) by (nonlinear_arith);
    vstd::arithmetic::div_mod::lemma_fundamental_div_mod_converse(
        d,
        BUTTON_PITCH as int,
        k,
        d - k * BUTTON_PITCH,
    );
}

/// The rest of the titlebar moves the window, but for a thin strip along its top,
/// which resizes it at the top, and for the corner away from the buttons.
pub proof fn lemma_titlebar_moves(f: Frame, x: int, y: int)
    requires
        f.rect.fits(),
        f.decorated,
        f.rect.x <= x < f.rect.x + f.rect.width,
        f.rect.y <= y < f.rect.y + f.rect.height,
        y < f.rect.y + TITLEBAR_HEIGHT,
        f.resize_margin >= 0,
        f.order_override is None,
        f.buttons_left ==> x >= f.rect.x + BUTTON_CLUSTER_MARGIN + 3 * BUTTON_PITCH,
        !f.buttons_left ==> x < f.rect.x + f.rect.width - BUTTON_CLUSTER_MARGIN - 3 * BUTTON_PITCH,
    ensures
        ({
            let zone = CORNER_MARGIN * f.resize_margin;
            let in_corner = y <= f.rect.y + zone && (if f.buttons_left {
                x >= f.rect.x + f.rect.width - zone
            } else {
                x <= f.rect.x + zone
            });
            &&& in_corner && f.buttons_left ==> f.hit(x, y) == Some(TitlebarHit::Resize(ResizeEdge::TopRight))
            &&& in_corner && !f.buttons_left ==> f.hit(x, y) == Some(TitlebarHit::Resize(ResizeEdge::TopLeft))
            &&& !in_corner && y <= f.rect.y + DECORATED_TOP_RESIZE_MARGIN ==> f.hit(x, y) == Some(
                TitlebarHit::Resize(ResizeEdge::Top),
            )
            &&& !in_corner && y > f.rect.y + DECORATED_TOP_RESIZE_MARGIN ==> f.hit(x, y) == Some(TitlebarHit::Drag)
        }),
{
    let d = if f.buttons_left {
        x - (f.rect.x + BUTTON_CLUSTER_MARGIN)
    } else {
        f.rect.right_edge() - BUTTON_CLUSTER_MARGIN - x - 1
    };
    assert(d / BUTTON_PITCH as int >= 3) by (nonlinear_arith)
        requires
            d >= 3 * BUTTON_PITCH,
            BUTTON_PITCH > 0,
    ;
    assert(f.buttons().len() <= 3) by {
        let order = if f.buttons_left {
            seq![TitlebarButton::Close, TitlebarButton::Minimize, TitlebarButton::Maximize]
        } else {
            seq![TitlebarButton::Close, TitlebarButton::Maximize, TitlebarButton::Minimize]
        };
        order.lemma_filter_len(|b: TitlebarButton| b != TitlebarButton::Maximize);
    }
}

/// Away from the titlebar, the margins of a window resize it at the edge where
/// they are, and the corner zones at both edges that meet there. Between them
/// is its content, and beyond its border is nothing of it.
pub proof fn lemma_edges_resize(f: Frame, x: int, y: int)
    requires
        f.rect.fits(),
        !f.decorated || y >= f.rect.y + TITLEBAR_HEIGHT,
        f.resize_margin >= 0,
        f.rect.width > 2 * (CORNER_MARGIN * f.resize_margin) + 2 * UNDECORATED_RESIZE_MARGIN,
        f.rect.height > 2 * (CORNER_MARGIN * f.resize_margin) + 2 * UNDECORATED_RESIZE_MARGIN,
    ensures
        ({
            let m = if f.decorated { f.resize_margin as int } else { UNDECORATED_RESIZE_MARGIN as int };
            let c = if f.decorated { CORNER_MARGIN * f.resize_margin } else { m };
            let right_end = f.rect.x + f.rect.width;
            let bottom_end = f.rect.y + f.rect.height;
            let reach = if f.border_width < 0x8000_0000 && f.border_width > RESIZE_OUTSET {
                f.border_width as int
            } else {
                RESIZE_OUTSET as int
            };
            let on = f.rect.x - reach <= x < right_end + reach && f.rect.y - reach <= y < bottom_end + reach;
            let hit = f.hit(x, y);
            &&& !on ==> hit is None
            &&& on && x <= f.rect.x + c && y <= f.rect.y + c ==> hit == Some(TitlebarHit::Resize(ResizeEdge::TopLeft))
            &&& on && x >= right_end - c && y <= f.rect.y + c ==> hit == Some(TitlebarHit::Resize(ResizeEdge::TopRight))
            &&& on && x <= f.rect.x + c && y >= bottom_end - c ==> hit == Some(
                TitlebarHit::Resize(ResizeEdge::BottomLeft),
            )
            &&& on && x >= right_end - c && y >= bottom_end - c ==> hit == Some(
                TitlebarHit::Resize(ResizeEdge::BottomRight),
            )
            &&& on && x <= f.rect.x + m && f.rect.y + c < y < bottom_end - c ==> hit == Some(
                TitlebarHit::Resize(ResizeEdge::Left),
            )
            &&& on && x >= right_end - m && f.rect.y + c < y < bottom_end - c ==> hit == Some(
                TitlebarHit::Resize(ResizeEdge::Right),
            )
            &&& on && y <= f.rect.y + m && f.rect.x + c < x < right_end - c ==> hit == Some(
                TitlebarHit::Resize(ResizeEdge::Top),
            )
            &&& on && y >= bottom_end - m && f.rect.x + c < x < right_end - c ==> hit == Some(
                TitlebarHit::Resize(ResizeEdge::Bottom),
            )
            &&& f.rect.x + c < x < right_end - c && f.rect.y + m < y < bottom_end - m ==> hit is None
            &&& f.rect.x + m < x < right_end - m && f.rect.y + c < y < bottom_end - c ==> hit is None
        }),
{
    assert(CORNER_MARGIN * f.resize_margin == 5 * f.resize_margin);
}

// ---- What resizing does ------------------------------------------------------------

/// A window that keeps a ratio has one side made to fit the other, rounded down
/// but no less than the minimum: dragged at the top or bottom its width, at any
/// other edge its height. The left edge stays, and so does the bottom one if the
/// top is dragged, otherwise the top one.
pub proof fn lemma_ratio_kept(edge: ResizeEdge, r: Rect, ratio: (u32, u32), min_w: u32, min_h: u32)
    requires
        ratio.0 > 0,
        ratio.1 > 0,
    ensures
        ({
            let z = edge.in_ratio(r, ratio, min_w, min_h);
            let by_height = edge is Top || edge is Bottom;
            let top = edge is TopLeft || edge is TopRight;
            &&& z.x == r.x
            &&& by_height ==> z.height == r.height && z.y == r.y
            &&& by_height && r.height * ratio.0 < 0x1_0000_0000 * ratio.1 ==> z.width >= min_w && (z.width == min_w || (
            z.width * ratio.1 <= r.height * ratio.0 < (z.width + 1) * ratio.1)) && (r.height * ratio.0 >= min_w
                * ratio.1 ==> z.width * ratio.1 <= r.height * ratio.0 < (z.width + 1) * ratio.1)
            &&& !by_height ==> z.width == r.width
            &&& !by_height && r.width * ratio.1 < 0x1_0000_0000 * ratio.0 ==> z.height >= min_h && (z.height == min_h || (
            z.height * ratio.0 <= r.width * ratio.1 < (z.height + 1) * ratio.0)) && (r.width * ratio.1 >= min_h
                * ratio.0 ==> z.height * ratio.0 <= r.width * ratio.1 < (z.height + 1) * ratio.0)
            &&& !by_height && !top ==> z.y == r.y
            &&& top && r.y + r.height - z.height >= i32::MIN && r.fits() ==> z.y + z.height == r.y + r.height
        }),
{
    lemma_rounded_down(r.height * ratio.0, ratio.1 as int, min_w as int);
    lemma_rounded_down(r.width * ratio.1, ratio.0 as int, min_h as int);
}

proof fn lemma_rounded_down(n: int, d: int, min: int)
    requires
        0 < d,
        0 <= n,
        0 <= min <= u32::MAX,
    ensures
        ({
            let q = n / d;
            let v = int_max(q, min);
            &&& 0 <= q && q * d <= n < (q + 1) * d
            &&& n < 0x1_0000_0000 * d ==> v % 0x1_0000_0000 == v
            &&& n >= min * d ==> v == q
        }),
{
    vstd::arithmetic::div_mod::lemma_fundamental_div_mod(n, d);
    let q = n / d;
    assert(d * q == q * d && (q + 1) * d == q * d + d) by (nonlinear_arith);
    assert(q >= 0) by (nonlinear_arith)
        requires
            n >= 0,
            d > 0,
            n < q * d + d,
    ;
    if n < 0x1_0000_0000 * d {
        assert(q < 0x1_0000_0000) by (nonlinear_arith)
            requires
                q * d <= n,
                n < 0x1_0000_0000 * d,
                d > 0,
        ;
    }
    if n >= min * d {
        assert(q >= min) by (nonlinear_arith)
            requires
                n < q * d + d,
                n >= min * d,
                d > 0,
        ;
    }
}

/// Three words name an order of the buttons if each names one, in either
/// spelling, in any letter case and with blanks around it, and no two the same.
/// The buttons come in the order of the words.
pub proof fn lemma_order_said(a: Seq<char>, b: Seq<char>, c: Seq<char>)
    requires
        forall|i: int| 0 <= i < a.len() ==> a[i] != ',',
        forall|i: int| 0 <= i < b.len() ==> b[i] != ',',
        forall|i: int| 0 <= i < c.len() ==> c[i] != ',',
    ensures
        ({
            let said = |part: Seq<char>|
                {
                    let word = ascii_lower(trim_end(trim_start(part)));
                    if word == "close"@ {
                        Some(TitlebarButton::Close)
                    } else if word == "minimize"@ || word == "minimise"@ {
                        Some(TitlebarButton::Minimize)
                    } else if word == "maximize"@ || word == "maximise"@ {
                        Some(TitlebarButton::Maximize)
                    } else {
                        None
                    }
                };
            let known = said(a) is Some && said(b) is Some && said(c) is Some;
            let apart = said(a) != said(b) && said(b) != said(c) && said(a) != said(c);
            match order_named(a + ","@ + b + ","@ + c) {
                Some(order) => known && apart && order.len() == 3 && said(a) == Some(order[0]) && said(b) == Some(order[1])
                    && said(c) == Some(order[2]),
                None => !(known && apart),
            }
        }),
{
    lemma_three_parts(a, b, c);
}

/// At the end of the titlebar, beyond the buttons, the window is moved; close to
/// its top it is resized by the corner on that side.
pub proof fn lemma_beyond_buttons(f: Frame, x: int, y: int)
    requires
        f.rect.fits(),
        f.decorated,
        f.rect.x <= x < f.rect.x + f.rect.width,
        f.rect.y <= y < f.rect.y + f.rect.height,
        y < f.rect.y + TITLEBAR_HEIGHT,
        f.resize_margin >= 0,
        f.rect.width > CORNER_MARGIN * f.resize_margin + BUTTON_CLUSTER_MARGIN,
        f.buttons_left ==> x < f.rect.x + BUTTON_CLUSTER_MARGIN,
        !f.buttons_left ==> x > f.rect.x + f.rect.width - BUTTON_CLUSTER_MARGIN,
    ensures
        y > f.rect.y + DECORATED_TOP_RESIZE_MARGIN ==> f.hit(x, y) == Some(TitlebarHit::Drag),
        y <= f.rect.y + DECORATED_TOP_RESIZE_MARGIN && f.buttons_left ==> f.hit(x, y) == Some(
            TitlebarHit::Resize(ResizeEdge::TopLeft),
        ),
        y <= f.rect.y + DECORATED_TOP_RESIZE_MARGIN && !f.buttons_left ==> f.hit(x, y) == Some(
            TitlebarHit::Resize(ResizeEdge::TopRight),
        ),
{
}

} // verus!
