pub mod config;
pub mod context_menu;
pub mod ctl;
pub mod event;
pub mod geometry;
pub mod ieee;
pub mod keysyms;
pub mod layout;
pub mod lock_config;
pub mod macos;
pub mod manager;
pub mod monitor;
pub mod num;
pub mod placement;
pub mod platform;
pub mod rounding;
pub mod rules;
pub mod table;
pub mod text;
pub mod theme;
pub mod window;
pub mod workspace;

pub use context_menu::{ContextMenu, MenuAction};
pub use event::{canonicalize_key_combo, key_combo_string, parse_key_combo, Event, Modifiers, MouseButton};
pub use geometry::Rect;
pub use layout::{Layout, MasterStackLayout, NoOpLayout, TilingConfig};
pub use lock_config::LockConfig;
pub use manager::{CaptureRequest, ColorFilter, Direction, WindowManager};
pub use monitor::{Monitor, MonitorId};
pub use placement::{PlacementConfig, SmartPlacement, SnapZoneKind};
pub use rules::{Regex, WindowMatch, WindowRule, WindowRuleActions};
pub use theme::{format_hex_color, parse_hex_color, ThemeConfig};
pub use window::{
    classify_menu_source, parse_button_order, ButtonOrder, GlobalMenu, MenuSource, ResizeEdge, TitlebarButton,
    TitlebarHit, Window, WindowId, BUTTON_CLUSTER_MARGIN, BUTTON_PITCH, RESIZE_MARGIN, TITLEBAR_HEIGHT,
};
pub use workspace::{Workspace, WorkspaceId};
