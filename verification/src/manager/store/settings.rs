//! The settings of a manager, each set on its own.
use super::{ColorFilter, Settings, State, WindowManager};
use crate::layout::TilingConfig;
use crate::lock_config::LockConfig;
use crate::placement::PlacementConfig;
use crate::theme::ThemeConfig;
use vstd::prelude::*;

verus! {

impl WindowManager {
    /// Sets whether switching to the active workspace goes back to the one before.
    #[verifier::rlimit(50)]
    pub fn set_auto_back_and_forth(&mut self, on: bool)
        requires
            old(self).wf(),
        ensures
            final(self)@ == (State {
                settings: Settings { auto_back_and_forth: on, ..old(self)@.settings },
                ..old(self)@
            }),
            final(self).wf(),
    {
        self.auto_back_and_forth = on;
        assert(self.settings() == (Settings { auto_back_and_forth: on, ..old(self).settings() }));
        assert(self.queues() == old(self).queues());
    }

    /// Sets whether each monitor shows a workspace of its own.
    #[verifier::rlimit(50)]
    pub fn set_per_monitor_workspaces(&mut self, on: bool)
        requires
            old(self).wf(),
        ensures
            final(self)@ == (State {
                settings: Settings { per_monitor_workspaces: on, ..old(self)@.settings },
                ..old(self)@
            }),
            final(self).wf(),
    {
        self.per_monitor_workspaces = on;
        assert(self.settings() == (Settings { per_monitor_workspaces: on, ..old(self).settings() }));
        assert(self.queues() == old(self).queues());
    }

    /// Sets the layout for the primary monitor's workspace; empty for none.
    pub fn set_primary_layout(&mut self, name: &str)
        requires
            old(self).wf(),
        ensures
            final(self)@ == (State {
                settings: Settings { primary_layout: name@, ..old(self)@.settings },
                ..old(self)@
            }),
            final(self).wf(),
    {
        self.primary_layout = name.to_string();
    }

    /// Sets the layout for the other monitors' workspaces; empty for none.
    pub fn set_secondary_layout(&mut self, name: &str)
        requires
            old(self).wf(),
        ensures
            final(self)@ == (State {
                settings: Settings { secondary_layout: name@, ..old(self)@.settings },
                ..old(self)@
            }),
            final(self).wf(),
    {
        self.secondary_layout = name.to_string();
    }

    /// Sets how tiled windows share a monitor.
    pub fn set_tiling(&mut self, config: TilingConfig)
        requires
            old(self).wf(),
        ensures
            final(self)@ == (State {
                settings: Settings { tiling: config, ..old(self)@.settings },
                ..old(self)@
            }),
            final(self).wf(),
    {
        self.tiling = config;
    }

    /// Sets how a place for a new window is found.
    pub fn set_placement(&mut self, config: PlacementConfig)
        requires
            old(self).wf(),
        ensures
            final(self)@ == (State {
                settings: Settings { placement: config, ..old(self)@.settings },
                ..old(self)@
            }),
            final(self).wf(),
    {
        self.placement = config;
    }

    /// Sets whether changes are animated.
    #[verifier::rlimit(50)]
    pub fn set_animations_enabled(&mut self, on: bool)
        requires
            old(self).wf(),
        ensures
            final(self)@ == (State {
                settings: Settings { animations_enabled: on, ..old(self)@.settings },
                ..old(self)@
            }),
            final(self).wf(),
    {
        self.animations_enabled = on;
        assert(self.settings() == (Settings { animations_enabled: on, ..old(self).settings() }));
        assert(self.queues() == old(self).queues());
    }

    /// Sets how long an animation takes.
    pub fn set_animation_duration_ms(&mut self, ms: u32)
        requires
            old(self).wf(),
        ensures
            final(self)@ == (State {
                settings: Settings { animation_duration_ms: ms, ..old(self)@.settings },
                ..old(self)@
            }),
            final(self).wf(),
    {
        self.animation_duration_ms = ms;
    }

    /// Sets whether windows throw shadows.
    #[verifier::rlimit(50)]
    pub fn set_shadows_enabled(&mut self, on: bool)
        requires
            old(self).wf(),
        ensures
            final(self)@ == (State {
                settings: Settings { shadows_enabled: on, ..old(self)@.settings },
                ..old(self)@
            }),
            final(self).wf(),
    {
        self.shadows_enabled = on;
        assert(self.settings() == (Settings { shadows_enabled: on, ..old(self).settings() }));
        assert(self.queues() == old(self).queues());
    }

    /// Sets whether closing the last window of a workspace may
    /// move on to a window of another one.
    #[verifier::rlimit(50)]
    pub fn set_close_focus_follows_workspace(&mut self, on: bool)
        requires
            old(self).wf(),
        ensures
            final(self)@ == (State {
                settings: Settings { close_focus_follows_workspace: on, ..old(self)@.settings },
                ..old(self)@
            }),
            final(self).wf(),
    {
        self.close_focus_follows_workspace = on;
        assert(self.settings() == (Settings { close_focus_follows_workspace: on, ..old(self).settings() }));
        assert(self.queues() == old(self).queues());
    }

    /// Sets how far from its edge a window is taken hold of to resize it.
    pub fn set_resize_margin(&mut self, margin: i32)
        requires
            old(self).wf(),
        ensures
            final(self)@ == (State {
                settings: Settings { resize_margin: margin, ..old(self)@.settings },
                ..old(self)@
            }),
            final(self).wf(),
    {
        self.resize_margin = margin;
    }

    /// Sets whether corners are rounded; `None` leaves it to the
    /// backend.
    pub fn set_rounded_corners_enabled(&mut self, on: Option<bool>)
        requires
            old(self).wf(),
        ensures
            final(self)@ == (State {
                settings: Settings { rounded_corners_enabled: on, ..old(self)@.settings },
                ..old(self)@
            }),
            final(self).wf(),
    {
        self.rounded_corners_enabled = on;
        assert(self.settings() == (Settings { rounded_corners_enabled: on, ..old(self).settings() }));
        assert(self.queues() == old(self).queues());
    }

    /// Sets whether drawing on the GPU is tried.
    #[verifier::rlimit(50)]
    pub fn set_gpu_enabled(&mut self, on: bool)
        requires
            old(self).wf(),
        ensures
            final(self)@ == (State {
                settings: Settings { gpu_enabled: on, ..old(self)@.settings },
                ..old(self)@
            }),
            final(self).wf(),
    {
        self.gpu_enabled = on;
        assert(self.settings() == (Settings { gpu_enabled: on, ..old(self).settings() }));
        assert(self.queues() == old(self).queues());
    }

    /// Sets whether more than one pointer is drawn.
    #[verifier::rlimit(50)]
    pub fn set_multi_cursor_enabled(&mut self, on: bool)
        requires
            old(self).wf(),
        ensures
            final(self)@ == (State {
                settings: Settings { multi_cursor_enabled: on, ..old(self)@.settings },
                ..old(self)@
            }),
            final(self).wf(),
    {
        self.multi_cursor_enabled = on;
        assert(self.settings() == (Settings { multi_cursor_enabled: on, ..old(self).settings() }));
        assert(self.queues() == old(self).queues());
    }

    /// Sets whether new windows open maximized.
    #[verifier::rlimit(50)]
    pub fn set_phone_mode(&mut self, on: bool)
        requires
            old(self).wf(),
        ensures
            final(self)@ == (State {
                settings: Settings { phone_mode: on, ..old(self)@.settings },
                ..old(self)@
            }),
            final(self).wf(),
    {
        self.phone_mode = on;
        assert(self.settings() == (Settings { phone_mode: on, ..old(self).settings() }));
        assert(self.queues() == old(self).queues());
    }

    /// Sets whether the desktop shows icons.
    #[verifier::rlimit(50)]
    pub fn set_desktop_icons_enabled(&mut self, on: bool)
        requires
            old(self).wf(),
        ensures
            final(self)@ == (State {
                settings: Settings { desktop_icons_enabled: on, ..old(self)@.settings },
                ..old(self)@
            }),
            final(self).wf(),
    {
        self.desktop_icons_enabled = on;
        assert(self.settings() == (Settings { desktop_icons_enabled: on, ..old(self).settings() }));
        assert(self.queues() == old(self).queues());
    }

    /// Sets whether the icons are on every monitor.
    #[verifier::rlimit(50)]
    pub fn set_desktop_icons_all_monitors(&mut self, on: bool)
        requires
            old(self).wf(),
        ensures
            final(self)@ == (State {
                settings: Settings { desktop_icons_all_monitors: on, ..old(self)@.settings },
                ..old(self)@
            }),
            final(self).wf(),
    {
        self.desktop_icons_all_monitors = on;
        assert(self.settings() == (Settings { desktop_icons_all_monitors: on, ..old(self).settings() }));
        assert(self.queues() == old(self).queues());
    }

    /// Sets the least space that is kept free at each edge of a monitor.
    pub fn set_reserve(&mut self, top: u32, bottom: u32, left: u32, right: u32)
        requires
            old(self).wf(),
        ensures
            final(self)@ == (State {
                settings: Settings { reserve: (top, bottom, left, right), ..old(self)@.settings },
                ..old(self)@
            }),
            final(self).wf(),
    {
        self.reserve_top = top;
        self.reserve_bottom = bottom;
        self.reserve_left = left;
        self.reserve_right = right;
    }

    /// Sets the program that desktop icons open into; empty for the system's
    /// choice.
    pub fn set_file_manager(&mut self, program: &str)
        requires
            old(self).wf(),
        ensures
            final(self)@ == (State {
                settings: Settings { file_manager: program@, ..old(self)@.settings },
                ..old(self)@
            }),
            final(self).wf(),
    {
        self.file_manager = program.to_string();
    }

    /// Sets whether one click opens an icon.
    #[verifier::rlimit(50)]
    pub fn set_desktop_icon_single_click(&mut self, on: bool)
        requires
            old(self).wf(),
        ensures
            final(self)@ == (State {
                settings: Settings { desktop_icon_single_click: on, ..old(self)@.settings },
                ..old(self)@
            }),
            final(self).wf(),
    {
        self.desktop_icon_single_click = on;
        assert(self.settings() == (Settings { desktop_icon_single_click: on, ..old(self).settings() }));
        assert(self.queues() == old(self).queues());
    }

    /// Sets the program that opens a terminal; empty for a common one.
    pub fn set_terminal(&mut self, program: &str)
        requires
            old(self).wf(),
        ensures
            final(self)@ == (State {
                settings: Settings { terminal: program@, ..old(self)@.settings },
                ..old(self)@
            }),
            final(self).wf(),
    {
        self.terminal = program.to_string();
    }

    /// Sets the filter that all colours go through.
    pub fn set_color_filter(&mut self, filter: ColorFilter)
        requires
            old(self).wf(),
        ensures
            final(self)@ == (State {
                settings: Settings { color_filter: filter, ..old(self)@.settings },
                ..old(self)@
            }),
            final(self).wf(),
    {
        self.color_filter = filter;
    }

    /// Sets whether the focus goes to the window under the pointer.
    #[verifier::rlimit(50)]
    pub fn set_focus_follows_mouse(&mut self, on: bool)
        requires
            old(self).wf(),
        ensures
            final(self)@ == (State {
                settings: Settings { focus_follows_mouse: on, ..old(self)@.settings },
                ..old(self)@
            }),
            final(self).wf(),
    {
        self.focus_follows_mouse = on;
        assert(self.settings() == (Settings { focus_follows_mouse: on, ..old(self).settings() }));
        assert(self.queues() == old(self).queues());
    }

    /// Sets whether a window that the pointer focuses is raised.
    #[verifier::rlimit(50)]
    pub fn set_auto_raise(&mut self, on: bool)
        requires
            old(self).wf(),
        ensures
            final(self)@ == (State {
                settings: Settings { auto_raise: on, ..old(self)@.settings },
                ..old(self)@
            }),
            final(self).wf(),
    {
        self.auto_raise = on;
        assert(self.settings() == (Settings { auto_raise: on, ..old(self).settings() }));
        assert(self.queues() == old(self).queues());
    }

    /// Sets the theme.
    pub fn set_theme(&mut self, theme: ThemeConfig)
        requires
            old(self).wf(),
        ensures
            final(self)@ == (State {
                settings: Settings { theme, ..old(self)@.settings },
                ..old(self)@
            }),
            final(self).wf(),
    {
        self.theme = theme;
    }

    /// Sets the lock screen.
    pub fn set_lock(&mut self, config: LockConfig)
        requires
            old(self).wf(),
        ensures
            final(self)@ == (State {
                settings: Settings { lock: config, ..old(self)@.settings },
                ..old(self)@
            }),
            final(self).wf(),
    {
        self.lock = config;
    }

    /// Sets whether a maximized window reaches under a dock at the bottom.
    #[verifier::rlimit(100)]
    pub fn set_maximize_covers_dock(&mut self, on: bool)
        requires
            old(self).wf(),
        ensures
            final(self)@ == (State {
                settings: Settings { maximize_covers_dock: on, ..old(self)@.settings },
                ..old(self)@
            }),
            final(self).wf(),
    {
        self.maximize_covers_dock = on;
        assert(self.settings() == (Settings { maximize_covers_dock: on, ..old(self).settings() }));
        assert(self.queues() == old(self).queues());
    }

    /// Sets every key binding with its description.
    pub fn set_keybindings(&mut self, bindings: Vec<(String, String)>)
        requires
            old(self).wf(),
        ensures
            final(self)@ == (State {
                settings: Settings { keybindings: bindings@, ..old(self)@.settings },
                ..old(self)@
            }),
            final(self).wf(),
    {
        self.keybindings = bindings;
    }
}

} // verus!
