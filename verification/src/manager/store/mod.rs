//! What a window manager holds, and the steps that its operations are made of.
//! Only this module and the ones below it see the fields; everything else works
//! on [`State`].
use super::model::drag::remembered_after;
use super::model::{
    capture_views, each, each_of, enable_views, fake_views, lemma_each_of_created, lemma_each_step, lemma_each_wf, split_views,
};
use crate::geometry::Rect;
use crate::ieee::{Float32, Float64};
use crate::layout::{Layout, MasterStackLayout, NoOpLayout, TilingConfig};
use crate::lock_config::LockConfig;
use crate::monitor::{DisabledMonitor, Monitor, MonitorId, MonitorSplit};
use crate::placement::PlacementConfig;
use crate::rules::WindowRule;
use crate::table::{lemma_map_of, text_less, TextTable};
use crate::text::views;
use crate::theme::ThemeConfig;
use crate::window::{ResizeEdge, Window, WindowId, RESIZE_MARGIN};
use crate::workspace::{Workspace, WorkspaceId};
use std::collections::hash_map::Entry;
use std::collections::HashMap;
use vstd::prelude::*;

mod requests;
mod settings;

verus! {

broadcast use vstd::std_specs::hash::group_hash_axioms;

#[derive(Debug, Clone, Copy, PartialEq, Eq, Structural)]
pub enum Direction {
    Left,
    Right,
    Up,
    Down,
}

/// A tint of the whole screen.
#[derive(Debug, Clone, Copy, PartialEq, Eq, Structural)]
pub enum ColorFilter {
    Off,
    NightLight,
    ReadingMode,
}

impl Default for ColorFilter {
    fn default() -> (r: Self)
        ensures
            r == ColorFilter::Off,
    {
        ColorFilter::Off
    }
}

/// A window being moved by the pointer.
#[derive(Debug, Clone, Copy, PartialEq, Eq, Structural)]
pub struct DragState {
    pub window: WindowId,
    pub start_x: i32,
    pub start_y: i32,
    pub orig: Rect,
    pub last_x: i32,
    pub last_y: i32,
}

/// A window being resized by the pointer.
#[derive(Debug)]
pub struct ResizeState {
    pub window: WindowId,
    pub edge: ResizeEdge,
    pub start_x: i32,
    pub start_y: i32,
    pub orig: Rect,
    /// The master ratio when the resize started.
    pub orig_master_ratio: Float32,
    /// The tiled windows, where the boundary between the master and the stack
    /// column is dragged. Taken before the window was raised, which moves it in
    /// the stacking order.
    pub ratio_drag_ids: Option<Vec<WindowId>>,
}

/// A [`ResizeState`] as its contracts see it.
pub struct ResizeView {
    pub window: WindowId,
    pub edge: ResizeEdge,
    pub start_x: i32,
    pub start_y: i32,
    pub orig: Rect,
    pub orig_master_ratio: Float32,
    pub ratio_drag_ids: Option<Seq<u64>>,
}

impl ResizeState {
    pub open spec fn view(&self) -> ResizeView {
        ResizeView {
            window: self.window,
            edge: self.edge,
            start_x: self.start_x,
            start_y: self.start_y,
            orig: self.orig,
            orig_master_ratio: self.orig_master_ratio,
            ratio_drag_ids: match self.ratio_drag_ids {
                Some(ids) => Some(ids@),
                None => None,
            },
        }
    }
}

/// A request to draw a workspace into a file.
#[derive(Debug, Clone, PartialEq, Eq)]
pub struct CaptureRequest {
    pub workspace: WorkspaceId,
    pub path: String,
    /// `None` draws at the resolution of the workspace's monitor.
    pub size: Option<(u32, u32)>,
}

/// A [`CaptureRequest`] as its contracts see it.
pub struct CaptureView {
    pub workspace: WorkspaceId,
    pub path: Seq<char>,
    pub size: Option<(u32, u32)>,
}

impl CaptureRequest {
    pub open spec fn view(&self) -> CaptureView {
        CaptureView { workspace: self.workspace, path: self.path@, size: self.size }
    }
}

/// A layout that workspaces can choose by name.
pub struct Registered {
    pub layout: Box<dyn Layout>,
}

/// Position and size that an app's next window opens with.
pub type Remembered = (i32, i32, u32, u32);

pub struct WindowManager {
    windows: HashMap<u64, Window>,
    /// The windows in the order in which they were added.
    created: Vec<u64>,
    /// The stacking order: the topmost window is last.
    order: Vec<u64>,
    focused: Option<u64>,
    monitors: Vec<Monitor>,
    output_position_requests: Vec<(MonitorId, i32, i32)>,
    pin_input_requests: Vec<(i32, Option<u64>)>,
    pinned_windows: Vec<(i32, u64)>,
    create_fake_monitor_requests: Vec<(String, u32, u32)>,
    remove_fake_monitor_requests: Vec<String>,
    output_enable_requests: Vec<(String, bool)>,
    disabled_monitors: TextTable<DisabledMonitor>,
    monitor_splits: TextTable<MonitorSplit>,
    monitor_split_requests: Vec<(String, u32, bool)>,
    monitor_scales: TextTable<Float64>,
    lock_requested: bool,
    refresh_requested: bool,
    capture_requests: Vec<CaptureRequest>,
    workspaces: Vec<Workspace>,
    current_workspace: WorkspaceId,
    previous_workspace: WorkspaceId,
    /// Whether switching to the active workspace goes back to the one before.
    pub auto_back_and_forth: bool,
    /// Whether each monitor shows a workspace of its own.
    pub per_monitor_workspaces: bool,
    /// The layout for the primary monitor's workspace; empty for none.
    pub primary_layout: String,
    /// The layout for the other monitors' workspaces; empty for none.
    pub secondary_layout: String,
    monitor_workspaces: HashMap<u32, usize>,
    next_workspace_id: WorkspaceId,
    next_window_id: WindowId,
    layouts: TextTable<Registered>,
    pub tiling: TilingConfig,
    pub placement: PlacementConfig,
    next_cascade_step: u32,
    pub animations_enabled: bool,
    pub animation_duration_ms: u32,
    pub shadows_enabled: bool,
    /// Whether closing the last window of a workspace may move on to a window
    /// of another one.
    pub close_focus_follows_workspace: bool,
    pub resize_margin: i32,
    pub rounded_corners_enabled: Option<bool>,
    pub gpu_enabled: bool,
    pub multi_cursor_enabled: bool,
    /// Whether new windows open maximized.
    pub phone_mode: bool,
    pub desktop_icons_enabled: bool,
    pub desktop_icons_all_monitors: bool,
    pub reserve_top: u32,
    pub reserve_bottom: u32,
    pub reserve_left: u32,
    pub reserve_right: u32,
    pub file_manager: String,
    pub desktop_icon_single_click: bool,
    pub terminal: String,
    pub color_filter: ColorFilter,
    pub focus_follows_mouse: bool,
    pub auto_raise: bool,
    pub theme: ThemeConfig,
    pub lock: LockConfig,
    pub maximize_covers_dock: bool,
    /// Every key binding with its description.
    pub keybindings: Vec<(String, String)>,
    live_settings: TextTable<String>,
    drag: Option<DragState>,
    resize: Option<ResizeState>,
    rules: Vec<WindowRule>,
    remembered_geometry: TextTable<Remembered>,
    close_requests: Vec<u64>,
    pub keyboard_layout: String,
    keyboard_layout_cycle_requests: u32,
    pointer_monitor: Option<MonitorId>,
}

/// A [`Workspace`] as its contracts see it.
pub struct WorkspaceView {
    pub id: usize,
    pub name: Seq<char>,
    pub layout: Seq<char>,
}

impl Workspace {
    pub open spec fn view(&self) -> WorkspaceView {
        WorkspaceView { id: self.id, name: self.name@, layout: self.layout@ }
    }
}

/// Workspaces as their contracts see them.
pub open spec fn workspace_views(v: Seq<Workspace>) -> Seq<WorkspaceView> {
    v.map_values(|w: Workspace| w@)
}

/// What a [`WindowManager`] has been asked to pass on.
pub struct Queues {
    pub output_position: Seq<(u32, i32, i32)>,
    pub pin_input: Seq<(i32, Option<u64>)>,
    pub pinned: Seq<(i32, u64)>,
    pub create_fake_monitor: Seq<(Seq<char>, u32, u32)>,
    pub remove_fake_monitor: Seq<Seq<char>>,
    pub output_enable: Seq<(Seq<char>, bool)>,
    pub disabled: Map<Seq<char>, DisabledMonitor>,
    pub splits: Map<Seq<char>, MonitorSplit>,
    pub split: Seq<(Seq<char>, u32, bool)>,
    pub scales: Map<Seq<char>, Float64>,
    pub lock: bool,
    pub refresh: bool,
    pub capture: Seq<CaptureView>,
    pub close: Seq<u64>,
    pub layout_cycles: u32,
    pub live_settings: Map<Seq<char>, String>,
}

/// The settings of a [`WindowManager`].
pub struct Settings {
    pub auto_back_and_forth: bool,
    pub per_monitor_workspaces: bool,
    pub primary_layout: Seq<char>,
    pub secondary_layout: Seq<char>,
    pub tiling: TilingConfig,
    pub placement: PlacementConfig,
    pub animations_enabled: bool,
    pub animation_duration_ms: u32,
    pub shadows_enabled: bool,
    pub close_focus_follows_workspace: bool,
    pub resize_margin: i32,
    pub rounded_corners_enabled: Option<bool>,
    pub gpu_enabled: bool,
    pub multi_cursor_enabled: bool,
    pub phone_mode: bool,
    pub desktop_icons_enabled: bool,
    pub desktop_icons_all_monitors: bool,
    pub reserve: (u32, u32, u32, u32),
    pub file_manager: Seq<char>,
    pub desktop_icon_single_click: bool,
    pub terminal: Seq<char>,
    pub color_filter: ColorFilter,
    pub focus_follows_mouse: bool,
    pub auto_raise: bool,
    pub theme: ThemeConfig,
    pub lock: LockConfig,
    pub maximize_covers_dock: bool,
    pub keybindings: Seq<(String, String)>,
    pub keyboard_layout: Seq<char>,
}

/// What a [`WindowManager`] is to its contracts.
pub struct State {
    pub windows: Map<u64, Window>,
    pub created: Seq<u64>,
    pub order: Seq<u64>,
    pub focused: Option<u64>,
    pub monitors: Seq<Monitor>,
    pub pointer_monitor: Option<u32>,
    pub workspaces: Seq<WorkspaceView>,
    pub current: usize,
    pub previous: usize,
    pub monitor_workspaces: Map<u32, usize>,
    pub next_workspace_id: usize,
    pub next_window_id: u64,
    pub layouts: Map<Seq<char>, Registered>,
    pub cascade_step: u32,
    pub drag: Option<DragState>,
    pub resize: Option<ResizeView>,
    pub rules: Seq<WindowRule>,
    pub remembered: Map<Seq<char>, Remembered>,
    pub queues: Queues,
    pub settings: Settings,
}

/// Both orders list the windows that there are, the first each of them once, and
/// the focused window exists. A window added under the id of one that is there
/// is in the stacking order twice.
#[verifier::opaque]
pub open spec fn windows_ok(
    windows: Map<u64, Window>,
    created: Seq<u64>,
    order: Seq<u64>,
    focused: Option<u64>,
) -> bool {
    &&& created.no_duplicates()
    &&& forall|id: u64| #[trigger] created.contains(id) <==> windows.contains_key(id)
    &&& forall|id: u64| #[trigger] order.contains(id) <==> windows.contains_key(id)
    &&& focused matches Some(f) ==> windows.contains_key(f)
}

/// Whether there is a workspace with the id.
pub open spec fn workspace_in(workspaces: Seq<WorkspaceView>, id: usize) -> bool {
    exists|i: int| 0 <= i < workspaces.len() && (#[trigger] workspaces[i]).id == id
}

/// Workspaces have different ids, under the next one, and the current one is
/// among them.
#[verifier::opaque]
pub open spec fn workspaces_ok(workspaces: Seq<WorkspaceView>, current: usize, next: usize) -> bool {
    &&& workspace_in(workspaces, current)
    &&& forall|i: int| 0 <= i < workspaces.len() ==> (#[trigger] workspaces[i]).id < next
    &&& forall|i: int, j: int|
        0 <= i < j < workspaces.len() ==> (#[trigger] workspaces[i]).id != (#[trigger] workspaces[j]).id
}

/// The areas of all monitors fit the coordinates.
#[verifier::opaque]
pub open spec fn monitors_ok(monitors: Seq<Monitor>) -> bool {
    forall|i: int| 0 <= i < monitors.len() ==> (#[trigger] monitors[i]).fits()
}

impl State {
    /// What holds between operations.
    pub open spec fn wf(self) -> bool {
        &&& windows_ok(self.windows, self.created, self.order, self.focused)
        &&& workspaces_ok(self.workspaces, self.current, self.next_workspace_id)
        &&& monitors_ok(self.monitors)
    }

    pub open spec fn workspace_exists(self, id: usize) -> bool {
        workspace_in(self.workspaces, id)
    }

    pub open spec fn has(self, id: u64) -> bool {
        self.windows.contains_key(id)
    }

    /// A window moved and resized.
    pub open spec fn with_geometry(self, id: u64, geometry: Rect) -> State {
        self.with_window(id, Window { geometry, ..self.windows[id] })
    }

    /// The state with a window in place of the one with its id.
    pub open spec fn with_window(self, id: u64, w: Window) -> State {
        State { windows: self.windows.insert(id, w), ..self }
    }
}

impl WindowManager {
    /// Whether the tables are in order.
    pub closed spec fn tables_ok(self) -> bool {
        self.disabled_monitors.wf() && self.monitor_splits.wf() && self.monitor_scales.wf() && self.layouts.wf()
            && self.live_settings.wf() && self.remembered_geometry.wf()
    }

    /// What holds between operations, see [`State::wf`].
    pub open spec fn wf(self) -> bool {
        self.tables_ok() && self@.wf()
    }

    pub closed spec fn view(&self) -> State {
        State {
            windows: self.windows@,
            created: self.created@,
            order: self.order@,
            focused: self.focused,
            monitors: self.monitors@,
            pointer_monitor: self.pointer_monitor,
            workspaces: workspace_views(self.workspaces@),
            current: self.current_workspace,
            previous: self.previous_workspace,
            monitor_workspaces: self.monitor_workspaces@,
            next_workspace_id: self.next_workspace_id,
            next_window_id: self.next_window_id,
            layouts: self.layouts@,
            cascade_step: self.next_cascade_step,
            drag: self.drag,
            resize: match self.resize {
                Some(r) => Some(r@),
                None => None,
            },
            rules: self.rules@,
            remembered: self.remembered_geometry@,
            queues: self.queues(),
            settings: self.settings(),
        }
    }

    closed spec fn queues(&self) -> Queues {
        Queues {
            output_position: self.output_position_requests@,
            pin_input: self.pin_input_requests@,
            pinned: self.pinned_windows@,
            create_fake_monitor: fake_views(self.create_fake_monitor_requests@),
            remove_fake_monitor: views(self.remove_fake_monitor_requests@),
            output_enable: enable_views(self.output_enable_requests@),
            disabled: self.disabled_monitors@,
            splits: self.monitor_splits@,
            split: split_views(self.monitor_split_requests@),
            scales: self.monitor_scales@,
            lock: self.lock_requested,
            refresh: self.refresh_requested,
            capture: capture_views(self.capture_requests@),
            close: self.close_requests@,
            layout_cycles: self.keyboard_layout_cycle_requests,
            live_settings: self.live_settings@,
        }
    }

    closed spec fn settings(&self) -> Settings {
        Settings {
            auto_back_and_forth: self.auto_back_and_forth,
            per_monitor_workspaces: self.per_monitor_workspaces,
            primary_layout: self.primary_layout@,
            secondary_layout: self.secondary_layout@,
            tiling: self.tiling,
            placement: self.placement,
            animations_enabled: self.animations_enabled,
            animation_duration_ms: self.animation_duration_ms,
            shadows_enabled: self.shadows_enabled,
            close_focus_follows_workspace: self.close_focus_follows_workspace,
            resize_margin: self.resize_margin,
            rounded_corners_enabled: self.rounded_corners_enabled,
            gpu_enabled: self.gpu_enabled,
            multi_cursor_enabled: self.multi_cursor_enabled,
            phone_mode: self.phone_mode,
            desktop_icons_enabled: self.desktop_icons_enabled,
            desktop_icons_all_monitors: self.desktop_icons_all_monitors,
            reserve: (self.reserve_top, self.reserve_bottom, self.reserve_left, self.reserve_right),
            file_manager: self.file_manager@,
            desktop_icon_single_click: self.desktop_icon_single_click,
            terminal: self.terminal@,
            color_filter: self.color_filter,
            focus_follows_mouse: self.focus_follows_mouse,
            auto_raise: self.auto_raise,
            theme: self.theme,
            lock: self.lock,
            maximize_covers_dock: self.maximize_covers_dock,
            keybindings: self.keybindings@,
            keyboard_layout: self.keyboard_layout@,
        }
    }
}

/// The layouts that every manager starts with.
pub open spec fn has_first_layouts(layouts: Map<Seq<char>, Registered>) -> bool {
    &&& forall|name: Seq<char>|
        #[trigger] layouts.contains_key(name) <==> name == "tiling"@ || name == "dynamic"@ || name == "floating"@
    &&& forall|ids: Seq<u64>, m: Monitor, c: TilingConfig|
        #![trigger layouts["tiling"@].layout.slots(ids, m, c)]
        layouts["tiling"@].layout.slots(ids, m, c) == MasterStackLayout.slots(ids, m, c)
    &&& forall|ids: Seq<u64>, m: Monitor, c: TilingConfig|
        #![trigger layouts["dynamic"@].layout.slots(ids, m, c)]
        layouts["dynamic"@].layout.slots(ids, m, c) == Map::<u64, Rect>::empty()
    &&& forall|ids: Seq<u64>, m: Monitor, c: TilingConfig|
        #![trigger layouts["floating"@].layout.slots(ids, m, c)]
        layouts["floating"@].layout.slots(ids, m, c) == Map::<u64, Rect>::empty()
}

/// The layout that tiles.
fn tiling_layout() -> (r: Registered)
    ensures
        forall|ids: Seq<u64>, m: Monitor, c: TilingConfig|
            #![trigger r.layout.slots(ids, m, c)]
            r.layout.slots(ids, m, c) == MasterStackLayout.slots(ids, m, c),
{
    Registered { layout: Box::new(MasterStackLayout) }
}

/// A layout under the name that moves nothing.
fn still_layout(name: &'static str) -> (r: Registered)
    ensures
        forall|ids: Seq<u64>, m: Monitor, c: TilingConfig|
            #![trigger r.layout.slots(ids, m, c)]
            r.layout.slots(ids, m, c) == Map::<u64, Rect>::empty(),
{
    Registered { layout: Box::new(NoOpLayout(name)) }
}

/// The layouts that a manager starts with.
fn first_layouts() -> (r: TextTable<Registered>)
    ensures
        r.wf(),
        has_first_layouts(r@),
{
    proof {
        reveal_strlit("tiling");
        reveal_strlit("dynamic");
        reveal_strlit("floating");
        assert("tiling"@.len() == 6 && "dynamic"@.len() == 7 && "floating"@.len() == 8);
    }
    let mut layouts: TextTable<Registered> = TextTable::new();
    layouts.set("tiling", tiling_layout());
    layouts.set("dynamic", still_layout("dynamic"));
    layouts.set("floating", still_layout("floating"));
    layouts
}

/// Whether nothing has been asked for.
pub open spec fn no_requests(q: Queues) -> bool {
    &&& q.output_position.len() == 0 && q.pin_input.len() == 0 && q.pinned.len() == 0
    &&& q.create_fake_monitor.len() == 0 && q.remove_fake_monitor.len() == 0 && q.output_enable.len() == 0
    &&& q.disabled == Map::<Seq<char>, DisabledMonitor>::empty()
    &&& q.splits == Map::<Seq<char>, MonitorSplit>::empty()
    &&& q.split.len() == 0
    &&& q.scales == Map::<Seq<char>, Float64>::empty()
    &&& !q.lock && !q.refresh
    &&& q.capture.len() == 0 && q.close.len() == 0 && q.layout_cycles == 0
    &&& q.live_settings == Map::<Seq<char>, String>::empty()
}

/// The settings of a new manager.
pub open spec fn first_settings(s: Settings) -> bool {
    &&& !s.auto_back_and_forth && !s.per_monitor_workspaces
    &&& s.primary_layout.len() == 0 && s.secondary_layout.len() == 0
    &&& call_ensures(TilingConfig::default, (), s.tiling)
    &&& call_ensures(PlacementConfig::default, (), s.placement)
    &&& s.animations_enabled && s.animation_duration_ms == 200 && s.shadows_enabled
    &&& !s.close_focus_follows_workspace
    &&& s.resize_margin == RESIZE_MARGIN
    &&& s.rounded_corners_enabled is None
    &&& !s.gpu_enabled && !s.multi_cursor_enabled && !s.phone_mode
    &&& s.desktop_icons_enabled && s.desktop_icons_all_monitors
    &&& s.reserve == (0u32, 0u32, 0u32, 0u32)
    &&& s.file_manager.len() == 0 && !s.desktop_icon_single_click && s.terminal.len() == 0
    &&& s.color_filter == ColorFilter::Off
    &&& !s.focus_follows_mouse && !s.auto_raise
    &&& call_ensures(ThemeConfig::default, (), s.theme)
    &&& call_ensures(LockConfig::default, (), s.lock)
    &&& s.maximize_covers_dock
    &&& s.keybindings.len() == 0
    &&& s.keyboard_layout.len() == 0
}

/// The state of a new manager: one workspace, numbered from 1 as users see it,
/// and nothing else.
pub open spec fn is_first_state(s: State) -> bool {
    &&& s.windows == Map::<u64, Window>::empty()
    &&& s.created.len() == 0 && s.order.len() == 0
    &&& s.focused is None
    &&& s.monitors.len() == 0
    &&& s.pointer_monitor is None
    &&& s.workspaces == seq![WorkspaceView { id: 1, name: "1"@, layout: "dynamic"@ }]
    &&& s.current == 1 && s.previous == 1
    &&& s.monitor_workspaces == Map::<u32, usize>::empty()
    &&& s.next_workspace_id == 2 && s.next_window_id == 1
    &&& has_first_layouts(s.layouts)
    &&& s.cascade_step == 0
    &&& s.drag is None && s.resize is None
    &&& s.rules.len() == 0
    &&& s.remembered == Map::<Seq<char>, Remembered>::empty()
    &&& no_requests(s.queues)
    &&& first_settings(s.settings)
}

impl Default for WindowManager {
    fn default() -> (r: Self)
        ensures
            r.wf(),
            is_first_state(r@),
    {
        Self::new()
    }
}

impl WindowManager {
    pub fn new() -> (r: Self)
        ensures
            r.wf(),
            is_first_state(r@),
    {
        let r = WindowManager {
            windows: HashMap::new(),
            created: Vec::new(),
            order: Vec::new(),
            focused: None,
            monitors: Vec::new(),
            output_position_requests: Vec::new(),
            pin_input_requests: Vec::new(),
            pinned_windows: Vec::new(),
            create_fake_monitor_requests: Vec::new(),
            remove_fake_monitor_requests: Vec::new(),
            output_enable_requests: Vec::new(),
            disabled_monitors: TextTable::new(),
            monitor_splits: TextTable::new(),
            monitor_split_requests: Vec::new(),
            monitor_scales: TextTable::new(),
            lock_requested: false,
            refresh_requested: false,
            capture_requests: Vec::new(),
            workspaces: vec![Workspace::new(1, "1", "dynamic")],
            current_workspace: 1,
            previous_workspace: 1,
            auto_back_and_forth: false,
            per_monitor_workspaces: false,
            primary_layout: String::new(),
            secondary_layout: String::new(),
            monitor_workspaces: HashMap::new(),
            next_workspace_id: 2,
            next_window_id: 1,
            layouts: first_layouts(),
            tiling: TilingConfig::default(),
            placement: PlacementConfig::default(),
            next_cascade_step: 0,
            animations_enabled: true,
            animation_duration_ms: 200,
            shadows_enabled: true,
            close_focus_follows_workspace: false,
            resize_margin: RESIZE_MARGIN,
            rounded_corners_enabled: None,
            gpu_enabled: false,
            multi_cursor_enabled: false,
            phone_mode: false,
            desktop_icons_enabled: true,
            desktop_icons_all_monitors: true,
            reserve_top: 0,
            reserve_bottom: 0,
            reserve_left: 0,
            reserve_right: 0,
            file_manager: String::new(),
            desktop_icon_single_click: false,
            terminal: String::new(),
            color_filter: ColorFilter::Off,
            focus_follows_mouse: false,
            auto_raise: false,
            theme: ThemeConfig::default(),
            lock: LockConfig::default(),
            maximize_covers_dock: true,
            keybindings: Vec::new(),
            live_settings: TextTable::new(),
            drag: None,
            resize: None,
            rules: Vec::new(),
            remembered_geometry: TextTable::new(),
            close_requests: Vec::new(),
            keyboard_layout: String::new(),
            keyboard_layout_cycle_requests: 0,
            pointer_monitor: None,
        };
        proof {
            let s = r@;
            assert(s.workspaces =~= seq![WorkspaceView { id: 1, name: "1"@, layout: "dynamic"@ }]);
            assert(s.workspaces[0].id == 1);
            assert(windows_ok(s.windows, s.created, s.order, s.focused)) by {
                reveal(windows_ok);
            }
            assert(workspaces_ok(s.workspaces, s.current, s.next_workspace_id)) by {
                reveal(workspaces_ok);
            }
            assert(monitors_ok(s.monitors)) by {
                reveal(monitors_ok);
            }
        }
        r
    }

    /// Registers a rule. The first rule that matches a window that is added has
    /// its actions applied.
    pub fn add_rule(&mut self, rule: WindowRule)
        requires
            old(self).wf(),
        ensures
            final(self)@ == (State { rules: old(self)@.rules.push(rule), ..old(self)@ }),
            final(self).wf(),
    {
        self.rules.push(rule);
    }

    /// Registers a layout under a name, in place of one that it may have.
    pub fn register_layout(&mut self, name: &str, layout: Box<dyn Layout>)
        requires
            old(self).wf(),
        ensures
            final(self)@ == (State {
                layouts: old(self)@.layouts.insert(name@, Registered { layout }),
                ..old(self)@
            }),
            final(self).wf(),
    {
        self.layouts.set(name, Registered { layout });
    }

    /// The names of the registered layouts, in order.
    pub fn available_layouts(&self) -> (r: Vec<&str>)
        requires
            self.wf(),
        ensures
            forall|name: Seq<char>|
                #[trigger] self@.layouts.contains_key(name) <==> exists|i: int| 0 <= i < r.len() && r[i]@ == name,
            forall|i: int, j: int| 0 <= i < j < r.len() ==> text_less(#[trigger] r[i]@, #[trigger] r[j]@),
    {
        let mut r: Vec<&str> = Vec::new();
        let mut i: usize = 0;
        while i < self.layouts.len()
            invariant
                i <= self.layouts.pairs().len(),
                r.len() == i,
                forall|k: int| 0 <= k < i ==> r[k]@ == (#[trigger] self.layouts.pairs()[k]).0,
            decreases self.layouts.pairs().len() - i,
        {
            r.push(self.layouts.key_at(i).as_str());
            i = i + 1;
        }
        proof {
            let pairs = self.layouts.pairs();
            lemma_map_of(pairs);
            assert forall|name: Seq<char>| #[trigger] self@.layouts.contains_key(name) implies exists|i: int|
                0 <= i < r.len() && r[i]@ == name by {
                let k = choose|k: int| 0 <= k < pairs.len() && pairs[k].0 == name;
                assert(r[k]@ == name);
            }
            assert forall|i: int, j: int| 0 <= i < j < r.len() implies text_less(#[trigger] r[i]@, #[trigger] r[j]@) by {
                assert(text_less(pairs[i].0, pairs[j].0));
            }
            assert forall|name: Seq<char>| (exists|i: int| 0 <= i < r.len() && r[i]@ == name) implies #[trigger]
                self@.layouts.contains_key(name) by {
                let k = choose|k: int| 0 <= k < r.len() && r[k]@ == name;
                assert(pairs[k].0 == name);
            }
        }
        r
    }

    /// A new window id.
    pub fn alloc_window_id(&mut self) -> (r: WindowId)
        requires
            old(self)@.next_window_id < u64::MAX,
            old(self).wf(),
        ensures
            r == old(self)@.next_window_id,
            final(self)@ == (State { next_window_id: (r + 1) as u64, ..old(self)@ }),
            final(self).wf(),
    {
        let id: u64 = self.next_window_id;
        self.next_window_id = id + 1;
        id
    }

    pub fn window(&self, id: WindowId) -> (r: Option<&Window>)
        ensures
            match r {
                Some(w) => self@.has(id) && *w == self@.windows[id],
                None => !self@.has(id),
            },
    {
        self.windows.get(&id)
    }

    pub fn window_mut(&mut self, id: WindowId) -> (r: Option<&mut Window>)
        requires
            old(self).wf(),
        ensures
            match r {
                Some(w) => old(self)@.has(id) && *w == old(self)@.windows[id] && final(self)@ == old(self)@.with_window(
                    id,
                    *final(w),
                ) && final(self).wf(),
                None => !old(self)@.has(id) && *final(self) == *old(self),
            },
    {
        if !self.windows.contains_key(&id) {
            return None;
        }
        proof {
            assert forall|w: Window| windows_ok(
                #[trigger] self.windows@.insert(id, w),
                self.created@,
                self.order@,
                self.focused,
            ) by {
                reveal(windows_ok);
            }
        }
        match self.windows.entry(id) {
            Entry::Occupied(e) => Some(e.into_mut()),
            Entry::Vacant(_) => None,
        }
    }

    /// Moves and resizes a window.
    pub(crate) fn put_geometry(&mut self, id: WindowId, geometry: Rect)
        requires
            old(self).wf(),
            old(self)@.has(id),
        ensures
            final(self)@ == old(self)@.with_geometry(id, geometry),
            final(self).wf(),
    {
        if let Some(w) = self.window_mut(id) {
            w.geometry = geometry;
        }
    }

    /// The geometry of a window.
    pub(crate) fn geometry_of(&self, id: WindowId) -> (r: Rect)
        requires
            self@.has(id),
        ensures
            r == self@.windows[id].geometry,
    {
        match self.window(id) {
            Some(w) => w.geometry,
            None => Rect::new(0, 0, 0, 0),
        }
    }

    /// The monitor that a window belongs to.
    pub(crate) fn monitor_of(&self, id: WindowId) -> (r: u32)
        requires
            self@.has(id),
        ensures
            r == self@.windows[id].monitor,
    {
        match self.window(id) {
            Some(w) => w.monitor,
            None => 0,
        }
    }

    /// Puts every window through `f`, which does what `g` says.
    pub(crate) fn rewrite_all<F: Fn(Window) -> Window>(&mut self, f: F, Ghost(g): Ghost<spec_fn(Window) -> Window>)
        requires
            old(self).wf(),
            forall|w: Window| #[trigger] call_requires(f, (w,)),
            forall|w: Window, r: Window| #[trigger] call_ensures(f, (w,), r) ==> r == g(w),
        ensures
            final(self)@ == (State { windows: each(old(self)@.windows, g), ..old(self)@ }),
            final(self).wf(),
    {
        let mut i: usize = 0;
        let ghost s = self@;
        assert(s.created.take(0) =~= Seq::<u64>::empty());
        while i < self.created.len()
            invariant
                i <= self.created@.len(),
                s == old(self)@,
                s.wf(),
                forall|w: Window| #[trigger] call_requires(f, (w,)),
                forall|w: Window, r: Window| #[trigger] call_ensures(f, (w,), r) ==> r == g(w),
                self.windows@ == each_of(s.windows, s.created.take(i as int), g),
                self.tables_ok(),
                self@ == (State { windows: self.windows@, ..s }),
            decreases self.created@.len() - i,
        {
            let id: u64 = self.created[i];
            proof {
                lemma_each_step(s, i as int, g);
            }
            if let Some(w) = self.windows.remove(&id) {
                self.windows.insert(id, f(w));
            }
            assert(self.windows@ =~= each_of(s.windows, s.created.take(i + 1), g));
            i = i + 1;
        }
        proof {
            assert(s.created.take(s.created.len() as int) =~= s.created);
            lemma_each_of_created(s, g);
            lemma_each_wf(s, g);
        }
    }

    // ---- Steps -----------------------------------------------------------------

    /// The windows in the order in which they were added.
    pub(crate) fn created_ids(&self) -> (r: &Vec<u64>)
        ensures
            r@ == self@.created,
    {
        &self.created
    }

    /// The windows in stacking order, the topmost last.
    pub(crate) fn order_ids(&self) -> (r: &Vec<u64>)
        ensures
            r@ == self@.order,
    {
        &self.order
    }

    pub(crate) fn put_order(&mut self, order: Vec<u64>)
        requires
            old(self).tables_ok(),
        ensures
            final(self)@ == (State { order: order@, ..old(self)@ }),
            final(self).tables_ok(),
    {
        self.order = order;
    }

    pub(crate) fn put_created(&mut self, created: Vec<u64>)
        requires
            old(self).tables_ok(),
        ensures
            final(self)@ == (State { created: created@, ..old(self)@ }),
            final(self).tables_ok(),
    {
        self.created = created;
    }

    pub(crate) fn put_focused(&mut self, focused: Option<u64>)
        requires
            old(self).tables_ok(),
        ensures
            final(self)@ == (State { focused, ..old(self)@ }),
            final(self).tables_ok(),
    {
        self.focused = focused;
    }

    /// Puts a window in, in place of one with its id.
    pub(crate) fn put_window(&mut self, id: u64, w: Window)
        requires
            old(self).tables_ok(),
        ensures
            final(self)@ == old(self)@.with_window(id, w),
            final(self).tables_ok(),
    {
        self.windows.insert(id, w);
    }

    /// Takes a window out.
    pub(crate) fn take_window(&mut self, id: u64) -> (r: Option<Window>)
        requires
            old(self).tables_ok(),
        ensures
            final(self)@ == (State { windows: old(self)@.windows.remove(id), ..old(self)@ }),
            final(self).tables_ok(),
            match r {
                Some(w) => old(self)@.has(id) && w == old(self)@.windows[id],
                None => !old(self)@.has(id),
            },
    {
        self.windows.remove(&id)
    }

    pub(crate) fn put_monitors(&mut self, monitors: Vec<Monitor>)
        requires
            old(self).tables_ok(),
        ensures
            final(self)@ == (State { monitors: monitors@, ..old(self)@ }),
            final(self).tables_ok(),
    {
        self.monitors = monitors;
    }

    pub(crate) fn drag_state(&self) -> (r: Option<DragState>)
        ensures
            r == self@.drag,
    {
        self.drag
    }

    pub(crate) fn put_drag(&mut self, drag: Option<DragState>)
        requires
            old(self).wf(),
        ensures
            final(self)@ == (State { drag, ..old(self)@ }),
            final(self).wf(),
    {
        self.drag = drag;
    }

    /// The resize that is on.
    pub(crate) fn resize_state(&self) -> (r: Option<&ResizeState>)
        ensures
            match r {
                Some(r) => self@.resize == Some(r@),
                None => self@.resize is None,
            },
    {
        match &self.resize {
            Some(r) => Some(r),
            None => None,
        }
    }

    pub(crate) fn put_resize(&mut self, resize: Option<ResizeState>)
        requires
            old(self).wf(),
        ensures
            final(self)@ == (State {
                resize: match resize {
                    Some(r) => Some(r@),
                    None => None,
                },
                ..old(self)@
            }),
            final(self).wf(),
    {
        self.resize = resize;
    }

    pub(crate) fn put_master_ratio(&mut self, ratio: Float32)
        requires
            old(self).wf(),
        ensures
            final(self)@ == (State {
                settings: Settings {
                    tiling: TilingConfig { master_ratio: ratio, ..old(self)@.settings.tiling },
                    ..old(self)@.settings
                },
                ..old(self)@
            }),
            final(self).wf(),
    {
        self.tiling.master_ratio = ratio;
    }

    /// Puts a window at a place, on a monitor.
    pub(crate) fn put_place(&mut self, id: WindowId, geometry: Rect, monitor: u32)
        requires
            old(self).wf(),
            old(self)@.has(id),
        ensures
            final(self)@ == old(self)@.with_window(id, Window { geometry, monitor, ..old(self)@.windows[id] }),
            final(self).wf(),
    {
        if let Some(w) = self.window_mut(id) {
            w.geometry = geometry;
            w.monitor = monitor;
        }
    }

    /// Notes where a window is, for its app's next one.
    pub(crate) fn remember(&mut self, id: WindowId)
        requires
            old(self).wf(),
            old(self)@.has(id),
        ensures
            final(self)@ == (State {
                remembered: remembered_after(old(self)@.remembered, old(self)@.windows[id]),
                ..old(self)@
            }),
            final(self).wf(),
    {
        let (app_id, g): (String, Rect) = match self.window(id) {
            Some(w) => (w.app_id.clone(), w.geometry),
            None => {
                return;
            },
        };
        if !app_id.as_str().is_empty() {
            self.remembered_geometry.set(app_id.as_str(), (g.x, g.y, g.width, g.height));
        }
    }

    pub(crate) fn rules(&self) -> (r: &Vec<WindowRule>)
        ensures
            r@ == self@.rules,
    {
        &self.rules
    }

    /// How many new windows the cascade has placed.
    pub(crate) fn cascade_step(&self) -> (r: u32)
        ensures
            r == self@.cascade_step,
    {
        self.next_cascade_step
    }

    pub(crate) fn put_cascade_step(&mut self, step: u32)
        requires
            old(self).tables_ok(),
        ensures
            final(self)@ == (State { cascade_step: step, ..old(self)@ }),
            final(self).tables_ok(),
    {
        self.next_cascade_step = step;
    }

    /// Where the pointer is, as far as it is known.
    pub(crate) fn pointer_monitor(&self) -> (r: Option<u32>)
        ensures
            r == self@.pointer_monitor,
    {
        self.pointer_monitor
    }

    pub(crate) fn previous_workspace(&self) -> (r: usize)
        ensures
            r == self@.previous,
    {
        self.previous_workspace
    }

    pub(crate) fn put_current(&mut self, current: usize, previous: usize)
        requires
            old(self).tables_ok(),
        ensures
            final(self)@ == (State { current, previous, ..old(self)@ }),
            final(self).tables_ok(),
    {
        self.current_workspace = current;
        self.previous_workspace = previous;
    }

    /// Whether a layout is registered under the name.
    pub(crate) fn has_layout(&self, name: &str) -> (r: bool)
        requires
            self.tables_ok(),
        ensures
            r == self@.layouts.contains_key(name@),
    {
        self.layouts.get(name).is_some()
    }

    /// What a registered layout gives to the windows on a monitor.
    pub(crate) fn run_layout(&self, name: &str, ids: &Vec<u64>, monitor: &Monitor) -> (r: HashMap<u64, Rect>)
        requires
            self.tables_ok(),
            self@.layouts.contains_key(name@),
        ensures
            r@ == self@.layouts[name@].layout.slots(ids@, *monitor, self@.settings.tiling),
    {
        match self.layouts.get(name) {
            Some(l) => l.layout.arrange(ids.as_slice(), monitor, &self.tiling),
            None => HashMap::new(),
        }
    }

    /// The workspace that a monitor was switched to on its own, if it was.
    pub(crate) fn own_workspace(&self, monitor: u32) -> (r: Option<usize>)
        ensures
            match r {
                Some(w) => self@.monitor_workspaces.contains_key(monitor) && w == self@.monitor_workspaces[monitor],
                None => !self@.monitor_workspaces.contains_key(monitor),
            },
    {
        match self.monitor_workspaces.get(&monitor) {
            Some(w) => Some(*w),
            None => None,
        }
    }

    pub(crate) fn put_own_workspace(&mut self, monitor: u32, workspace: usize)
        requires
            old(self).tables_ok(),
        ensures
            final(self)@ == (State {
                monitor_workspaces: old(self)@.monitor_workspaces.insert(monitor, workspace),
                ..old(self)@
            }),
            final(self).tables_ok(),
    {
        self.monitor_workspaces.insert(monitor, workspace);
    }

    pub(crate) fn put_workspaces(&mut self, workspaces: Vec<Workspace>)
        requires
            old(self).tables_ok(),
        ensures
            final(self)@ == (State { workspaces: workspace_views(workspaces@), ..old(self)@ }),
            final(self).tables_ok(),
    {
        self.workspaces = workspaces;
    }

    pub(crate) fn put_workspace(&mut self, i: usize, w: Workspace)
        requires
            old(self).tables_ok(),
            i < old(self)@.workspaces.len(),
        ensures
            final(self)@ == (State { workspaces: old(self)@.workspaces.update(i as int, w@), ..old(self)@ }),
            final(self).tables_ok(),
    {
        self.workspaces.set(i, w);
        assert(self@.workspaces =~= old(self)@.workspaces.update(i as int, w@));
    }

    /// Adds a workspace under the next id.
    pub(crate) fn push_workspace(&mut self, name: &str, layout: &str) -> (id: usize)
        requires
            old(self).tables_ok(),
            old(self)@.next_workspace_id < usize::MAX,
        ensures
            id == old(self)@.next_workspace_id,
            final(self)@ == (State {
                workspaces: old(self)@.workspaces.push(WorkspaceView { id, name: name@, layout: layout@ }),
                next_workspace_id: (id + 1) as usize,
                ..old(self)@
            }),
            final(self).tables_ok(),
    {
        let id: usize = self.next_workspace_id;
        self.next_workspace_id = id + 1;
        self.workspaces.push(Workspace::new(id, name, layout));
        assert(self@.workspaces =~= old(self)@.workspaces.push(WorkspaceView { id, name: name@, layout: layout@ }));
        id
    }

    pub fn workspaces(&self) -> (r: &[Workspace])
        ensures
            workspace_views(r@) == self@.workspaces,
    {
        self.workspaces.as_slice()
    }

    pub fn current_workspace(&self) -> (r: WorkspaceId)
        ensures
            r == self@.current,
    {
        self.current_workspace
    }

    pub fn focused_id(&self) -> (r: Option<WindowId>)
        ensures
            r == self@.focused,
    {
        self.focused
    }

    pub fn monitors(&self) -> (r: &[Monitor])
        ensures
            r@ == self@.monitors,
    {
        self.monitors.as_slice()
    }

    /// Notes which monitor the pointer is over.
    pub fn set_pointer_monitor(&mut self, id: Option<MonitorId>)
        requires
            old(self).wf(),
        ensures
            final(self)@ == (State { pointer_monitor: id, ..old(self)@ }),
            final(self).wf(),
    {
        self.pointer_monitor = id;
    }

    // ---- Settings ----------------------------------------------------------------

    pub(crate) fn goes_back_and_forth(&self) -> (r: bool)
        ensures
            r == self@.settings.auto_back_and_forth,
    {
        self.auto_back_and_forth
    }

    pub(crate) fn has_own_workspaces(&self) -> (r: bool)
        ensures
            r == self@.settings.per_monitor_workspaces,
    {
        self.per_monitor_workspaces
    }

    pub(crate) fn layout_for_primary(&self) -> (r: &str)
        ensures
            r@ == self@.settings.primary_layout,
    {
        self.primary_layout.as_str()
    }

    pub(crate) fn layout_for_others(&self) -> (r: &str)
        ensures
            r@ == self@.settings.secondary_layout,
    {
        self.secondary_layout.as_str()
    }

    pub(crate) fn tiling_config(&self) -> (r: TilingConfig)
        ensures
            r == self@.settings.tiling,
    {
        self.tiling
    }

    pub(crate) fn placement_config(&self) -> (r: PlacementConfig)
        ensures
            r == self@.settings.placement,
    {
        self.placement
    }

    pub(crate) fn animates(&self) -> (r: bool)
        ensures
            r == self@.settings.animations_enabled,
    {
        self.animations_enabled
    }

    pub(crate) fn focus_follows_close(&self) -> (r: bool)
        ensures
            r == self@.settings.close_focus_follows_workspace,
    {
        self.close_focus_follows_workspace
    }

    pub(crate) fn grab_margin(&self) -> (r: i32)
        ensures
            r == self@.settings.resize_margin,
    {
        self.resize_margin
    }

    pub(crate) fn is_phone(&self) -> (r: bool)
        ensures
            r == self@.settings.phone_mode,
    {
        self.phone_mode
    }

    pub(crate) fn theme_config(&self) -> (r: ThemeConfig)
        ensures
            r == self@.settings.theme,
    {
        self.theme
    }
}

} // verus!
