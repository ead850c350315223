//! What scripts do to windows and workspaces.
use crate::ieee::Float32;
use crate::manager::{workspace_views, workspaces_ok, Direction, Queues, State, WindowManager, WorkspaceView};
use crate::manager::model::laws::lemma_minimized_loses_focus;
use crate::manager::model::newcomer::within_unit;
use crate::monitor::MonitorSplit;
use crate::text::{joined, same};
use crate::window::{Window, OPAQUE};
use crate::workspace::{Workspace, WorkspaceId};
use vstd::prelude::*;

verus! {

/// The direction that a text names, if any.
pub open spec fn direction_named(name: Seq<char>) -> Option<Direction> {
    if name == "left"@ {
        Some(Direction::Left)
    } else if name == "right"@ {
        Some(Direction::Right)
    } else if name == "up"@ {
        Some(Direction::Up)
    } else if name == "down"@ {
        Some(Direction::Down)
    } else {
        None
    }
}

/// What `caller` says to a name that is no direction.
pub open spec fn unknown_direction(name: Seq<char>, caller: Seq<char>) -> Seq<char> {
    caller + ": unknown direction '"@ + name + "'"@
}

/// The direction that `name` is, or what `caller` says if it is none.
pub fn parse_direction(name: &str, caller: &str) -> (r: Result<Direction, String>)
    ensures
        match r {
            Ok(dir) => direction_named(name@) == Some(dir),
            Err(message) => direction_named(name@) is None && message@ == unknown_direction(name@, caller@),
        },
        match r {
            Ok(Direction::Left) => name@ == "left"@,
            Ok(Direction::Right) => name@ == "right"@,
            Ok(Direction::Up) => name@ == "up"@,
            Ok(Direction::Down) => name@ == "down"@,
            Err(_) => name@ != "left"@ && name@ != "right"@ && name@ != "up"@ && name@ != "down"@,
        },
{
    if same(name, "left") {
        Ok(Direction::Left)
    } else if same(name, "right") {
        Ok(Direction::Right)
    } else if same(name, "up") {
        Ok(Direction::Up)
    } else if same(name, "down") {
        Ok(Direction::Down)
    } else {
        let message = joined(joined(caller, ": unknown direction '").as_str(), name);
        Err(joined(message.as_str(), "'"))
    }
}

/// What a script can do to the focused window without saying more.
#[derive(Debug, Clone, Copy, PartialEq, Eq, Structural)]
pub enum WindowAction {
    Close,
    Minimize,
    Maximize,
    Fullscreen,
    ToggleFloating,
    TogglePin,
    ScratchpadAdd,
}

impl State {
    /// What an action does to a window.
    pub open spec fn performed_on(self, id: u64, action: WindowAction) -> State {
        match action {
            WindowAction::Close => State {
                queues: Queues { close: self.queues.close.push(id), ..self.queues },
                ..self
            },
            WindowAction::Minimize => self.minimized(id),
            WindowAction::Maximize => self.maximize_toggled(id),
            WindowAction::Fullscreen => self.fullscreen_toggled(id),
            WindowAction::ToggleFloating => self.float_toggled(id),
            WindowAction::TogglePin => self.pin_toggled(id),
            WindowAction::ScratchpadAdd => self.pooled(id).minimized(id),
        }
    }

    /// What an action does to the focused window; nothing if there is none.
    pub open spec fn performed(self, action: WindowAction) -> State {
        match self.focused {
            Some(id) => self.performed_on(id, action),
            None => self,
        }
    }

    /// The focused window changed; nothing if there is none.
    pub open spec fn refit(self, f: spec_fn(Window) -> Window) -> State {
        match self.focused {
            Some(id) => self.changed(id, f),
            None => self,
        }
    }

    /// The focus moved on by one window, which comes to the top.
    pub open spec fn stepped(self, forward: bool) -> State {
        let s = self.cycled(forward);
        match s.focused {
            Some(id) => s.raised(id),
            None => s,
        }
    }

    /// The workspace next to the current one, going round at the ends.
    pub open spec fn adjacent_workspace(self, forward: bool) -> usize {
        let at = place_of(self.workspaces, self.current);
        let n = self.workspaces.len() as int;
        let to = if forward { (at + 1) % n } else { (at + n - 1) % n };
        self.workspaces[to].id
    }
}

/// The position of the first workspace with the id; 0 if there is none.
pub open spec fn place_of(workspaces: Seq<WorkspaceView>, id: usize) -> int
    decreases workspaces.len(),
{
    if workspaces.len() == 0 {
        0
    } else if workspaces[0].id == id {
        0
    } else {
        let later = place_of(workspaces.skip(1), id);
        if workspaces.skip(1).len() > 0 && workspaces.skip(1)[later].id == id { later + 1 } else { 0 }
    }
}

/// A workspace that has no like before it is at its place.
proof fn lemma_place(workspaces: Seq<WorkspaceView>, id: usize, at: int)
    requires
        0 <= at < workspaces.len(),
        workspaces[at].id == id,
        forall|k: int| 0 <= k < at ==> (#[trigger] workspaces[k]).id != id,
    ensures
        place_of(workspaces, id) == at,
    decreases workspaces.len(),
{
    if at > 0 {
        assert(workspaces[0].id != id);
        let rest = workspaces.skip(1);
        assert forall|k: int| 0 <= k < at - 1 implies (#[trigger] rest[k]).id != id by {
            assert(workspaces[k + 1].id != id);
        }
        lemma_place(rest, id, at - 1);
    }
}

/// Does something to the focused window.
pub fn act_on_focused(wm: &mut WindowManager, action: WindowAction)
    requires
        old(wm).wf(),
    ensures
        final(wm).wf(),
        final(wm)@ == old(wm)@.performed(action),
{
    if let Some(id) = wm.focused_id() {
        match action {
            WindowAction::Close => wm.close_window(id),
            WindowAction::Minimize => wm.minimize_window(id),
            WindowAction::Maximize => wm.toggle_maximize(id),
            WindowAction::Fullscreen => wm.toggle_fullscreen(id),
            WindowAction::ToggleFloating => wm.toggle_floating(id),
            WindowAction::TogglePin => wm.toggle_always_on_top(id),
            WindowAction::ScratchpadAdd => wm.scratchpad_add(id),
        }
    }
}

/// Moves the focus in a direction, given by its name.
pub fn focus_toward(wm: &mut WindowManager, direction: &str) -> (r: Result<(), String>)
    requires
        old(wm).wf(),
    ensures
        final(wm).wf(),
        match direction_named(direction@) {
            Some(dir) => r is Ok && final(wm)@ == (match old(wm)@.neighbour(dir) {
                Some(id) => old(wm)@.focused_on(id),
                None => old(wm)@,
            }),
            None => final(wm)@ == old(wm)@ && (r matches Err(message) && message@ == unknown_direction(
                direction@,
                "srd.window.focus"@,
            )),
        },
{
    match parse_direction(direction, "srd.window.focus") {
        Ok(dir) => {
            let _ = wm.focus_direction(dir);
            Ok(())
        },
        Err(message) => Err(message),
    }
}

/// Swaps the focused window with its neighbour in a direction, given by its
/// name, or moves it to the edge there.
pub fn move_toward(wm: &mut WindowManager, direction: &str) -> (r: Result<(), String>)
    requires
        old(wm).wf(),
    ensures
        final(wm).wf(),
        match direction_named(direction@) {
            Some(dir) => r is Ok && final(wm)@ == (match (old(wm)@.focused, old(wm)@.neighbour(dir)) {
                (Some(f), Some(other)) => old(wm)@.swapped(f, other),
                (Some(f), None) => old(wm)@.pushed(f, dir),
                (None, _) => old(wm)@,
            }),
            None => final(wm)@ == old(wm)@ && (r matches Err(message) && message@ == unknown_direction(
                direction@,
                "srd.window.move"@,
            )),
        },
{
    match parse_direction(direction, "srd.window.move") {
        Ok(dir) => {
            let _ = wm.move_window_direction(dir);
            Ok(())
        },
        Err(message) => Err(message),
    }
}

/// Moves the focus on by one window and brings that to the top.
pub fn cycle_windows(wm: &mut WindowManager, forward: bool)
    requires
        old(wm).wf(),
    ensures
        final(wm).wf(),
        final(wm)@ == old(wm)@.stepped(forward),
{
    if forward {
        wm.focus_next();
    } else {
        wm.focus_previous();
    }
    if let Some(id) = wm.focused_id() {
        wm.raise_window(id);
    }
}

/// Switches to the workspace next to the current one, going round at the ends.
pub fn cycle_workspace(wm: &mut WindowManager, forward: bool)
    requires
        old(wm).wf(),
    ensures
        final(wm).wf(),
        final(wm)@ == old(wm)@.switched(old(wm)@.adjacent_workspace(forward)),
{
    let to = next_workspace(wm, forward);
    wm.switch_workspace(to);
}

fn next_workspace(wm: &WindowManager, forward: bool) -> (r: WorkspaceId)
    requires
        wm.wf(),
    ensures
        r == wm@.adjacent_workspace(forward),
{
    let all: &[Workspace] = wm.workspaces();
    let current: WorkspaceId = wm.current_workspace();
    let ghost views = wm@.workspaces;
    let n: usize = all.len();
    let mut at: usize = 0;
    proof {
        reveal(workspaces_ok);
        assert(views.len() == all@.len());
    }
    while at < n && all[at].id != current
        invariant
            at <= n,
            n == all@.len(),
            workspace_views(all@) == views,
            views.len() == all@.len(),
            forall|k: int| 0 <= k < at ==> (#[trigger] views[k]).id != current,
        decreases n - at,
    {
        assert(views[at as int] == all@[at as int]@);
        at = at + 1;
    }
    assert(at < n);
    proof {
        assert(views[at as int] == all@[at as int]@);
        lemma_place(views, current, at as int);
    }
    let to: usize = if forward {
        if at + 1 == n { 0 } else { at + 1 }
    } else {
        if at == 0 { n - 1 } else { at - 1 }
    };
    proof {
        if forward && at + 1 < n {
            vstd::arithmetic::div_mod::lemma_small_mod((at + 1) as nat, n as nat);
        }
        if !forward && at == 0 {
            vstd::arithmetic::div_mod::lemma_small_mod((n - 1) as nat, n as nat);
        }
        if !forward && at > 0 {
            vstd::arithmetic::div_mod::lemma_mod_add_multiples_vanish((at - 1) as int, n as int);
            vstd::arithmetic::div_mod::lemma_small_mod((at - 1) as nat, n as nat);
        }
        assert(views[to as int] == all@[to as int]@);
    }
    all[to].id
}

/// Sends the focused window to a workspace.
pub fn send_focused(wm: &mut WindowManager, workspace: WorkspaceId)
    requires
        old(wm).wf(),
    ensures
        final(wm).wf(),
        final(wm)@ == (match old(wm)@.focused {
            Some(id) => old(wm)@.moved_to_workspace(id, workspace),
            None => old(wm)@,
        }),
{
    if let Some(id) = wm.focused_id() {
        wm.move_window_to_workspace(id, workspace);
    }
}

/// Gives the current workspace a layout and arranges it.
pub fn use_layout(wm: &mut WindowManager, name: &str)
    requires
        old(wm).wf(),
    ensures
        final(wm).wf(),
        final(wm)@ == old(wm)@.with_layout(old(wm)@.current, name@).arranged(old(wm)@.current),
{
    let current: WorkspaceId = wm.current_workspace();
    wm.set_layout(current, name);
    let _ = wm.arrange_workspace(current);
}

/// Divides a monitor, in rows if `direction` says so and in columns otherwise.
/// One part or none makes it whole again.
pub fn split_monitor(wm: &mut WindowManager, name: String, parts: u32, direction: Option<&str>)
    requires
        old(wm).wf(),
    ensures
        final(wm).wf(),
        final(wm)@ == (State {
            queues: Queues {
                splits: if parts <= 1 {
                    old(wm)@.queues.splits.remove(name@)
                } else {
                    old(wm)@.queues.splits.insert(
                        name@,
                        MonitorSplit { parts, rows: direction matches Some(d) && d@ == "rows"@ },
                    )
                },
                ..old(wm)@.queues
            },
            ..old(wm)@
        }),
{
    let rows: bool = match direction {
        Some(d) => same(d, "rows"),
        None => false,
    };
    wm.set_monitor_split(name, parts, rows);
}

/// Turns the decoration of the focused window on or off.
pub fn set_decorations(wm: &mut WindowManager, enabled: bool)
    requires
        old(wm).wf(),
    ensures
        final(wm).wf(),
        final(wm)@ == old(wm)@.refit(|w: Window| (Window { decorated: enabled, ..w })),
{
    if let Some(id) = wm.focused_id() {
        if let Some(w) = wm.window_mut(id) {
            w.decorated = enabled;
        }
    }
}

/// Gives the border of the focused window a colour.
pub fn set_border_color(wm: &mut WindowManager, r: u8, g: u8, b: u8)
    requires
        old(wm).wf(),
    ensures
        final(wm).wf(),
        final(wm)@ == old(wm)@.refit(|w: Window| (Window { border_color: (r, g, b), ..w })),
{
    if let Some(id) = wm.focused_id() {
        if let Some(w) = wm.window_mut(id) {
            w.border_color = (r, g, b);
        }
    }
}

/// Gives the border of the focused window a width.
pub fn set_border_width(wm: &mut WindowManager, width: u32)
    requires
        old(wm).wf(),
    ensures
        final(wm).wf(),
        final(wm)@ == old(wm)@.refit(|w: Window| (Window { border_width: width, ..w })),
{
    if let Some(id) = wm.focused_id() {
        if let Some(w) = wm.window_mut(id) {
            w.border_width = width;
        }
    }
}

/// Rounds the corners of the focused window.
pub fn set_corner_radius(wm: &mut WindowManager, radius: u32)
    requires
        old(wm).wf(),
    ensures
        final(wm).wf(),
        final(wm)@ == old(wm)@.refit(|w: Window| (Window { corner_radius: radius, ..w })),
{
    if let Some(id) = wm.focused_id() {
        if let Some(w) = wm.window_mut(id) {
            w.corner_radius = radius;
        }
    }
}

/// Sets how far from its edges the focused window can be grabbed.
pub fn set_resize_margin(wm: &mut WindowManager, margin: i32)
    requires
        old(wm).wf(),
    ensures
        final(wm).wf(),
        final(wm)@ == old(wm)@.refit(|w: Window| (Window { resize_margin: Some(margin), ..w })),
{
    if let Some(id) = wm.focused_id() {
        if let Some(w) = wm.window_mut(id) {
            w.resize_margin = Some(margin);
        }
    }
}

/// Takes the focused window out of the tiling, or back in.
pub fn set_floating(wm: &mut WindowManager, floating: bool)
    requires
        old(wm).wf(),
    ensures
        final(wm).wf(),
        final(wm)@ == old(wm)@.refit(|w: Window| (Window { floating, ..w })),
{
    if let Some(id) = wm.focused_id() {
        if let Some(w) = wm.window_mut(id) {
            w.floating = floating;
        }
    }
}

/// Sets how opaque the focused window is.
pub fn set_opacity(wm: &mut WindowManager, opacity: Float32)
    requires
        old(wm).wf(),
    ensures
        final(wm).wf(),
        final(wm)@ == old(wm)@.refit(|w: Window| (Window { opacity: within_unit(opacity), ..w })),
{
    let opacity = opacity.clamped(Float32 { bits: 0 }, Float32 { bits: OPAQUE });
    if let Some(id) = wm.focused_id() {
        if let Some(w) = wm.window_mut(id) {
            w.opacity = opacity;
        }
    }
}

/// Whether there is a focused window and it floats.
pub fn is_floating(wm: &WindowManager) -> (r: bool)
    requires
        wm.wf(),
    ensures
        r == (wm@.focused matches Some(id) && wm@.has(id) && wm@.windows[id].floating),
{
    match wm.focused_id() {
        Some(id) => wm.is_floating(id),
        None => false,
    }
}

/// Going on leads to the workspace after the current one in the list, and from
/// the last to the first; going back the other way round. `p` is the place of
/// the current one.
pub proof fn lemma_next_workspace(s: State, p: int)
    requires
        s.wf(),
        0 <= p < s.workspaces.len(),
        s.workspaces[p].id == s.current,
    ensures
        s.adjacent_workspace(true) == s.workspaces[if p + 1 == s.workspaces.len() { 0 } else { p + 1 }].id,
        s.adjacent_workspace(false) == s.workspaces[if p == 0 { s.workspaces.len() - 1 } else { p - 1 }].id,
{
    reveal(workspaces_ok);
    let n = s.workspaces.len() as int;
    lemma_place(s.workspaces, s.current, p);
    assert((p + 1) % n == (if p + 1 < n { p + 1 } else { 0 })) by (nonlinear_arith)
        requires
            0 <= p < n,
    ;
    assert((p + n - 1) % n == (if p > 0 { p - 1 } else { n - 1 })) by (nonlinear_arith)
        requires
            0 <= p < n,
    ;
}

/// What scripts ask of the focused window is done to it. It is asked to close,
/// and stays until then.
pub proof fn lemma_asked_to_close(s: State, id: u64)
    requires
        s.focused == Some(id),
    ensures
        ({
            let t = s.performed(WindowAction::Close);
            &&& t.queues.close == s.queues.close.push(id)
            &&& t.windows == s.windows && t.focused == s.focused && t.order == s.order
        }),
{
}

/// It is minimized, or put into the scratchpad, which minimizes it.
pub proof fn lemma_asked_to_hide(s: State, id: u64)
    requires
        s.wf(),
        s.focused == Some(id),
        s.has(id),
    ensures
        s.performed(WindowAction::Minimize).windows[id].minimized,
        s.performed(WindowAction::Minimize).focused != Some(id),
        s.performed(WindowAction::ScratchpadAdd) == s.pooled(id).minimized(id),
{
    lemma_minimized_loses_focus(s, id);
}

/// It is maximized, or restored if it was.
pub proof fn lemma_asked_to_maximize(s: State, id: u64)
    requires
        s.focused == Some(id),
        s.has(id),
    ensures
        ({
            let w = s.windows[id];
            let t = s.performed(WindowAction::Maximize);
            s.monitor_for(w.monitor) is Some || w.maximized ==> t.windows[id].maximized == !w.maximized
                && t.windows[id].fullscreen == w.fullscreen
        }),
{
}

/// It is made fullscreen, or no longer if it was.
pub proof fn lemma_asked_to_fill_screen(s: State, id: u64)
    requires
        s.focused == Some(id),
        s.has(id),
    ensures
        ({
            let w = s.windows[id];
            let t = s.performed(WindowAction::Fullscreen);
            s.monitor_for(w.monitor) is Some || w.fullscreen ==> t.windows[id].fullscreen == !w.fullscreen
        }),
{
}

/// It is let float, or no longer if it did.
pub proof fn lemma_asked_to_float(s: State, id: u64)
    requires
        s.focused == Some(id),
        s.has(id),
    ensures
        s.performed(WindowAction::ToggleFloating).windows[id] == (Window {
            floating: !s.windows[id].floating,
            ..s.windows[id]
        }),
{
}

/// It is made to stay on top, or no longer if it did.
pub proof fn lemma_asked_to_pin(s: State, id: u64)
    requires
        s.focused == Some(id),
        s.has(id),
    ensures
        s.performed(WindowAction::TogglePin).windows[id] == (Window {
            always_on_top: !s.windows[id].always_on_top,
            ..s.windows[id]
        }),
{
}

/// Without a focused window nothing is done.
pub proof fn lemma_asked_of_none(s: State, action: WindowAction, f: spec_fn(Window) -> Window)
    requires
        s.focused is None,
    ensures
        s.performed(action) == s,
        s.refit(f) == s,
{
}

/// What scripts set of the focused window is set there, and of no other.
pub proof fn lemma_set_of_focused(s: State, id: u64, other: u64, f: spec_fn(Window) -> Window)
    requires
        s.focused == Some(id),
        s.has(id),
        other != id,
    ensures
        s.refit(f).windows[id] == f(s.windows[id]),
        s.refit(f).has(other) == s.has(other),
        s.has(other) ==> s.refit(f).windows[other] == s.windows[other],
        s.refit(f) == (State { windows: s.refit(f).windows, ..s }),
{
}

} // verus!
