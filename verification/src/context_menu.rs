//! The menu of a window's titlebar: which rows it has, where each is, and which
//! one a point falls on. Drawing it is up to the backend.
use crate::manager::{workspace_views, State, WindowManager, WorkspaceView};
use crate::num::to_i32_range;
use crate::text::same;
use crate::window::WindowId;
use crate::workspace::{Workspace, WorkspaceId};
use vstd::prelude::*;

verus! {

#[derive(Debug, Clone, Copy, PartialEq, Eq, Structural)]
pub enum MenuAction {
    Minimize,
    ToggleMaximize,
    ToggleFullscreen,
    ToggleFloating,
    ToggleAlwaysOnTop,
    MoveToWorkspace(WorkspaceId),
    /// Switches between the two styles of titlebar buttons. It is a setting of
    /// the theme, so every window changes.
    CycleButtonStyle,
    /// Moves the titlebar buttons to the other side, on every window.
    CycleButtonSide,
    Close,
    /// A line between rows. It takes up room, but a click on it does nothing.
    Separator,
    /// The name of a section. A click on it does nothing either.
    Header,
}

impl MenuAction {
    /// Whether a click on the row does anything.
    pub fn is_interactive(&self) -> (r: bool)
        ensures
            r == (*self != MenuAction::Separator && *self != MenuAction::Header),
    {
        !matches!(self, MenuAction::Separator | MenuAction::Header)
    }

    /// The height of a row with this action, if a clickable row has the height
    /// `row_height`.
    pub open spec fn height(self, row_height: u32) -> u32 {
        match self {
            MenuAction::Separator => SEPARATOR_HEIGHT,
            MenuAction::Header => HEADER_HEIGHT,
            _ => row_height,
        }
    }
}

#[derive(Debug)]
pub struct ContextMenu {
    pub window: WindowId,
    /// The top left corner, in the coordinates of window geometries.
    pub pos: (i32, i32),
    pub width: u32,
    /// The height of a clickable row.
    pub row_height: u32,
    pub items: Vec<(&'static str, MenuAction)>,
}

pub const MENU_WIDTH: u32 = 170;

/// The height of a clickable row.
pub const MENU_ROW_HEIGHT: u32 = 28;

/// The height of a line between rows.
pub const SEPARATOR_HEIGHT: u32 = 9;

/// The height of a section's name.
pub const HEADER_HEIGHT: u32 = 22;

// ---- The rows of a window's menu -------------------------------------------

/// A row: what it says and what it does.
pub type Row = (Seq<char>, MenuAction);

/// A row that says one thing or another.
pub open spec fn either(first: bool, a: Seq<char>, b: Seq<char>, action: MenuAction) -> Row {
    (if first { a } else { b }, action)
}

/// The workspaces other than `own`.
pub open spec fn others(all: Seq<WorkspaceView>, own: usize) -> Seq<WorkspaceView> {
    all.filter(elsewhere(own))
}

pub open spec fn elsewhere(own: usize) -> spec_fn(WorkspaceView) -> bool {
    |w: WorkspaceView| w.id != own
}

/// The rows that send the window to each of some workspaces.
pub open spec fn move_rows(to: Seq<WorkspaceView>) -> Seq<Row> {
    to.map_values(|w: WorkspaceView| (w.name, MenuAction::MoveToWorkspace(w.id)))
}

impl State {
    /// Whether the window's workspace is tiled.
    pub open spec fn is_tiled(self, id: u64) -> bool {
        let on = self.windows[id].workspace;
        self.workspace_exists(on) && self.workspace_with(on).layout == "tiling"@
    }

    /// The rows on the window itself. Floating is only offered where the
    /// layout tiles: elsewhere it would change nothing.
    pub open spec fn window_rows(self, id: u64) -> Seq<Row> {
        let w = self.windows[id];
        let first = seq![
            ("Minimize"@, MenuAction::Minimize),
            either(w.maximized, "Restore"@, "Maximize"@, MenuAction::ToggleMaximize),
            either(w.fullscreen, "Exit Fullscreen"@, "Fullscreen"@, MenuAction::ToggleFullscreen),
        ];
        let pin = either(
            w.always_on_top,
            "\u{2713} Always on Top"@,
            "Always on Top"@,
            MenuAction::ToggleAlwaysOnTop,
        );
        let float = either(w.floating, "\u{2713} Floating"@, "Floating"@, MenuAction::ToggleFloating);
        if self.is_tiled(id) {
            first.push(float).push(pin)
        } else {
            first.push(pin)
        }
    }

    /// The section with a row for each workspace the window could go to, if
    /// there is one.
    pub open spec fn workspace_rows(self, id: u64) -> Seq<Row> {
        let to = others(self.workspaces, self.windows[id].workspace);
        if to.len() > 0 {
            seq![(""@, MenuAction::Separator), ("Move to Workspace"@, MenuAction::Header)] + move_rows(to)
        } else {
            Seq::empty()
        }
    }

    /// The section of the theme's settings, and the last row.
    pub open spec fn theme_rows(self) -> Seq<Row> {
        let theme = self.settings.theme;
        seq![
            (""@, MenuAction::Separator),
            ("Customize"@, MenuAction::Header),
            either(
                theme.traffic_light_buttons,
                "Button Style: Traffic Lights"@,
                "Button Style: Traditional"@,
                MenuAction::CycleButtonStyle,
            ),
            either(
                theme.buttons_left,
                "Button Side: Left"@,
                "Button Side: Right"@,
                MenuAction::CycleButtonSide,
            ),
            (""@, MenuAction::Separator),
            ("Close"@, MenuAction::Close),
        ]
    }

    /// All rows of a window's menu.
    pub open spec fn menu_rows(self, id: u64) -> Seq<Row> {
        self.window_rows(id) + self.workspace_rows(id) + self.theme_rows()
    }
}

/// The menu offers no move to the workspace that the window is on.
pub proof fn lemma_no_row_to_own_workspace(s: State, id: u64, n: int)
    requires
        0 <= n < s.menu_rows(id).len(),
    ensures
        s.menu_rows(id)[n].1 != MenuAction::MoveToWorkspace(s.windows[id].workspace),
{
    let own = s.windows[id].workspace;
    let to = others(s.workspaces, own);
    let first = s.window_rows(id).len();
    let middle = s.workspace_rows(id);
    if first <= n < first + middle.len() {
        let k = n - first;
        if k >= 2 {
            s.workspaces.lemma_filter_pred(elsewhere(own), k - 2);
        }
    }
}

/// What rows are to the contracts.
pub open spec fn row_views(items: Seq<(&'static str, MenuAction)>) -> Seq<Row> {
    items.map_values(|item: (&'static str, MenuAction)| (item.0@, item.1))
}

/// `String::leak` of std, which gives up the string's storage: the text stays
/// as it is, for as long as the program runs.
#[verifier::external_body]
fn leaked(s: String) -> (r: &'static str)
    ensures
        r@ == s@,
{
    s.leak()
}

proof fn lemma_pushed_view(items: Seq<(&'static str, MenuAction)>, item: (&'static str, MenuAction))
    ensures
        row_views(items.push(item)) == row_views(items).push((item.0@, item.1)),
{
    assert(row_views(items.push(item)) =~= row_views(items).push((item.0@, item.1)));
}

/// Adds a row.
fn push(items: &mut Vec<(&'static str, MenuAction)>, label: &'static str, action: MenuAction)
    ensures
        row_views(final(items)@) == row_views(old(items)@).push((label@, action)),
{
    proof {
        lemma_pushed_view(items@, (label, action));
    }
    items.push((label, action));
}

impl ContextMenu {
    /// The menu of a window, with its corner at `pos`. `None` if there is no
    /// such window.
    pub fn open(wm: &WindowManager, window: WindowId, pos: (i32, i32)) -> (r: Option<Self>)
        requires
            wm.wf(),
        ensures
            match r {
                Some(menu) => {
                    &&& wm@.has(window)
                    &&& menu.window == window
                    &&& menu.pos == pos
                    &&& menu.width == MENU_WIDTH
                    &&& menu.row_height == MENU_ROW_HEIGHT
                    &&& row_views(menu.items@) == wm@.menu_rows(window)
                },
                None => !wm@.has(window),
            },
    {
        if wm.window(window).is_none() {
            return None;
        }
        let mut items: Vec<(&'static str, MenuAction)> = Vec::new();
        Self::push_window_rows(wm, window, &mut items);
        Self::push_workspace_rows(wm, window, &mut items);
        Self::push_theme_rows(wm, &mut items);
        proof {
            assert(row_views(items@) =~= wm@.menu_rows(window));
        }
        Some(ContextMenu { window, pos, width: MENU_WIDTH, row_height: MENU_ROW_HEIGHT, items })
    }

    fn push_window_rows(wm: &WindowManager, window: WindowId, items: &mut Vec<(&'static str, MenuAction)>)
        requires
            wm.wf(),
            wm@.has(window),
            old(items)@.len() == 0,
        ensures
            row_views(final(items)@) == wm@.window_rows(window),
    {
        proof {
            assert(row_views(items@) =~= Seq::empty());
        }
        if let Some(w) = wm.window(window) {
            let tiled: bool = match wm.workspace(w.workspace) {
                Some(on) => same(on.layout.as_str(), "tiling"),
                None => false,
            };
            push(items, "Minimize", MenuAction::Minimize);
            push(items, if w.maximized { "Restore" } else { "Maximize" }, MenuAction::ToggleMaximize);
            push(items, if w.fullscreen { "Exit Fullscreen" } else { "Fullscreen" }, MenuAction::ToggleFullscreen);
            if tiled {
                push(items, if w.floating { "\u{2713} Floating" } else { "Floating" }, MenuAction::ToggleFloating);
            }
            push(
                items,
                if w.always_on_top { "\u{2713} Always on Top" } else { "Always on Top" },
                MenuAction::ToggleAlwaysOnTop,
            );
            proof {
                assert(row_views(items@) =~= wm@.window_rows(window));
            }
        }
    }

    fn push_workspace_rows(wm: &WindowManager, window: WindowId, items: &mut Vec<(&'static str, MenuAction)>)
        requires
            wm.wf(),
            wm@.has(window),
        ensures
            row_views(final(items)@) == row_views(old(items)@) + wm@.workspace_rows(window),
    {
        let own: WorkspaceId = match wm.window(window) {
            Some(w) => w.workspace,
            None => 0,
        };
        let all: &[Workspace] = wm.workspaces();
        let ghost views = wm@.workspaces;
        let ghost before = row_views(items@);
        let ghost heads = seq![(""@, MenuAction::Separator), ("Move to Workspace"@, MenuAction::Header)];
        let mut any: bool = false;
        let mut i: usize = 0;
        proof {
            assert(views.take(0) =~= Seq::empty());
            reveal(Seq::filter);
            assert(row_views(items@) =~= before);
        }
        while i < all.len()
            invariant
                workspace_views(all@) == views,
                0 <= i <= all@.len(),
                all@.len() == views.len(),
                heads == seq![(""@, MenuAction::Separator), ("Move to Workspace"@, MenuAction::Header)],
                any == (others(views.take(i as int), own).len() > 0),
                row_views(items@) == (if any {
                    before + heads + move_rows(others(views.take(i as int), own))
                } else {
                    before
                }),
            decreases all@.len() - i,
        {
            let w = &all[i];
            proof {
                assert(views[i as int] == w@);
                assert(views.take(i + 1).drop_last() =~= views.take(i as int));
                reveal(Seq::filter);
                let so_far = others(views.take(i as int), own);
                let then = others(views.take(i + 1), own);
                assert(then == if w.id != own { so_far.push(w@) } else { so_far });
                assert(move_rows(so_far.push(w@)) =~= move_rows(so_far).push(
                    (w.name@, MenuAction::MoveToWorkspace(w.id)),
                ));
            }
            if w.id != own {
                if !any {
                    push(items, "", MenuAction::Separator);
                    push(items, "Move to Workspace", MenuAction::Header);
                    any = true;
                    proof {
                        assert(row_views(items@) =~= before + heads);
                        assert(move_rows(others(views.take(i as int), own)) =~= Seq::empty());
                    }
                }
                push(items, leaked(w.name.clone()), MenuAction::MoveToWorkspace(w.id));
                proof {
                    assert(row_views(items@) =~= before + heads + move_rows(others(views.take(i + 1), own)));
                }
            }
            i = i + 1;
        }
        proof {
            assert(views.take(i as int) =~= views);
            assert(row_views(items@) =~= before + wm@.workspace_rows(window));
        }
    }

    fn push_theme_rows(wm: &WindowManager, items: &mut Vec<(&'static str, MenuAction)>)
        ensures
            row_views(final(items)@) == row_views(old(items)@) + wm@.theme_rows(),
    {
        let ghost before = row_views(items@);
        let theme = wm.theme_config();
        push(items, "", MenuAction::Separator);
        push(items, "Customize", MenuAction::Header);
        push(
            items,
            if theme.traffic_light_buttons { "Button Style: Traffic Lights" } else { "Button Style: Traditional" },
            MenuAction::CycleButtonStyle,
        );
        push(
            items,
            if theme.buttons_left { "Button Side: Left" } else { "Button Side: Right" },
            MenuAction::CycleButtonSide,
        );
        push(items, "", MenuAction::Separator);
        push(items, "Close", MenuAction::Close);
        proof {
            assert(row_views(items@) =~= before + wm@.theme_rows());
        }
    }

    // ---- Where the rows are ------------------------------------------------

    /// The distance from the menu's top to that of row `n`: the heights of the
    /// rows before it.
    pub open spec fn top(self, n: nat) -> int
        decreases n,
    {
        if n == 0 {
            0
        } else {
            self.top((n - 1) as nat) + self.items@[n - 1].1.height(self.row_height)
        }
    }

    /// Whether a point is on row `n`.
    pub open spec fn on_row(self, n: int, x: int, y: int) -> bool {
        &&& 0 <= n < self.items@.len()
        &&& self.pos.0 <= x < self.pos.0 + self.width
        &&& self.pos.1 + self.top(n as nat) <= y < self.pos.1 + self.top((n + 1) as nat)
    }

    /// Whether a point is on the menu.
    pub open spec fn covers(self, x: int, y: int) -> bool {
        &&& self.pos.0 <= x < self.pos.0 + self.width
        &&& self.pos.1 <= y < self.pos.1 + self.top(self.items@.len())
    }

    /// The height of a row; that of a clickable one if there is no such row.
    pub fn row_height_for(&self, index: usize) -> (r: u32)
        ensures
            r == (if index < self.items@.len() {
                self.items@[index as int].1.height(self.row_height)
            } else {
                self.row_height
            }),
    {
        if index >= self.items.len() {
            return self.row_height;
        }
        match self.items[index].1 {
            MenuAction::Separator => SEPARATOR_HEIGHT,
            MenuAction::Header => HEADER_HEIGHT,
            _ => self.row_height,
        }
    }

    /// [`Self::top`], exactly.
    fn top_of(&self, index: usize) -> (r: i128)
        requires
            index <= self.items@.len(),
        ensures
            r == self.top(index as nat),
            0 <= r <= index * u32::MAX,
    {
        let mut sum: i128 = 0;
        let mut i: usize = 0;
        while i < index
            invariant
                0 <= i <= index <= self.items@.len(),
                sum == self.top(i as nat),
                0 <= sum <= i * u32::MAX,
            decreases index - i,
        {
            assert(i * u32::MAX <= usize::MAX * u32::MAX) by (nonlinear_arith)
                requires
                    0 <= i <= usize::MAX,
            ;
            assert((i + 1) * u32::MAX == i * u32::MAX + u32::MAX) by (nonlinear_arith);
            sum = sum + self.row_height_for(i) as i128;
            i = i + 1;
        }
        sum
    }

    /// Where a row starts, from the menu's top. Behind the last row is where
    /// the menu ends.
    pub fn row_y(&self, index: usize) -> (r: i32)
        ensures
            r == to_i32_range(
                self.top((if index < self.items@.len() { index as int } else { self.items@.len() as int }) as nat),
            ),
    {
        let last: usize = self.items.len();
        let top: i128 = self.top_of(if index < last { index } else { last });
        if top > 0x7fff_ffff {
            i32::MAX
        } else {
            top as i32
        }
    }

    /// The height of all rows.
    pub fn height(&self) -> (r: i32)
        ensures
            r == to_i32_range(self.top(self.items@.len())),
    {
        self.row_y(self.items.len())
    }

    /// The row that a point falls on, if any.
    pub fn row_at(&self, x: i32, y: i32) -> (r: Option<usize>)
        ensures
            match r {
                Some(n) => self.on_row(n as int, x as int, y as int),
                None => !self.covers(x as int, y as int),
            },
            r is Some <==> self.covers(x as int, y as int),
    {
        proof {
            self.lemma_tops_ascend(0, self.items@.len());
        }
        if x < self.pos.0 || x as i64 >= self.pos.0 as i64 + self.width as i64 {
            return None;
        }
        let down: i128 = y as i128 - self.pos.1 as i128;
        if down < 0 {
            return None;
        }
        let mut top: i128 = 0;
        let mut i: usize = 0;
        while i < self.items.len()
            invariant
                0 <= i <= self.items@.len(),
                top == self.top(i as nat),
                0 <= top <= down,
                down == y - self.pos.1,
                self.pos.0 <= x < self.pos.0 + self.width,
                self.covers(x as int, y as int) ==> down < self.top(self.items@.len()),
            decreases self.items@.len() - i,
        {
            let bottom: i128 = top + self.row_height_for(i) as i128;
            if down < bottom {
                proof {
                    self.lemma_tops_ascend((i + 1) as nat, self.items@.len());
                }
                return Some(i);
            }
            top = bottom;
            i = i + 1;
        }
        None
    }

    /// No row starts above the one before it.
    pub proof fn lemma_tops_ascend(self, a: nat, b: nat)
        requires
            a <= b <= self.items@.len(),
        ensures
            0 <= self.top(a) <= self.top(b),
        decreases b,
    {
        if a < b {
            self.lemma_tops_ascend(a, (b - 1) as nat);
        } else if a > 0 {
            self.lemma_tops_ascend((a - 1) as nat, (a - 1) as nat);
        }
    }

    /// The rows leave no gap and do not overlap: a point on the menu is on
    /// exactly one row.
    pub proof fn lemma_one_row(self, x: int, y: int)
        ensures
            self.covers(x, y) <==> exists|n: int| self.on_row(n, x, y),
            forall|a: int, b: int| self.on_row(a, x, y) && self.on_row(b, x, y) ==> a == b,
    {
        if self.covers(x, y) {
            self.lemma_reaches(y - self.pos.1, self.items@.len());
            let n = choose|n: int| 0 <= n < self.items@.len() && #[trigger] self.top(n as nat) <= y - self.pos.1
                < self.top((n + 1) as nat);
            assert(self.on_row(n, x, y));
        }
        assert forall|a: int| #[trigger] self.on_row(a, x, y) implies self.covers(x, y) by {
            self.lemma_tops_ascend(0, a as nat);
            self.lemma_tops_ascend((a + 1) as nat, self.items@.len());
        }
        assert forall|a: int, b: int| self.on_row(a, x, y) && self.on_row(b, x, y) implies a == b by {
            if a < b {
                self.lemma_tops_ascend((a + 1) as nat, b as nat);
            } else if b < a {
                self.lemma_tops_ascend((b + 1) as nat, a as nat);
            }
        }
    }

    /// Every distance above the top of row `n` lies on an earlier row.
    proof fn lemma_reaches(self, down: int, n: nat)
        requires
            0 <= down < self.top(n),
            n <= self.items@.len(),
        ensures
            exists|k: int| 0 <= k < n && #[trigger] self.top(k as nat) <= down < self.top((k + 1) as nat),
        decreases n,
    {
        let last = (n - 1) as nat;
        if down < self.top(last) {
            self.lemma_reaches(down, last);
        } else {
            assert(self.top(last) <= down < self.top((last + 1) as nat));
        }
    }
}

/// What a window's menu offers: first to minimize it, to maximize or restore it
/// and to make it fullscreen or no longer, then to let it float where it is
/// tiled, and to keep it on top. Its last row closes the window.
pub proof fn lemma_menu_offers(s: State, id: u64)
    ensures
        ({
            let w = s.windows[id];
            let rows = s.menu_rows(id);
            let tiled = s.workspace_exists(w.workspace) && s.workspace_with(w.workspace).layout == "tiling"@;
            let pin = if tiled { 4int } else { 3 };
            &&& rows.len() > 5
            &&& rows[0] == ("Minimize"@, MenuAction::Minimize)
            &&& rows[1] == (if w.maximized { "Restore"@ } else { "Maximize"@ }, MenuAction::ToggleMaximize)
            &&& rows[2] == (if w.fullscreen { "Exit Fullscreen"@ } else { "Fullscreen"@ }, MenuAction::ToggleFullscreen)
            &&& tiled ==> rows[3].1 == MenuAction::ToggleFloating
            &&& tiled ==> rows[3].0 == (if w.floating { "\u{2713} Floating"@ } else { "Floating"@ })
            &&& rows[pin].1 == MenuAction::ToggleAlwaysOnTop
            &&& rows[pin].0 == (if w.always_on_top { "\u{2713} Always on Top"@ } else { "Always on Top"@ })
            &&& rows[rows.len() - 1] == ("Close"@, MenuAction::Close)
        }),
{
}

/// The menu ends with how the buttons look and on which side they are, as they
/// are now, under a heading, and with closing the window, set apart.
pub proof fn lemma_menu_ends(s: State, id: u64)
    ensures
        ({
            let rows = s.menu_rows(id);
            let n = rows.len() as int;
            &&& n >= 6
            &&& rows[n - 6] == (""@, MenuAction::Separator)
            &&& rows[n - 5] == ("Customize"@, MenuAction::Header)
            &&& rows[n - 4].1 == MenuAction::CycleButtonStyle && rows[n - 3].1 == MenuAction::CycleButtonSide
            &&& s.settings.theme.traffic_light_buttons ==> rows[n - 4].0 == "Button Style: Traffic Lights"@
            &&& !s.settings.theme.traffic_light_buttons ==> rows[n - 4].0 == "Button Style: Traditional"@
            &&& s.settings.theme.buttons_left ==> rows[n - 3].0 == "Button Side: Left"@
            &&& !s.settings.theme.buttons_left ==> rows[n - 3].0 == "Button Side: Right"@
            &&& rows[n - 2] == (""@, MenuAction::Separator)
            &&& rows[n - 1] == ("Close"@, MenuAction::Close)
        }),
{
}

/// Where there is another workspace, the rows that move the window there come
/// under a heading of their own, and where there is none, no such row does.
pub proof fn lemma_menu_heads_moves(s: State, id: u64, k: int)
    ensures
        ({
            let rows = s.menu_rows(id);
            let w = s.windows[id];
            let at = if s.workspace_exists(w.workspace) && s.workspace_with(w.workspace).layout == "tiling"@ { 5int } else { 4 };
            &&& (0 <= k < s.workspaces.len() && s.workspaces[k].id != w.workspace) ==> rows[at] == (
                ""@,
                MenuAction::Separator,
            ) && rows[at + 1] == ("Move to Workspace"@, MenuAction::Header)
            &&& (forall|i: int| 0 <= i < s.workspaces.len() ==> (#[trigger] s.workspaces[i]).id == w.workspace)
                ==> rows.len() == at + 6
        }),
{
    let to = others(s.workspaces, s.windows[id].workspace);
    if 0 <= k < s.workspaces.len() && s.workspaces[k].id != s.windows[id].workspace {
        s.workspaces.lemma_filter_contains(elsewhere(s.windows[id].workspace), k);
        assert(to.contains(s.workspaces[k]));
    }
    if forall|i: int| 0 <= i < s.workspaces.len() ==> (#[trigger] s.workspaces[i]).id == s.windows[id].workspace {
        if to.len() > 0 {
            s.workspaces.lemma_filter_pred(elsewhere(s.windows[id].workspace), 0);
            s.workspaces.lemma_filter_contains_rev(elsewhere(s.windows[id].workspace), to[0]);
        }
    }
}

/// The menu offers to move the window to each workspace but its own, under the
/// workspace's name: the row that does.
pub proof fn lemma_menu_moves_to(s: State, id: u64, k: int) -> (n: int)
    requires
        0 <= k < s.workspaces.len(),
        s.workspaces[k].id != s.windows[id].workspace,
    ensures
        0 <= n < s.menu_rows(id).len(),
        s.menu_rows(id)[n] == (s.workspaces[k].name, MenuAction::MoveToWorkspace(s.workspaces[k].id)),
{
    let own = s.windows[id].workspace;
    let to = others(s.workspaces, own);
    s.workspaces.lemma_filter_contains(elsewhere(own), k);
    let j = choose|j: int| 0 <= j < to.len() && to[j] == s.workspaces[k];
    let first = s.window_rows(id).len() as int;
    assert(s.workspace_rows(id)[2 + j] == move_rows(to)[j]);
    first + 2 + j
}

impl ContextMenu {
    /// Rows follow one another downwards from the top of the menu, each as high
    /// as its kind is: a separator 9, a header 22, any other what the menu says.
    pub proof fn lemma_rows_follow(self, n: int)
        requires
            0 <= n < self.items@.len(),
        ensures
            self.top(0) == 0,
            self.top((n + 1) as nat) == self.top(n as nat) + (if self.items@[n].1 is Separator {
                9
            } else if self.items@[n].1 is Header {
                22
            } else {
                self.row_height as int
            }),
    {
    }
}

} // verus!
