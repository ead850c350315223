//! Smart window placement: a grid cell where one is free, a diagonal cascade
//! otherwise, and snapping to the edges of the screen for drags.
use crate::geometry::{int_max, int_min, Rect};
use crate::monitor::Monitor;
use crate::num::{
    as_signed, div_toward_zero, read_signed, rem_toward_zero, remainder_toward_zero,
};
use vstd::prelude::*;

verus! {

pub const MIN_WINDOW_WIDTH: u32 = 200;

pub const MIN_WINDOW_HEIGHT: u32 = 150;

/// How close to a monitor's top edge the drag pointer has to get before the
/// snap-layouts flyout drops down, in logical pixels. It measures the pointer
/// and only offers a menu, so it is wider than
/// [`PlacementConfig::snap_threshold`], which measures the dragged window.
pub const SNAP_FLYOUT_EDGE: i32 = 12;

#[derive(Debug, Clone, Copy, PartialEq, Eq, Structural)]
pub struct PlacementConfig {
    pub grid_margin: u32,
    pub cascade_offset: i32,
    /// How close (in logical pixels) an edge of a dragged window has to end up
    /// to a monitor edge on release before [`SmartPlacement::snap_zone`] snaps.
    pub snap_threshold: i32,
    pub max_grid: u32,
}

impl Default for PlacementConfig {
    fn default() -> (r: Self)
        ensures
            r == (PlacementConfig { grid_margin: 10, cascade_offset: 30, snap_threshold: 8, max_grid: 4 }),
    {
        PlacementConfig { grid_margin: 10, cascade_offset: 30, snap_threshold: 8, max_grid: 4 }
    }
}

/// The six fixed screen positions offered by the snap-layouts flyout.
#[derive(Debug, Clone, Copy, PartialEq, Eq, Structural)]
pub enum SnapZoneKind {
    LeftHalf,
    RightHalf,
    TopLeftQuarter,
    TopRightQuarter,
    BottomLeftQuarter,
    BottomRightQuarter,
}

impl SnapZoneKind {
    /// The rect that the zone is on `area`.
    pub open spec fn zone(self, area: Rect) -> Rect {
        let half_w = area.width / 2;
        let half_h = area.height / 2;
        let middle_x = (area.x + half_w) as i32;
        let middle_y = (area.y + half_h) as i32;
        match self {
            SnapZoneKind::LeftHalf => Rect { x: area.x, y: area.y, width: half_w, height: area.height },
            SnapZoneKind::RightHalf => Rect { x: middle_x, y: area.y, width: half_w, height: area.height },
            SnapZoneKind::TopLeftQuarter => Rect { x: area.x, y: area.y, width: half_w, height: half_h },
            SnapZoneKind::TopRightQuarter => Rect { x: middle_x, y: area.y, width: half_w, height: half_h },
            SnapZoneKind::BottomLeftQuarter => Rect { x: area.x, y: middle_y, width: half_w, height: half_h },
            SnapZoneKind::BottomRightQuarter => Rect { x: middle_x, y: middle_y, width: half_w, height: half_h },
        }
    }

    /// The zones, in the grid order that the flyout lays its cells out in.
    pub fn all() -> (r: [SnapZoneKind; 6])
        ensures
            r@ == seq![
                SnapZoneKind::LeftHalf,
                SnapZoneKind::RightHalf,
                SnapZoneKind::TopLeftQuarter,
                SnapZoneKind::TopRightQuarter,
                SnapZoneKind::BottomLeftQuarter,
                SnapZoneKind::BottomRightQuarter,
            ],
    {
        [
            SnapZoneKind::LeftHalf,
            SnapZoneKind::RightHalf,
            SnapZoneKind::TopLeftQuarter,
            SnapZoneKind::TopRightQuarter,
            SnapZoneKind::BottomLeftQuarter,
            SnapZoneKind::BottomRightQuarter,
        ]
    }

    pub fn label(self) -> (r: &'static str)
        ensures
            r@ == (match self {
                SnapZoneKind::LeftHalf => "Left Half"@,
                SnapZoneKind::RightHalf => "Right Half"@,
                SnapZoneKind::TopLeftQuarter => "Top Left"@,
                SnapZoneKind::TopRightQuarter => "Top Right"@,
                SnapZoneKind::BottomLeftQuarter => "Bottom Left"@,
                SnapZoneKind::BottomRightQuarter => "Bottom Right"@,
            }),
    {
        match self {
            SnapZoneKind::LeftHalf => "Left Half",
            SnapZoneKind::RightHalf => "Right Half",
            SnapZoneKind::TopLeftQuarter => "Top Left",
            SnapZoneKind::TopRightQuarter => "Top Right",
            SnapZoneKind::BottomLeftQuarter => "Bottom Left",
            SnapZoneKind::BottomRightQuarter => "Bottom Right",
        }
    }

    /// The rect this zone resolves to on `area`, a monitor's usable area.
    pub fn rect(self, area: Rect) -> (r: Rect)
        requires
            area.fits(),
        ensures
            r == self.zone(area),
            r.within(area),
            r.fits(),
    {
        let half_w: u32 = area.width / 2;
        let half_h: u32 = area.height / 2;
        let middle_x: i32 = (area.x as i64 + half_w as i64) as i32;
        let middle_y: i32 = (area.y as i64 + half_h as i64) as i32;
        match self {
            SnapZoneKind::LeftHalf => Rect::new(area.x, area.y, half_w, area.height),
            SnapZoneKind::RightHalf => Rect::new(middle_x, area.y, half_w, area.height),
            SnapZoneKind::TopLeftQuarter => Rect::new(area.x, area.y, half_w, half_h),
            SnapZoneKind::TopRightQuarter => Rect::new(middle_x, area.y, half_w, half_h),
            SnapZoneKind::BottomLeftQuarter => Rect::new(area.x, middle_y, half_w, half_h),
            SnapZoneKind::BottomRightQuarter => Rect::new(middle_x, middle_y, half_w, half_h),
        }
    }
}

/// Where a `width` x `height` rect stands centred in `area`.
pub open spec fn centre_of(area: Rect, width: u32, height: u32) -> Rect {
    Rect {
        x: int_max(area.x + div_toward_zero(area.width - width, 2), area.x as int) as i32,
        y: int_max(area.y + div_toward_zero(area.height - height, 2), area.y as int) as i32,
        width,
        height,
    }
}

/// A `width` x `height` rect centred in `area`, clamped so it never starts
/// outside `area` even when it is larger than it. A one-pixel remainder goes
/// to the bottom right.
pub fn centered_in(area: Rect, width: u32, height: u32) -> (r: Rect)
    requires
        area.fits(),
    ensures
        r == centre_of(area, width, height),
{
    let x: i32 = if width <= area.width {
        (area.x as i64 + ((area.width - width) / 2) as i64) as i32
    } else {
        area.x
    };
    let y: i32 = if height <= area.height {
        (area.y as i64 + ((area.height - height) / 2) as i64) as i32
    } else {
        area.y
    };
    Rect::new(x, y, width, height)
}

/// Where `(x, y)` goes, for a rect of `width` x `height`, to lie inside `area`.
pub open spec fn slid_into(x: int, y: int, width: u32, height: u32, area: Rect) -> Rect {
    let w = int_min(width as int, area.width as int);
    let h = int_min(height as int, area.height as int);
    Rect {
        x: int_max(area.x as int, int_min(x, area.right_edge() - w)) as i32,
        y: int_max(area.y as int, int_min(y, area.bottom_edge() - h)) as i32,
        width: w as u32,
        height: h as u32,
    }
}

/// Moves `rect` so it sits inside `area` where it can, shrinking it only if it
/// is genuinely larger than `area`. Position is corrected before size.
pub fn clamp_into(rect: Rect, area: Rect) -> (r: Rect)
    requires
        area.fits(),
    ensures
        r == slid_into(rect.x as int, rect.y as int, rect.width, rect.height, area),
        r.within(area),
        r.fits(),
{
    clamp_at(rect.x as i64, rect.y as i64, rect.width, rect.height, area)
}

/// [`clamp_into`] for an origin that may lie outside of the coordinates.
fn clamp_at(x: i64, y: i64, width: u32, height: u32, area: Rect) -> (r: Rect)
    requires
        area.fits(),
    ensures
        r == slid_into(x as int, y as int, width, height, area),
        r.within(area),
        r.fits(),
{
    let w: u32 = if width <= area.width { width } else { area.width };
    let h: u32 = if height <= area.height { height } else { area.height };
    let last_x: i64 = area.right_wide() - w as i64;
    let last_y: i64 = area.bottom_wide() - h as i64;
    let x: i64 = if x <= last_x { x } else { last_x };
    let y: i64 = if y <= last_y { y } else { last_y };
    Rect::new(
        (if x >= area.x as i64 { x } else { area.x as i64 }) as i32,
        (if y >= area.y as i64 { y } else { area.y as i64 }) as i32,
        w,
        h,
    )
}

/// The least side, from `g` on, of a square grid with `count` cells, and no
/// more than `max`.
pub open spec fn grid_side(count: int, g: int, max: int) -> int
    decreases max - g,
{
    if g >= max || g * g >= count {
        g
    } else {
        grid_side(count, g + 1, max)
    }
}

/// A division of a usable area into equal cells with margins between them.
pub struct Grid {
    pub area: Rect,
    pub side: u32,
    pub margin: u32,
}

impl Grid {
    pub open spec fn margins(self) -> int {
        self.margin * (self.side + 1)
    }

    pub open spec fn cell_width(self) -> int {
        (self.area.width - self.margins()) / self.side as int
    }

    pub open spec fn cell_height(self) -> int {
        (self.area.height - self.margins()) / self.side as int
    }

    /// Whether the cells are large enough for windows.
    pub open spec fn usable(self) -> bool {
        self.side > 0 && self.area.width > self.margins() && self.area.height > self.margins()
            && self.cell_width() >= MIN_WINDOW_WIDTH && self.cell_height() >= MIN_WINDOW_HEIGHT
    }

    /// Cell number `k`, in reading order.
    pub open spec fn cell(self, k: int) -> Rect {
        Rect {
            x: (self.area.x + self.margin + (k % self.side as int) * (self.cell_width() + self.margin)) as i32,
            y: (self.area.y + self.margin + (k / self.side as int) * (self.cell_height() + self.margin)) as i32,
            width: self.cell_width() as u32,
            height: self.cell_height() as u32,
        }
    }

    /// Whether no rect of `existing` overlaps cell `k`.
    pub open spec fn free(self, existing: Seq<Rect>, k: int) -> bool {
        forall|i: int| 0 <= i < existing.len() ==> !(#[trigger] existing[i]).meets(self.cell(k))
    }

    /// The first free cell, counting round from `start + offset`.
    pub open spec fn first_free(self, existing: Seq<Rect>, start: int, offset: int) -> Option<int>
        decreases self.side * self.side - offset,
    {
        let cells = self.side * self.side;
        if offset >= cells {
            None
        } else if self.free(existing, (start + offset) % cells) {
            Some((start + offset) % cells)
        } else {
            self.first_free(existing, start, offset + 1)
        }
    }
}

/// Whether a rect and each of `existing` are side by side, or one above the
/// other.
pub open spec fn clear_of(c: Rect, existing: Seq<Rect>) -> bool {
    forall|i: int|
        0 <= i < existing.len() ==> {
            let e = #[trigger] existing[i];
            e.x + e.width <= c.x || c.x + c.width <= e.x || e.y + e.height <= c.y || c.y + c.height <= e.y
        }
}

/// The grid that is tried for one more window beside `existing` ones.
pub open spec fn grid_for(area: Rect, existing: Seq<Rect>, cfg: PlacementConfig) -> Grid {
    Grid { area, side: grid_side(existing.len() as int + 1, 1, cfg.max_grid as int) as u32, margin: cfg.grid_margin }
}

/// Where the grid puts a window, if a cell is free.
pub open spec fn grid_place(
    area: Rect,
    existing: Seq<Rect>,
    size: (u32, u32),
    cfg: PlacementConfig,
    step: u32,
) -> Option<Rect> {
    let grid = grid_for(area, existing, cfg);
    if !grid.usable() {
        None
    } else {
        match grid.first_free(existing, step as int % (grid.side * grid.side), 0) {
            Some(k) => Some(slid_into(grid.cell(k).x as int, grid.cell(k).y as int, size.0, size.1, area)),
            None => None,
        }
    }
}

/// How many steps a cascade takes before it starts over.
pub open spec fn cascade_steps(area: Rect, size: (u32, u32), offset: i32) -> int {
    let by = int_max(offset as int, 1);
    let x = (area.width - int_min(size.0 as int, area.width as int)) / by;
    let y = (area.height - int_min(size.1 as int, area.height as int)) / by;
    int_max(int_min(x, y), 1)
}

/// Where the cascade puts a window.
pub open spec fn cascade_place(area: Rect, size: (u32, u32), cfg: PlacementConfig, step: u32) -> Rect {
    let s = rem_toward_zero(as_signed(step), cascade_steps(area, size, cfg.cascade_offset));
    let by = cfg.cascade_offset + s * cfg.cascade_offset;
    slid_into(area.x + by, area.y + by, size.0, size.1, area)
}

/// Where a new window goes beside `existing` ones.
pub open spec fn placed(
    area: Rect,
    existing: Seq<Rect>,
    size: (u32, u32),
    cfg: PlacementConfig,
    step: u32,
) -> Rect {
    if existing.len() == 0 {
        cascade_place(area, size, cfg, step)
    } else {
        match grid_place(area, existing, size, cfg, step) {
            Some(r) => r,
            None => cascade_place(area, size, cfg, step),
        }
    }
}

pub open spec fn near(a: int, b: int, threshold: int) -> bool {
    -threshold <= a - b <= threshold
}

/// The zone that a window at `dragged` snaps to on `area`, if any.
pub open spec fn snap_target(dragged: Rect, area: Rect, threshold: int) -> Option<Rect> {
    let left = near(dragged.x as int, area.x as int, threshold);
    let right = near(area.right_edge(), dragged.right_edge(), threshold);
    let top = near(dragged.y as int, area.y as int, threshold);
    let bottom = near(area.bottom_edge(), dragged.bottom_edge(), threshold);
    if left && !right && top && !bottom {
        Some(SnapZoneKind::TopLeftQuarter.zone(area))
    } else if !left && right && top && !bottom {
        Some(SnapZoneKind::TopRightQuarter.zone(area))
    } else if left && !right && !top && bottom {
        Some(SnapZoneKind::BottomLeftQuarter.zone(area))
    } else if !left && right && !top && bottom {
        Some(SnapZoneKind::BottomRightQuarter.zone(area))
    } else if left && !right && !top && !bottom {
        Some(SnapZoneKind::LeftHalf.zone(area))
    } else if !left && right && !top && !bottom {
        Some(SnapZoneKind::RightHalf.zone(area))
    } else if !left && !right && top && !bottom {
        Some(area)
    } else {
        None
    }
}

pub struct SmartPlacement;

impl SmartPlacement {
    /// Places a new window of `size` given the geometries of windows already
    /// occupying `monitor`: in a free grid cell, falling back to the cascade.
    /// `cascade_step` is a counter that the caller keeps increasing.
    ///
    /// With nothing else open there is no space to divide, so the cascade is
    /// used right away: a grid of one cell could never vary.
    pub fn place(
        monitor: &Monitor,
        existing: &[Rect],
        size: (u32, u32),
        cfg: &PlacementConfig,
        cascade_step: u32,
    ) -> (r: Rect)
        requires
            monitor.geometry.fits(),
            existing@.len() == 0 || cfg.max_grid >= 1,
        ensures
            r == placed(monitor.geometry, existing@, size, *cfg, cascade_step),
            r.within(monitor.geometry),
            r.width == int_min(size.0 as int, monitor.geometry.width as int),
            r.height == int_min(size.1 as int, monitor.geometry.height as int),
            r.fits(),
            // Where a cell of the grid is free of all windows, the new one has
            // its corner at that of such a cell, as far as its size lets it.
            forall|j: int|
                existing@.len() > 0 && grid_for(monitor.geometry, existing@, *cfg).usable() && 0 <= j < grid_for(
                    monitor.geometry,
                    existing@,
                    *cfg,
                ).side * grid_for(monitor.geometry, existing@, *cfg).side && clear_of(
                    #[trigger] grid_for(monitor.geometry, existing@, *cfg).cell(j),
                    existing@,
                ) ==> exists|k: int| {
                    let c = #[trigger] grid_for(monitor.geometry, existing@, *cfg).cell(k);
                    &&& forall|i: int|
                        0 <= i < existing@.len() ==> {
                            let e = #[trigger] existing@[i];
                            e.x + e.width <= c.x || c.x + c.width <= e.x || e.y + e.height <= c.y || c.y + c.height
                                <= e.y
                        }
                    &&& r.x == c.x || c.x + size.0 > monitor.geometry.x + monitor.geometry.width
                    &&& r.y == c.y || c.y + size.1 > monitor.geometry.y + monitor.geometry.height
                },
    {
        let r: Rect = Self::place_new(monitor, existing, size, cfg, cascade_step);
        proof {
            let area = monitor.geometry;
            let grid = grid_for(area, existing@, *cfg);
            assert forall|j: int|
                existing@.len() > 0 && grid.usable() && 0 <= j < grid.side * grid.side && clear_of(
                    #[trigger] grid.cell(j),
                    existing@,
                ) implies exists|k: int| {
                let c = #[trigger] grid.cell(k);
                &&& forall|i: int|
                    0 <= i < existing@.len() ==> {
                        let e = #[trigger] existing@[i];
                        e.x + e.width <= c.x || c.x + c.width <= e.x || e.y + e.height <= c.y || c.y + c.height <= e.y
                    }
                &&& r.x == c.x || c.x + size.0 > area.x + area.width
                &&& r.y == c.y || c.y + size.1 > area.y + area.height
            } by {
                let k = lemma_placed_beside(area, existing@, size, *cfg, cascade_step, j);
                let c = grid.cell(k);
            }
        }
        r
    }

    fn place_new(
        monitor: &Monitor,
        existing: &[Rect],
        size: (u32, u32),
        cfg: &PlacementConfig,
        cascade_step: u32,
    ) -> (r: Rect)
        requires
            monitor.geometry.fits(),
            existing@.len() == 0 || cfg.max_grid >= 1,
        ensures
            r == placed(monitor.geometry, existing@, size, *cfg, cascade_step),
            r.within(monitor.geometry),
            r.width == int_min(size.0 as int, monitor.geometry.width as int),
            r.height == int_min(size.1 as int, monitor.geometry.height as int),
            r.fits(),
    {
        if existing.len() == 0 {
            return Self::cascade(monitor, size, cfg, cascade_step);
        }
        match Self::grid(monitor, existing, size, cfg, cascade_step) {
            Some(r) => r,
            None => Self::cascade(monitor, size, cfg, cascade_step),
        }
    }

    fn grid(
        monitor: &Monitor,
        existing: &[Rect],
        size: (u32, u32),
        cfg: &PlacementConfig,
        cascade_step: u32,
    ) -> (r: Option<Rect>)
        requires
            monitor.geometry.fits(),
            cfg.max_grid >= 1,
        ensures
            r == grid_place(monitor.geometry, existing@, size, *cfg, cascade_step),
            r matches Some(p) ==> p.within(monitor.geometry) && p.fits() && p.width == int_min(
                size.0 as int,
                monitor.geometry.width as int,
            ) && p.height == int_min(size.1 as int, monitor.geometry.height as int),
    {
        let area = monitor.geometry;
        let count: u128 = existing.len() as u128 + 1;
        let mut side: u32 = 1;
        while side < cfg.max_grid && (side as u128) * (side as u128) < count
            invariant
                1 <= side <= cfg.max_grid,
                count == existing@.len() + 1,
                (side as int) * (side as int) <= 0xffff_ffff * 0xffff_ffff,
                grid_side(count as int, 1, cfg.max_grid as int) == grid_side(
                    count as int,
                    side as int,
                    cfg.max_grid as int,
                ),
            decreases cfg.max_grid - side,
        {
            side = side + 1;
            proof {
                assert((side as int) * (side as int) <= 0xffff_ffff * 0xffff_ffff) by (nonlinear_arith)
                    requires
                        0 <= side <= 0xffff_ffff,
                ;
            }
        }
        let ghost grid = Grid { area, side, margin: cfg.grid_margin };
        assert(grid == grid_for(area, existing@, *cfg));
        proof {
            assert(cfg.grid_margin * (side + 1) <= 0xffff_ffff * 0x1_0000_0000) by (nonlinear_arith)
                requires
                    0 <= cfg.grid_margin <= 0xffff_ffff,
                    0 <= side <= 0xffff_ffff,
            ;
            assert(cfg.grid_margin * (side + 1) >= 0) by (nonlinear_arith)
                requires
                    0 <= cfg.grid_margin,
                    0 <= side,
            ;
        }
        let margins: u64 = cfg.grid_margin as u64 * (side as u64 + 1);
        if area.width as u64 <= margins || area.height as u64 <= margins {
            return None;
        }
        let cell_w: u32 = (area.width as u64 - margins) as u32 / side;
        let cell_h: u32 = (area.height as u64 - margins) as u32 / side;
        if cell_w < MIN_WINDOW_WIDTH || cell_h < MIN_WINDOW_HEIGHT {
            return None;
        }
        proof {
            assert(0 < (side as int) * (side as int) <= 0xffff_ffff * 0xffff_ffff) by (nonlinear_arith)
                requires
                    0 < side <= 0xffff_ffff,
            ;
        }
        let cells: u64 = side as u64 * side as u64;
        let start: u64 = cascade_step as u64 % cells;
        proof {
            vstd::arithmetic::div_mod::lemma_mod_decreases(cascade_step as nat, cells as nat);
        }
        let mut offset: u64 = 0;
        while offset < cells
            invariant
                area == monitor.geometry,
                area.fits(),
                grid == grid_for(area, existing@, *cfg),
                grid.usable(),
                grid == (Grid { area, side, margin: cfg.grid_margin }),
                side > 0,
                cell_w == grid.cell_width(),
                cell_h == grid.cell_height(),
                cells == side * side,
                0 < cells <= 0xffff_ffff * 0xffff_ffff,
                start == cascade_step as int % cells as int,
                start < cells,
                start <= 0xffff_ffff,
                offset <= cells,
                grid.first_free(existing@, start as int, 0) == grid.first_free(
                    existing@,
                    start as int,
                    offset as int,
                ),
            decreases cells - offset,
        {
            let cell: u64 = (start + offset) % cells;
            let gx: u64 = cell % side as u64;
            let gy: u64 = cell / side as u64;
            proof {
                lemma_cell_in_area(grid, cell as int);
            }
            let x: i32 = (area.x as i64 + cfg.grid_margin as i64 + (gx * (cell_w as u64 + cfg.grid_margin as u64)) as i64) as i32;
            let y: i32 = (area.y as i64 + cfg.grid_margin as i64 + (gy * (cell_h as u64 + cfg.grid_margin as u64)) as i64) as i32;
            let candidate = Rect::new(x, y, cell_w, cell_h);
            assert(candidate == grid.cell(cell as int));
            if all_clear(existing, &candidate) {
                // The cell decides where the window goes, not how large it is.
                return Some(clamp_into(Rect::new(x, y, size.0, size.1), area));
            }
            offset = offset + 1;
        }
        None
    }

    /// Diagonal cascade, stepping by `cascade_offset` per window opened so far
    /// and wrapping back to the origin once it would run off the monitor.
    ///
    /// Driven by a counter that survives a window closing, so that the next
    /// window does not open in the spot of the one before.
    pub fn cascade(monitor: &Monitor, size: (u32, u32), cfg: &PlacementConfig, cascade_step: u32) -> (r: Rect)
        requires
            monitor.geometry.fits(),
        ensures
            r == cascade_place(monitor.geometry, size, *cfg, cascade_step),
            r.within(monitor.geometry),
            r.width == int_min(size.0 as int, monitor.geometry.width as int),
            r.height == int_min(size.1 as int, monitor.geometry.height as int),
            r.fits(),
    {
        let area = monitor.geometry;
        let width: u32 = if size.0 <= area.width { size.0 } else { area.width };
        let height: u32 = if size.1 <= area.height { size.1 } else { area.height };
        let by: u32 = if cfg.cascade_offset >= 1 { cfg.cascade_offset as u32 } else { 1 };
        let max_x: u32 = (area.width - width) / by;
        let max_y: u32 = (area.height - height) / by;
        let fewest: u32 = if max_x <= max_y { max_x } else { max_y };
        let max_steps: u32 = if fewest >= 1 { fewest } else { 1 };
        let step: i64 = remainder_toward_zero(read_signed(cascade_step), max_steps as i64);
        proof {
            let signed = as_signed(cascade_step);
            let distance = if signed >= 0 { signed } else { -signed };
            vstd::arithmetic::div_mod::lemma_mod_decreases(distance as nat, max_steps as nat);
            assert(-0x4000_0000_0000_0000 <= step * cfg.cascade_offset <= 0x4000_0000_0000_0000) by (nonlinear_arith)
                requires
                    -0x8000_0000 <= step <= 0x8000_0000,
                    -0x8000_0000 <= cfg.cascade_offset <= 0x7fff_ffff,
            ;
        }
        let along: i64 = cfg.cascade_offset as i64 + step * cfg.cascade_offset as i64;
        clamp_at(area.x as i64 + along, area.y as i64 + along, size.0, size.1, area)
    }

    /// Given a window being dragged (its live geometry) and the monitor it's
    /// on, returns the snap zone it should resize to if it's within
    /// `snap_threshold` pixels of a screen edge or corner, or `None` if it's
    /// not near any snap zone.
    pub fn snap_zone(dragged: Rect, monitor: &Monitor, cfg: &PlacementConfig) -> (r: Option<Rect>)
        requires
            monitor.geometry.fits(),
        ensures
            r == snap_target(dragged, monitor.geometry, cfg.snap_threshold as int),
            r matches Some(zone) ==> zone.within(monitor.geometry) && zone.fits(),
            // Each edge that the window was near to is an edge of the zone.
            ({
                let area = monitor.geometry;
                let t = cfg.snap_threshold;
                let left = -t <= dragged.x - area.x <= t;
                let top = -t <= dragged.y - area.y <= t;
                let right = -t <= (dragged.x + dragged.width) - (area.x + area.width) <= t;
                let bottom = -t <= (dragged.y + dragged.height) - (area.y + area.height) <= t;
                match r {
                    Some(z) => {
                        &&& left ==> z.x == area.x && z.width == area.width / 2
                        &&& right ==> z.x == area.x + area.width / 2 && z.width == area.width / 2
                        &&& !left && !right ==> z == area
                        &&& (left || right) && top ==> z.y == area.y && z.height == area.height / 2
                        &&& bottom ==> z.y == area.y + area.height / 2 && z.height == area.height / 2
                        &&& !top && !bottom ==> z.y == area.y && z.height == area.height
                    },
                    None => !left && !right && !top || left && right || top && bottom,
                }
            }),
    {
        let area = monitor.geometry;
        let t: i64 = cfg.snap_threshold as i64;
        let left: bool = is_near(dragged.x as i64, area.x as i64, t);
        let right: bool = is_near(area.right_wide(), dragged.right_wide(), t);
        let top: bool = is_near(dragged.y as i64, area.y as i64, t);
        let bottom: bool = is_near(area.bottom_wide(), dragged.bottom_wide(), t);
        match (left, right, top, bottom) {
            (true, false, true, false) => Some(SnapZoneKind::TopLeftQuarter.rect(area)),
            (false, true, true, false) => Some(SnapZoneKind::TopRightQuarter.rect(area)),
            (true, false, false, true) => Some(SnapZoneKind::BottomLeftQuarter.rect(area)),
            (false, true, false, true) => Some(SnapZoneKind::BottomRightQuarter.rect(area)),
            (true, false, false, false) => Some(SnapZoneKind::LeftHalf.rect(area)),
            (false, true, false, false) => Some(SnapZoneKind::RightHalf.rect(area)),
            (false, false, true, false) => Some(area),
            _ => None,
        }
    }
}

fn is_near(a: i64, b: i64, threshold: i64) -> (r: bool)
    requires
        -0x2_0000_0000 <= a <= 0x2_0000_0000,
        -0x2_0000_0000 <= b <= 0x2_0000_0000,
        -0x8000_0000 <= threshold <= 0x7fff_ffff,
    ensures
        r == near(a as int, b as int, threshold as int),
{
    -threshold <= a - b && a - b <= threshold
}

/// Whether no rect of `existing` overlaps `candidate`.
fn all_clear(existing: &[Rect], candidate: &Rect) -> (r: bool)
    ensures
        r == (forall|i: int| 0 <= i < existing@.len() ==> !(#[trigger] existing@[i]).meets(*candidate)),
{
    let mut i: usize = 0;
    while i < existing.len()
        invariant
            i <= existing.len(),
            forall|k: int| 0 <= k < i ==> !(#[trigger] existing@[k]).meets(*candidate),
        decreases existing.len() - i,
    {
        if existing[i].overlaps(candidate) {
            return false;
        }
        i = i + 1;
    }
    true
}

/// The cells of a usable grid lie inside its area.
pub proof fn lemma_cell_in_area(grid: Grid, k: int)
    requires
        grid.area.fits(),
        grid.usable(),
        0 <= k < grid.side * grid.side,
    ensures
        0 <= k % grid.side as int,
        k % (grid.side as int) < grid.side,
        0 <= k / grid.side as int,
        k / (grid.side as int) < grid.side,
        0 <= (k % grid.side as int) * (grid.cell_width() + grid.margin) <= grid.area.width,
        0 <= (k / grid.side as int) * (grid.cell_height() + grid.margin) <= grid.area.height,
        grid.cell(k).x == grid.area.x + grid.margin + (k % grid.side as int) * (grid.cell_width() + grid.margin),
        grid.cell(k).y == grid.area.y + grid.margin + (k / grid.side as int) * (grid.cell_height() + grid.margin),
        grid.cell(k).within(grid.area),
{
    let side = grid.side as int;
    let gx = k % side;
    let gy = k / side;
    let m = grid.margin as int;
    assert(gy < side) by (nonlinear_arith)
        requires
            gy == k / side,
            k < side * side,
            side > 0,
    ;
    assert(gy >= 0) by (nonlinear_arith)
        requires
            gy == k / side,
            k >= 0,
            side > 0,
    ;
    lemma_column(grid.area.width as int, side, m, gx);
    lemma_column(grid.area.height as int, side, m, gy);
}

proof fn lemma_column(total: int, side: int, m: int, g: int)
    requires
        side > 0,
        0 <= g < side,
        m >= 0,
        total > m * (side + 1),
    ensures
        ({
            let cell = (total - m * (side + 1)) / side;
            &&& 0 <= g * (cell + m)
            &&& m + g * (cell + m) + cell <= total
        }),
{
    let cell = (total - m * (side + 1)) / side;
    assert(cell >= 0 && side * cell <= total - m * (side + 1)) by (nonlinear_arith)
        requires
            side > 0,
            total > m * (side + 1),
            cell == (total - m * (side + 1)) / side,
    ;
    assert(0 <= g * (cell + m)) by (nonlinear_arith)
        requires
            g >= 0,
            cell >= 0,
            m >= 0,
    ;
    assert((g + 1) * (cell + m) <= side * (cell + m)) by (nonlinear_arith)
        requires
            g + 1 <= side,
            cell >= 0,
            m >= 0,
    ;
    assert((g + 1) * (cell + m) == g * (cell + m) + cell + m) by (nonlinear_arith);
    assert(side * (cell + m) == side * cell + side * m) by (nonlinear_arith);
    assert(m * (side + 1) == side * m + m) by (nonlinear_arith);
}

/// The four quarters of an area of even sides do not overlap and cover it.
pub proof fn lemma_quarters_tile(area: Rect)
    requires
        area.fits(),
        area.width % 2 == 0,
        area.height % 2 == 0,
    ensures
        ({
            let tl = SnapZoneKind::TopLeftQuarter.zone(area);
            let tr = SnapZoneKind::TopRightQuarter.zone(area);
            let bl = SnapZoneKind::BottomLeftQuarter.zone(area);
            let br = SnapZoneKind::BottomRightQuarter.zone(area);
            &&& !tl.meets(tr) && !tl.meets(bl) && !tl.meets(br) && !tr.meets(bl) && !tr.meets(br) && !bl.meets(br)
            &&& forall|px: int, py: int|
                #[trigger] area.covers(px, py) <==> tl.covers(px, py) || tr.covers(px, py) || bl.covers(px, py)
                    || br.covers(px, py)
        }),
{
}

/// Two zones are the same rect only if they are the same zone, on an area that
/// is at least two pixels wide and high.
pub proof fn lemma_zones_differ(a: SnapZoneKind, b: SnapZoneKind, area: Rect)
    requires
        area.fits(),
        area.width >= 2,
        area.height >= 2,
        a != b,
    ensures
        a.zone(area) != b.zone(area),
{
}

/// Two windows opened one after the other with nothing else open start in
/// different spots, as long as the cascade has room for two steps.
pub proof fn lemma_cascade_moves_on(area: Rect, size: (u32, u32), cfg: PlacementConfig, step: u32)
    requires
        area.fits(),
        step < i32::MAX,
        cfg.cascade_offset > 0,
        cascade_steps(area, size, cfg.cascade_offset) >= 2,
    ensures
        placed(area, Seq::empty(), size, cfg, step) != placed(area, Seq::empty(), size, cfg, (step + 1) as u32),
{
    let n = cascade_steps(area, size, cfg.cascade_offset);
    let by = cfg.cascade_offset as int;
    let a = step as int % n;
    let b = (step + 1) % n;
    let room = area.width - int_min(size.0 as int, area.width as int);
    vstd::arithmetic::div_mod::lemma_fundamental_div_mod(step as int, n);
    vstd::arithmetic::div_mod::lemma_fundamental_div_mod(step + 1, n);
    let q = step as int / n;
    let p = (step + 1) / n;
    assert(n * p - n * q == n * (p - q)) by (nonlinear_arith);
    assert(a != b) by (nonlinear_arith)
        requires
            n * (p - q) == 1 + a - b,
            n >= 2,
    ;
    assert(n * by <= room) by (nonlinear_arith)
        requires
            n <= room / by,
            by > 0,
            room >= 0,
    ;
    assert(a * by >= 0 && b * by >= 0 && a * by <= room - by && b * by <= room - by) by (nonlinear_arith)
        requires
            0 <= a <= n - 1,
            0 <= b <= n - 1,
            by > 0,
            n * by <= room,
    ;
    assert(a * by != b * by) by (nonlinear_arith)
        requires
            a != b,
            by > 0,
    ;
}

// ---- What placement is for ---------------------------------------------------

/// The rest of the division by `c` of the way from `start` to `j`, and back.
proof fn lemma_way_round(c: int, start: int, j: int, o: int)
    requires
        c > 0,
        0 <= j < c,
        0 <= o < c,
    ensures
        0 <= (j - start) % c < c,
        (start + (j - start) % c) % c == j,
        ((start + o) % c - start) % c == o,
{
    vstd::arithmetic::div_mod::lemma_fundamental_div_mod(j - start, c);
    vstd::arithmetic::div_mod::lemma_mod_bound(j - start, c);
    let q = (j - start) / c;
    assert(start + (j - start) % c == c * (-q) + j) by (nonlinear_arith)
        requires
            j - start == c * q + (j - start) % c,
    ;
    vstd::arithmetic::div_mod::lemma_mod_multiples_vanish(-q, j, c);
    vstd::arithmetic::div_mod::lemma_small_mod(j as nat, c as nat);
    vstd::arithmetic::div_mod::lemma_fundamental_div_mod(start + o, c);
    let p = (start + o) / c;
    assert((start + o) % c - start == c * (-p) + o) by (nonlinear_arith)
        requires
            start + o == c * p + (start + o) % c,
    ;
    vstd::arithmetic::div_mod::lemma_mod_multiples_vanish(-p, o, c);
    vstd::arithmetic::div_mod::lemma_small_mod(o as nat, c as nat);
}

/// The first free cell is free, and no free cell comes before it.
proof fn lemma_first_free(grid: Grid, existing: Seq<Rect>, start: int, offset: int)
    requires
        grid.side > 0,
        0 <= offset,
    ensures
        ({
            let cells = grid.side * grid.side;
            match grid.first_free(existing, start, offset) {
                Some(k) => 0 <= k < cells && grid.free(existing, k) && offset <= (k - start) % cells && forall|j: int|
                    0 <= j < cells && offset <= (j - start) % cells && #[trigger] grid.free(existing, j) ==> (k - start)
                        % cells <= (j - start) % cells,
                None => forall|j: int|
                    0 <= j < cells && #[trigger] grid.free(existing, j) ==> (j - start) % cells < offset,
            }
        }),
    decreases grid.side * grid.side - offset,
{
    let cells = grid.side * grid.side;
    assert(cells > 0) by (nonlinear_arith)
        requires
            cells == grid.side * grid.side,
            grid.side > 0,
    ;
    if offset >= cells {
        assert forall|j: int| 0 <= j < cells && #[trigger] grid.free(existing, j) implies (j - start) % cells < offset by {
            lemma_way_round(cells, start, j, 0);
        }
    } else {
        let here = (start + offset) % cells;
        vstd::arithmetic::div_mod::lemma_mod_bound(start + offset, cells);
        lemma_way_round(cells, start, here, offset);
        if !grid.free(existing, here) {
            lemma_first_free(grid, existing, start, offset + 1);
            assert forall|j: int|
                0 <= j < cells && offset <= (j - start) % cells && #[trigger] grid.free(existing, j) implies offset + 1
                <= (j - start) % cells by {
                lemma_way_round(cells, start, j, offset);
            }
            if grid.first_free(existing, start, offset + 1) is None {
                assert forall|j: int| 0 <= j < cells && #[trigger] grid.free(existing, j) implies (j - start) % cells
                    < offset by {
                    lemma_way_round(cells, start, j, offset);
                }
            }
        }
    }
}

/// How far a cell is from the one that a step starts at does not depend on
/// how often the steps have gone round.
proof fn lemma_start_of(cells: int, step: int, j: int)
    requires
        cells > 0,
        step >= 0,
    ensures
        (j - step % cells) % cells == (j - step) % cells,
{
    vstd::arithmetic::div_mod::lemma_fundamental_div_mod(step, cells);
    let q = step / cells;
    assert(j - step % cells == cells * q + (j - step)) by (nonlinear_arith)
        requires
            step == cells * q + step % cells,
    ;
    vstd::arithmetic::div_mod::lemma_mod_multiples_vanish(q, j - step, cells);
}

/// The grid is the smallest square one with a cell for each open window and the
/// new one, as far as the configuration lets it grow.
pub proof fn lemma_grid_is_smallest(area: Rect, existing: Seq<Rect>, cfg: PlacementConfig)
    requires
        cfg.max_grid >= 1,
    ensures
        ({
            let side = grid_for(area, existing, cfg).side;
            &&& 1 <= side <= cfg.max_grid
            &&& side == cfg.max_grid || side * side >= existing.len() + 1
            &&& side == 1 || (side - 1) * (side - 1) < existing.len() + 1
        }),
{
    lemma_least_side(existing.len() as int + 1, 1, cfg.max_grid as int);
}

proof fn lemma_least_side(count: int, g: int, max: int)
    requires
        1 <= g <= max,
        g == 1 || (g - 1) * (g - 1) < count,
    ensures
        ({
            let side = grid_side(count, g, max);
            &&& g <= side <= max
            &&& side == max || side * side >= count
            &&& side == 1 || (side - 1) * (side - 1) < count
        }),
    decreases max - g,
{
    if !(g >= max || g * g >= count) {
        lemma_least_side(count, g + 1, max);
    }
}

/// Two sides that are the smallest for a number of cells are the same.
proof fn lemma_one_side(count: int, a: int, b: int, max: int)
    requires
        1 <= a <= max,
        1 <= b <= max,
        a == max || a * a >= count,
        b == max || b * b >= count,
        a == 1 || (a - 1) * (a - 1) < count,
        b == 1 || (b - 1) * (b - 1) < count,
    ensures
        a == b,
{
    if a < b {
        assert(a * a <= (b - 1) * (b - 1)) by (nonlinear_arith)
            requires
                1 <= a <= b - 1,
        ;
    }
    if b < a {
        assert(b * b <= (a - 1) * (a - 1)) by (nonlinear_arith)
            requires
                1 <= b <= a - 1,
        ;
    }
}

/// A quotient, said by products.
proof fn lemma_quotient(n: int, d: int, q: int)
    requires
        d > 0,
        d * q <= n < d * q + d,
    ensures
        n / d == q,
{
    assert(d * q == q * d) by (nonlinear_arith);
    vstd::arithmetic::div_mod::lemma_fundamental_div_mod_converse(n, d, q, n - q * d);
}

/// A new window that fits a cell of the grid covers none of the open windows, as
/// long as one cell is free of them.
///
/// The grid is given by its number of columns and rows `side`, the smallest with
/// a cell for each window, and by the size `w` x `h` of its cells, which fill the
/// area but for the margins. `col` and `row` are those of a cell with no point
/// in an open window.
pub proof fn lemma_placed_covers_nothing(
    area: Rect,
    existing: Seq<Rect>,
    size: (u32, u32),
    cfg: PlacementConfig,
    step: u32,
    side: int,
    w: int,
    h: int,
    col: int,
    row: int,
)
    requires
        area.fits(),
        existing.len() > 0,
        1 <= side <= cfg.max_grid,
        side == cfg.max_grid || side * side > existing.len(),
        side == 1 || (side - 1) * (side - 1) <= existing.len(),
        side * w + (side + 1) * cfg.grid_margin <= area.width < side * (w + 1) + (side + 1) * cfg.grid_margin,
        side * h + (side + 1) * cfg.grid_margin <= area.height < side * (h + 1) + (side + 1) * cfg.grid_margin,
        w >= 200,
        h >= 150,
        0 <= col < side,
        0 <= row < side,
        size.0 <= w,
        size.1 <= h,
        forall|i: int|
            0 <= i < existing.len() ==> {
                let e = #[trigger] existing[i];
                let x = area.x + cfg.grid_margin + col * (w + cfg.grid_margin);
                let y = area.y + cfg.grid_margin + row * (h + cfg.grid_margin);
                e.x + e.width <= x || x + w <= e.x || e.y + e.height <= y || y + h <= e.y
            },
    ensures
        ({
            let r = placed(area, existing, size, cfg, step);
            &&& r.width == size.0 && r.height == size.1
            &&& area.x <= r.x && r.x + r.width <= area.x + area.width
            &&& area.y <= r.y && r.y + r.height <= area.y + area.height
            &&& forall|i: int|
                0 <= i < existing.len() ==> {
                    let e = #[trigger] existing[i];
                    e.x + e.width <= r.x || r.x + r.width <= e.x || e.y + e.height <= r.y || r.y + r.height <= e.y
                }
        }),
{
    let grid = grid_for(area, existing, cfg);
    let m = cfg.grid_margin as int;
    lemma_grid_is_smallest(area, existing, cfg);
    lemma_one_side(existing.len() as int + 1, side, grid.side as int, cfg.max_grid as int);
    lemma_given_grid(grid, w, h);
    let j = row * side + col;
    assert(0 <= j < side * side && j % side == col && j / side == row) by {
        assert(0 <= row * side && row * side + side <= side * side) by (nonlinear_arith)
            requires
                0 <= row < side,
        ;
        assert(row * side == side * row) by (nonlinear_arith);
        vstd::arithmetic::div_mod::lemma_fundamental_div_mod_converse(j, side, row, col);
    }
    lemma_cell_in_area(grid, j);
    assert(grid.free(existing, j));
    let start = step as int % (grid.side * grid.side);
    lemma_first_free(grid, existing, start, 0);
    let k = grid.first_free(existing, start, 0)->Some_0;
    assert(grid.first_free(existing, start, 0) is Some) by {
        assert(side * side > 0) by (nonlinear_arith)
            requires
                side >= 1,
        ;
        vstd::arithmetic::div_mod::lemma_mod_bound(j - start, side * side);
    }
    lemma_cell_in_area(grid, k);
    let c = grid.cell(k);
    let r = placed(area, existing, size, cfg, step);
    assert(r.x == c.x && r.y == c.y);
    assert forall|i: int| 0 <= i < existing.len() implies {
        let e = #[trigger] existing[i];
        e.x + e.width <= r.x || r.x + r.width <= e.x || e.y + e.height <= r.y || r.y + r.height <= e.y
    } by {
        assert(!existing[i].meets(c));
    }
}

/// A grid whose cells are given by products.
proof fn lemma_given_grid(grid: Grid, w: int, h: int)
    requires
        grid.side > 0,
        grid.side * w + (grid.side + 1) * grid.margin <= grid.area.width < grid.side * (w + 1) + (grid.side + 1)
            * grid.margin,
        grid.side * h + (grid.side + 1) * grid.margin <= grid.area.height < grid.side * (h + 1) + (grid.side + 1)
            * grid.margin,
        w >= 200,
        h >= 150,
    ensures
        grid.usable(),
        grid.cell_width() == w,
        grid.cell_height() == h,
{
    let side = grid.side as int;
    let m = grid.margin as int;
    assert(m * (side + 1) == (side + 1) * m) by (nonlinear_arith);
    assert(side * (w + 1) == side * w + side && side * (h + 1) == side * h + side) by (nonlinear_arith);
    assert(side * w > 0 && side * h > 0) by (nonlinear_arith)
        requires
            side > 0,
            w >= 200,
            h >= 150,
    ;
    lemma_quotient(grid.area.width - grid.margins(), side, w);
    lemma_quotient(grid.area.height - grid.margins(), side, h);
}

/// A grid is used if its cells are at least 200 wide and 150 high. They start a
/// margin from the top left corner of the area, stand a margin apart in columns
/// and rows, and leave less than a pixel for each at the far ends.
pub proof fn lemma_grid_cells(grid: Grid, k: int)
    requires
        grid.area.fits(),
        grid.side > 0,
        0 <= k < grid.side * grid.side,
    ensures
        grid.usable() <==> grid.side * 200 + (grid.side + 1) * grid.margin <= grid.area.width && grid.side * 150 + (
        grid.side + 1) * grid.margin <= grid.area.height,
        grid.usable() ==> {
            let c = grid.cell(k);
            let side = grid.side as int;
            let m = grid.margin as int;
            &&& c.width >= 200 && c.height >= 150
            &&& side * c.width + (side + 1) * m <= grid.area.width < side * (c.width + 1) + (side + 1) * m
            &&& side * c.height + (side + 1) * m <= grid.area.height < side * (c.height + 1) + (side + 1) * m
            &&& k == 0 ==> c.x == grid.area.x + m && c.y == grid.area.y + m
            &&& (k + 1) % side != 0 ==> grid.cell(k + 1).x == c.x + c.width + m && grid.cell(k + 1).y == c.y
            &&& k + side < side * side ==> grid.cell(k + side).x == c.x && grid.cell(k + side).y == c.y + c.height + m
            &&& k + 1 < side * side && (k + 1) % side == 0 ==> grid.cell(k + 1).x == grid.area.x + m && grid.cell(
                k + 1,
            ).y == c.y + c.height + m
        },
{
    let side = grid.side as int;
    let m = grid.margin as int;
    let tw = grid.area.width - grid.margins();
    let th = grid.area.height - grid.margins();
    assert(m * (side + 1) == (side + 1) * m) by (nonlinear_arith);
    assert((side + 1) * m >= 0) by (nonlinear_arith)
        requires
            side > 0,
            m >= 0,
    ;
    vstd::arithmetic::div_mod::lemma_fundamental_div_mod(tw, side);
    vstd::arithmetic::div_mod::lemma_fundamental_div_mod(th, side);
    let w = grid.cell_width();
    let h = grid.cell_height();
    assert(side * w <= tw < side * w + side && side * h <= th < side * h + side);
    assert(side * (w + 1) == side * w + side && side * (h + 1) == side * h + side) by (nonlinear_arith);
    assert(w >= 200 <==> side * 200 <= tw) by (nonlinear_arith)
        requires
            side > 0,
            side * w <= tw < side * w + side,
    ;
    assert(h >= 150 <==> side * 150 <= th) by (nonlinear_arith)
        requires
            side > 0,
            side * h <= th < side * h + side,
    ;
    if grid.usable() {
        lemma_cell_in_area(grid, k);
        let col = k % side;
        let row = k / side;
        vstd::arithmetic::div_mod::lemma_fundamental_div_mod(k, side);
        assert(side * row == row * side) by (nonlinear_arith);
        assert((col + 1) * (w + m) == col * (w + m) + w + m) by (nonlinear_arith);
        assert((row + 1) * (h + m) == row * (h + m) + h + m) by (nonlinear_arith);
        assert((row + 1) * side == row * side + side) by (nonlinear_arith);
        if col + 1 < side {
            vstd::arithmetic::div_mod::lemma_fundamental_div_mod_converse(k + 1, side, row, col + 1);
            assert((row + 1) * side <= side * side) by (nonlinear_arith)
                requires
                    row + 1 <= side,
                    side > 0,
            ;
            lemma_cell_in_area(grid, k + 1);
        } else {
            vstd::arithmetic::div_mod::lemma_fundamental_div_mod_converse(k + 1, side, row + 1, 0);
            if k + 1 < side * side {
                lemma_cell_in_area(grid, k + 1);
                assert(0 * (w + m) == 0);
            }
        }
        if k + side < side * side {
            lemma_cell_in_area(grid, k + side);
            vstd::arithmetic::div_mod::lemma_fundamental_div_mod_converse(k + side, side, row + 1, col);
        }
        if k == 0 {
            vstd::arithmetic::div_mod::lemma_fundamental_div_mod_converse(0, side, 0, 0);
            assert(col == 0 && row == 0);
            assert(0 * (w + m) == 0 && 0 * (h + m) == 0);
        }
    }
}

/// Beside other windows, a new one has its corner at that of a free cell, moved
/// only as far as its size asks to stay on the monitor. It is the first free cell
/// counting round from the one that the step numbers. Where no cell is free, or
/// cells would be too small, the new window goes where it would go alone.
pub proof fn lemma_placed_beside(
    area: Rect,
    existing: Seq<Rect>,
    size: (u32, u32),
    cfg: PlacementConfig,
    step: u32,
    j: int,
) -> (k: int)
    requires
        area.fits(),
        existing.len() > 0,
        cfg.max_grid >= 1,
        0 <= j < grid_for(area, existing, cfg).side * grid_for(area, existing, cfg).side,
    ensures
        ({
            let grid = grid_for(area, existing, cfg);
            let cells = grid.side * grid.side;
            let r = placed(area, existing, size, cfg, step);
            let c = grid.cell(k);
            let free = forall|i: int|
                0 <= i < existing.len() ==> {
                    let e = #[trigger] existing[i];
                    e.x + e.width <= c.x || c.x + c.width <= e.x || e.y + e.height <= c.y || c.y + c.height <= e.y
                };
            let d = grid.cell(j);
            let other_free = forall|i: int|
                0 <= i < existing.len() ==> {
                    let e = #[trigger] existing[i];
                    e.x + e.width <= d.x || d.x + d.width <= e.x || e.y + e.height <= d.y || d.y + d.height <= e.y
                };
            &&& 0 <= k < cells
            &&& grid.usable() && other_free ==> free && (k - step) % cells <= (j - step) % cells
            &&& grid.usable() && free ==> {
                &&& r.x == c.x || (c.x + size.0 > area.x + area.width && r.x == int_max(
                    area.x + area.width - size.0,
                    area.x as int,
                ))
                &&& r.y == c.y || (c.y + size.1 > area.y + area.height && r.y == int_max(
                    area.y + area.height - size.1,
                    area.y as int,
                ))
            }
            &&& !(grid.usable() && free) ==> r == placed(area, Seq::empty(), size, cfg, step)
        }),
{
    let grid = grid_for(area, existing, cfg);
    lemma_grid_is_smallest(area, existing, cfg);
    let cells = grid.side * grid.side;
    assert(cells > 0) by (nonlinear_arith)
        requires
            cells == grid.side * grid.side,
            grid.side >= 1,
    ;
    let start = step as int % cells;
    vstd::arithmetic::div_mod::lemma_mod_bound(step as int, cells);
    lemma_first_free(grid, existing, start, 0);
    let c = grid.cell(j);
    assert(grid.free(existing, j) <==> forall|i: int|
        0 <= i < existing.len() ==> {
            let e = #[trigger] existing[i];
            e.x + e.width <= c.x || c.x + c.width <= e.x || e.y + e.height <= c.y || c.y + c.height <= e.y
        }) by {
        lemma_free_said(grid, existing, j);
    }
    lemma_start_of(cells, step as int, j);
    vstd::arithmetic::div_mod::lemma_mod_bound(j - start, cells);
    match grid.first_free(existing, start, 0) {
        Some(k) => {
            lemma_start_of(cells, step as int, k);
            lemma_free_said(grid, existing, k);
            if grid.usable() {
                lemma_cell_in_area(grid, k);
            }
            k
        },
        None => j,
    }
}

/// What it is for a cell to be free, in coordinates.
proof fn lemma_free_said(grid: Grid, existing: Seq<Rect>, k: int)
    ensures
        ({
            let c = grid.cell(k);
            grid.free(existing, k) <==> forall|i: int|
                0 <= i < existing.len() ==> {
                    let e = #[trigger] existing[i];
                    e.x + e.width <= c.x || c.x + c.width <= e.x || e.y + e.height <= c.y || c.y + c.height <= e.y
                }
        }),
{
    let c = grid.cell(k);
    if grid.free(existing, k) {
        assert forall|i: int| 0 <= i < existing.len() implies {
            let e = #[trigger] existing[i];
            e.x + e.width <= c.x || c.x + c.width <= e.x || e.y + e.height <= c.y || c.y + c.height <= e.y
        } by {
            assert(!existing[i].meets(c));
        }
    }
}

/// The cascade goes down to the right: as long as there is room, step number
/// `step` is `step + 1` offsets from the corner of the area, and after the last
/// step that has room it starts over.
pub proof fn lemma_cascade_steps(area: Rect, size: (u32, u32), cfg: PlacementConfig, step: u32, steps: int)
    requires
        area.fits(),
        cfg.cascade_offset > 0,
        steps >= 1,
        size.0 + steps * cfg.cascade_offset <= area.width,
        size.1 + steps * cfg.cascade_offset <= area.height,
        size.0 + (steps + 1) * cfg.cascade_offset > area.width || size.1 + (steps + 1) * cfg.cascade_offset
            > area.height,
        step <= i32::MAX,
    ensures
        ({
            let r = placed(area, Seq::empty(), size, cfg, step);
            &&& r.width == size.0 && r.height == size.1
            &&& step < steps ==> r.x == area.x + (step + 1) * cfg.cascade_offset && r.y == area.y + (step + 1)
                * cfg.cascade_offset
            &&& step >= steps ==> r == placed(area, Seq::empty(), size, cfg, (step - steps) as u32)
        }),
{
    let by = cfg.cascade_offset as int;
    let rx = area.width - size.0;
    let ry = area.height - size.1;
    assert((steps + 1) * by == steps * by + by) by (nonlinear_arith);
    assert(steps * by >= by) by (nonlinear_arith)
        requires
            steps >= 1,
            by > 0,
    ;
    vstd::arithmetic::div_mod::lemma_fundamental_div_mod(rx, by);
    vstd::arithmetic::div_mod::lemma_fundamental_div_mod(ry, by);
    let qx = rx / by;
    let qy = ry / by;
    assert(qx >= steps && qy >= steps && (qx == steps || qy == steps)) by (nonlinear_arith)
        requires
            by > 0,
            steps * by <= rx,
            steps * by <= ry,
            rx < steps * by + by || ry < steps * by + by,
            by * qx <= rx < by * qx + by,
            by * qy <= ry < by * qy + by,
    ;
    assert(cascade_steps(area, size, cfg.cascade_offset) == steps);
    let s = step as int % steps;
    vstd::arithmetic::div_mod::lemma_mod_bound(step as int, steps);
    assert(0 <= s * by && s * by + by <= steps * by) by (nonlinear_arith)
        requires
            0 <= s <= steps - 1,
            by > 0,
    ;
    if step < steps {
        vstd::arithmetic::div_mod::lemma_small_mod(step as nat, steps as nat);
        assert((step + 1) * by == by + step * by) by (nonlinear_arith);
    } else {
        vstd::arithmetic::div_mod::lemma_mod_sub_multiples_vanish(step as int, steps);
    }
}

/// A window with less room than one offset on a side stands against the far end
/// of that side of the area, and one larger than the area fills it.
pub proof fn lemma_cascade_without_room(area: Rect, size: (u32, u32), cfg: PlacementConfig, step: u32)
    requires
        area.fits(),
        cfg.cascade_offset > 0,
        size.0 + cfg.cascade_offset > area.width || size.1 + cfg.cascade_offset > area.height,
        step <= i32::MAX,
    ensures
        ({
            let r = placed(area, Seq::empty(), size, cfg, step);
            &&& r.x == area.x + int_min(cfg.cascade_offset as int, int_max(area.width - size.0, 0))
            &&& r.y == area.y + int_min(cfg.cascade_offset as int, int_max(area.height - size.1, 0))
            &&& r.width == int_min(size.0 as int, area.width as int)
            &&& r.height == int_min(size.1 as int, area.height as int)
        }),
{
    let by = cfg.cascade_offset as int;
    let rx = area.width - int_min(size.0 as int, area.width as int);
    let ry = area.height - int_min(size.1 as int, area.height as int);
    vstd::arithmetic::div_mod::lemma_fundamental_div_mod(rx, by);
    vstd::arithmetic::div_mod::lemma_fundamental_div_mod(ry, by);
    let qx = rx / by;
    let qy = ry / by;
    assert(qx <= 0 || qy <= 0) by (nonlinear_arith)
        requires
            by > 0,
            rx < by || ry < by,
            by * qx <= rx,
            by * qy <= ry,
    ;
    assert(cascade_steps(area, size, cfg.cascade_offset) == 1);
    assert(step as int % 1 == 0);
    assert(0 * by == 0);
}

// ---- What snapping is for ------------------------------------------------------

/// A window snaps to the edges of the area that it was let go at. Near the left
/// or the right edge alone it takes that half, near that and the top or the
/// bottom edge that quarter, and near the top edge alone all of the area. Near
/// none, near the bottom alone, or near two opposite edges it does not snap.
pub proof fn lemma_snaps_to_near_edges(dragged: Rect, area: Rect, threshold: int)
    requires
        area.fits(),
    ensures
        ({
            let left = -threshold <= dragged.x - area.x <= threshold;
            let top = -threshold <= dragged.y - area.y <= threshold;
            let right = -threshold <= (dragged.x + dragged.width) - (area.x + area.width) <= threshold;
            let bottom = -threshold <= (dragged.y + dragged.height) - (area.y + area.height) <= threshold;
            match snap_target(dragged, area, threshold) {
                Some(z) => {
                    &&& left || right || top
                    &&& !(left && right) && !(top && bottom)
                    &&& left ==> z.x == area.x && z.width == area.width / 2
                    &&& right ==> z.x == area.x + area.width / 2 && z.width == area.width / 2
                    &&& right && area.width % 2 == 0 ==> z.x + z.width == area.x + area.width
                    &&& !left && !right ==> z == area
                    &&& (left || right) && top ==> z.y == area.y && z.height == area.height / 2
                    &&& (left || right) && bottom ==> z.y == area.y + area.height / 2 && z.height == area.height / 2
                    &&& bottom && area.height % 2 == 0 ==> z.y + z.height == area.y + area.height
                    &&& !top && !bottom ==> z.y == area.y && z.height == area.height
                },
                None => !left && !right && !top || left && right || top && bottom,
            }
        }),
{
}

/// A zone lies at the edges that its name says, and is half as wide as the area.
/// A quarter is half as high too.
pub proof fn lemma_zones_lie_where_named(kind: SnapZoneKind, area: Rect)
    requires
        area.fits(),
    ensures
        ({
            let z = kind.zone(area);
            let left = kind is LeftHalf || kind is TopLeftQuarter || kind is BottomLeftQuarter;
            let half = kind is LeftHalf || kind is RightHalf;
            let low = kind is BottomLeftQuarter || kind is BottomRightQuarter;
            &&& area.width - 1 <= 2 * z.width <= area.width
            &&& left ==> z.x == area.x
            &&& !left ==> z.x == area.x + z.width
            &&& half ==> z.y == area.y && z.height == area.height
            &&& !half ==> area.height - 1 <= 2 * z.height <= area.height
            &&& !half && !low ==> z.y == area.y
            &&& low ==> z.y == area.y + z.height
        }),
{
}

/// A centred window has as much space to its left as to its right, and above as
/// below, but for an odd pixel, which is right or below. One that is larger than
/// the area starts at its edge.
pub proof fn lemma_centred(area: Rect, width: u32, height: u32)
    requires
        area.fits(),
    ensures
        ({
            let r = centre_of(area, width, height);
            let beside = r.x - area.x;
            let above = r.y - area.y;
            &&& r.width == width && r.height == height
            &&& width <= area.width ==> 2 * beside + width == area.width || 2 * beside + width + 1 == area.width
            &&& width > area.width ==> beside == 0
            &&& height <= area.height ==> 2 * above + height == area.height || 2 * above + height + 1 == area.height
            &&& height > area.height ==> above == 0
        }),
{
}

/// Bringing a window into an area keeps its size where there is room, and moves
/// it only if it stands out, and then only up to the edge.
pub proof fn lemma_slid_no_further(x: int, y: int, width: u32, height: u32, area: Rect)
    requires
        area.fits(),
    ensures
        ({
            let r = slid_into(x, y, width, height, area);
            &&& r.width == (if width <= area.width { width } else { area.width })
            &&& r.height == (if height <= area.height { height } else { area.height })
            &&& r.x > x ==> r.x == area.x
            &&& r.x < x ==> r.x + r.width == area.x + area.width
            &&& r.y > y ==> r.y == area.y
            &&& r.y < y ==> r.y + r.height == area.y + area.height
            &&& area.x <= r.x && r.x + r.width <= area.x + area.width
            &&& area.y <= r.y && r.y + r.height <= area.y + area.height
        }),
{
}

} // verus!
