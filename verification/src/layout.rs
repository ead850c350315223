//! Layouts: what a tiling workspace does with its windows.
use crate::geometry::{int_max, int_min, Rect};
use crate::ieee::Float32;
use crate::monitor::Monitor;
use crate::num::{saturate_i32, to_i32_range};
use std::collections::HashMap;
use vstd::prelude::*;

verus! {

broadcast use vstd::std_specs::hash::group_hash_axioms;

/// The encoding of the ratio 0.6.
pub const DEFAULT_MASTER_RATIO: u32 = 0x3f19_999a;

#[derive(Debug, Clone, Copy, PartialEq, Eq, Structural)]
pub struct TilingConfig {
    pub master_ratio: Float32,
    pub master_count: usize,
    pub gap_inner: u32,
    pub gap_outer: u32,
}

impl Default for TilingConfig {
    fn default() -> (r: Self)
        ensures
            r.master_ratio.bits == DEFAULT_MASTER_RATIO,
            r.master_count == 1,
            r.gap_inner == 8,
            r.gap_outer == 16,
    {
        TilingConfig {
            master_ratio: Float32 { bits: DEFAULT_MASTER_RATIO },
            master_count: 1,
            gap_inner: 8,
            gap_outer: 16,
        }
    }
}

/// Arranges a set of windows on a monitor. Implementations are pure functions
/// of window order, monitor and configuration.
pub trait Layout: Send + Sync {
    /// The geometries that the layout gives the windows.
    spec fn slots(&self, windows: Seq<u64>, monitor: Monitor, cfg: TilingConfig) -> Map<u64, Rect>;

    fn name(&self) -> &'static str;

    /// The new geometry of each window that the layout moves.
    fn arrange(&self, windows: &[u64], monitor: &Monitor, cfg: &TilingConfig) -> (out: HashMap<u64, Rect>)
        ensures
            out@ == self.slots(windows@, *monitor, *cfg),
    ;
}

/// Master-stack tiling: the first `master_count` windows take a resizable
/// master column on the left; the rest are split evenly in a stack column on
/// the right.
pub struct MasterStackLayout;

/// How many of `n` windows stand in the master column.
pub open spec fn masters(n: int, cfg: TilingConfig) -> int {
    int_min(int_max(cfg.master_count as int, 1), n)
}

/// The width of the master column.
pub open spec fn master_width(area: Rect, n: int, cfg: TilingConfig) -> int {
    if n > masters(n, cfg) {
        cfg.master_ratio.share(area.width) as int
    } else {
        area.width as int
    }
}

/// The place of window `i` of `n` in `area`.
pub open spec fn tile(area: Rect, n: int, i: int, cfg: TilingConfig) -> Rect {
    let count = masters(n, cfg);
    let half_gap = cfg.gap_inner as int / 2;
    let main = master_width(area, n, cfg);
    if n == 1 {
        area
    } else if i < count {
        let h = area.height as int / count;
        Rect {
            x: area.x,
            y: to_i32_range(area.y + i * h) as i32,
            width: int_max(main - half_gap, 0) as u32,
            height: int_max(h - cfg.gap_inner, 0) as u32,
        }
    } else {
        let h = area.height as int / (n - count);
        Rect {
            x: to_i32_range(area.x + main + half_gap) as i32,
            y: to_i32_range(area.y + (i - count) * h) as i32,
            width: int_max(area.width - (main + half_gap), 0) as u32,
            height: int_max(h - cfg.gap_inner, 0) as u32,
        }
    }
}

/// The places of the first `k` windows.
pub open spec fn tiles(windows: Seq<u64>, area: Rect, cfg: TilingConfig, k: int) -> Map<u64, Rect>
    decreases k,
{
    if k <= 0 {
        Map::empty()
    } else {
        tiles(windows, area, cfg, k - 1).insert(windows[k - 1], tile(area, windows.len() as int, k - 1, cfg))
    }
}

/// Every window has the tile of its position, and no other window has one.
pub proof fn lemma_tiles(windows: Seq<u64>, area: Rect, cfg: TilingConfig, k: int)
    requires
        0 <= k <= windows.len(),
        windows.no_duplicates(),
    ensures
        forall|id: u64|
            #[trigger] tiles(windows, area, cfg, k).dom().contains(id) <==> exists|i: int|
                0 <= i < k && windows[i] == id,
        forall|i: int|
            0 <= i < k ==> #[trigger] tiles(windows, area, cfg, k)[windows[i]] == tile(
                area,
                windows.len() as int,
                i,
                cfg,
            ),
    decreases k,
{
    if k > 0 {
        lemma_tiles(windows, area, cfg, k - 1);
        let before = tiles(windows, area, cfg, k - 1);
        let after = tiles(windows, area, cfg, k);
        assert forall|id: u64| #[trigger] after.dom().contains(id) <==> exists|i: int|
            0 <= i < k && windows[i] == id by {
            if after.dom().contains(id) {
                if before.dom().contains(id) {
                    let i = choose|i: int| 0 <= i < k - 1 && windows[i] == id;
                    assert(0 <= i < k && windows[i] == id);
                } else {
                    assert(windows[k - 1] == id);
                }
            }
            if exists|i: int| 0 <= i < k && windows[i] == id {
                let i = choose|i: int| 0 <= i < k && windows[i] == id;
                if i < k - 1 {
                    assert(before.dom().contains(id));
                }
            }
        }
    }
}

/// Tiled windows do not overlap.
pub proof fn lemma_tiles_disjoint(area: Rect, n: int, i: int, j: int, cfg: TilingConfig)
    requires
        area.fits(),
        0 <= i < n,
        0 <= j < n,
        i != j,
        n > masters(n, cfg) ==> area.x + master_width(area, n, cfg) + cfg.gap_inner / 2 <= i32::MAX,
    ensures
        !tile(area, n, i, cfg).meets(tile(area, n, j, cfg)),
{
    let count = masters(n, cfg);
    let a = tile(area, n, i, cfg);
    let b = tile(area, n, j, cfg);
    if i < count && j < count {
        lemma_rows(area.height as int, count, i, j);
    } else if i >= count && j >= count {
        lemma_rows(area.height as int, n - count, i - count, j - count);
    } else if i < count {
        lemma_rows(area.height as int, count, i, i);
        lemma_rows(area.height as int, n - count, j - count, j - count);
    } else {
        lemma_rows(area.height as int, count, j, j);
        lemma_rows(area.height as int, n - count, i - count, i - count);
    }
}

/// Rows of equal height follow one another inside the whole height.
proof fn lemma_rows(height: int, count: int, i: int, j: int)
    requires
        height >= 0,
        0 <= i < count,
        0 <= j < count,
    ensures
        ({
            let h = height / count;
            &&& 0 <= h <= height
            &&& 0 <= i * h
            &&& i * h + h <= height
            &&& 0 <= j * h
            &&& j * h + h <= height
            &&& i < j ==> i * h + h <= j * h
            &&& j < i ==> j * h + h <= i * h
        }),
{
    let h = height / count;
    vstd::arithmetic::div_mod::lemma_fundamental_div_mod(height, count);
    assert(h >= 0) by (nonlinear_arith)
        requires
            h == height / count,
            height >= 0,
            count > 0,
    ;
    assert(i * h + h == (i + 1) * h && j * h + h == (j + 1) * h) by (nonlinear_arith);
    assert((i + 1) * h <= count * h && (j + 1) * h <= count * h && h <= count * h && 0 <= i * h && 0 <= j * h)
        by (nonlinear_arith)
        requires
            0 <= i,
            0 <= j,
            i + 1 <= count,
            j + 1 <= count,
            h >= 0,
    ;
    if i < j {
        assert((i + 1) * h <= j * h) by (nonlinear_arith)
            requires
                i + 1 <= j,
                h >= 0,
        ;
    }
    if j < i {
        assert((j + 1) * h <= i * h) by (nonlinear_arith)
            requires
                j + 1 <= i,
                h >= 0,
        ;
    }
}

/// How many windows stand in the master column: as many as are configured, at
/// least one, and no more than there are.
pub proof fn lemma_masters(n: int, cfg: TilingConfig)
    requires
        n >= 1,
    ensures
        1 <= masters(n, cfg) <= n,
        1 <= cfg.master_count <= n ==> masters(n, cfg) == cfg.master_count,
        cfg.master_count == 0 ==> masters(n, cfg) == 1,
        cfg.master_count > n ==> masters(n, cfg) == n,
{
}

/// One window alone has the whole area. Of several, the first stand in a column
/// at the left edge and the others in one that begins where it ends, an inner
/// gap apart. Wherever there is a stack, however many windows are in it, the
/// boundary is at the configured share of the width; without one the first
/// column reaches to the right edge.
pub proof fn lemma_tile_columns(area: Rect, n: int, i: int, cfg: TilingConfig)
    requires
        area.fits(),
        0 <= i < n,
    ensures
        ({
            let count = if cfg.master_count == 0 { 1 } else { cfg.master_count as int };
            let half = cfg.gap_inner / 2;
            let share = cfg.master_ratio.share(area.width);
            let t = tile(area, n, i, cfg);
            &&& n == 1 ==> t == area
            &&& n > 1 && i < count ==> t.x == area.x
            &&& n > count && i < count ==> t.width == (if share >= half { share - half } else { 0 })
            &&& 1 < n <= count ==> t.width == (if area.width >= half { area.width - half } else { 0 })
            &&& i >= count && area.x + share + half <= i32::MAX ==> t.x == area.x + share + half
            &&& i >= count ==> t.width == (if area.width >= share + half { area.width - share - half } else { 0 })
        }),
{
}

/// The windows of a column share its height: each has the same part, less the
/// gap under it, and starts that part below the one before. The first starts at
/// the top of the area, and less than a pixel for each is left over.
pub proof fn lemma_tile_rows(area: Rect, n: int, i: int, cfg: TilingConfig, part: int)
    requires
        area.fits(),
        0 <= i < n,
        n > 1,
        part >= 0,
        ({
            let count = masters(n, cfg);
            let rows = if i < count { count } else { n - count };
            rows * part <= area.height < rows * (part + 1)
        }),
    ensures
        ({
            let count = masters(n, cfg);
            let t = tile(area, n, i, cfg);
            &&& t.height == (if part >= cfg.gap_inner { part - cfg.gap_inner } else { 0 })
            &&& i == 0 || i == count ==> t.y == area.y
            &&& i > 0 && i != count ==> t.y == tile(area, n, i - 1, cfg).y + part
        }),
{
    let count = masters(n, cfg);
    let rows = if i < count { count } else { n - count };
    let at = if i < count { i } else { i - count };
    lemma_rows(area.height as int, rows, at, at);
    assert(rows * (part + 1) == rows * part + rows) by (nonlinear_arith);
    assert(rows * part == part * rows) by (nonlinear_arith);
    vstd::arithmetic::div_mod::lemma_fundamental_div_mod_converse(
        area.height as int,
        rows,
        part,
        area.height - part * rows,
    );
    if at > 0 {
        lemma_rows(area.height as int, rows, at - 1, at - 1);
        assert(at * part == (at - 1) * part + part) by (nonlinear_arith);
    }
    assert(0 * part == 0);
}

impl Layout for MasterStackLayout {
    open spec fn slots(&self, windows: Seq<u64>, monitor: Monitor, cfg: TilingConfig) -> Map<u64, Rect> {
        tiles(windows, monitor.geometry.shrunk(cfg.gap_outer), cfg, windows.len() as int)
    }

    fn name(&self) -> (r: &'static str)
        ensures
            r@ == "tiling"@,
    {
        "tiling"
    }

    fn arrange(&self, windows: &[u64], monitor: &Monitor, cfg: &TilingConfig) -> (out: HashMap<u64, Rect>)
        ensures
            // Each window is in its column, the boundary between the two at the
            // configured share of the width.
            windows@.no_duplicates() && monitor.geometry.fits() ==> forall|i: int|
                0 <= i < windows@.len() ==> {
                    let area = monitor.geometry.shrunk(cfg.gap_outer);
                    let n = windows@.len();
                    let count = if cfg.master_count == 0 { 1 } else { cfg.master_count as int };
                    let half = cfg.gap_inner / 2;
                    let share = cfg.master_ratio.share(area.width);
                    &&& out@.contains_key(#[trigger] windows@[i])
                    &&& n == 1 ==> out@[windows@[i]] == area
                    &&& n > 1 && i < count ==> out@[windows@[i]].x == area.x
                    &&& n > count && i < count ==> out@[windows@[i]].width == (if share >= half {
                        share - half
                    } else {
                        0
                    })
                    &&& i >= count && area.x + share + half <= i32::MAX ==> out@[windows@[i]].x == area.x + share
                        + half
                    &&& i >= count ==> out@[windows@[i]].width == (if area.width >= share + half {
                        area.width - share - half
                    } else {
                        0
                    })
                },
    {
        let out: HashMap<u64, Rect> = arrange_columns(windows, monitor, cfg);
        proof {
            let area = monitor.geometry.shrunk(cfg.gap_outer);
            let n = windows@.len() as int;
            if windows@.no_duplicates() && monitor.geometry.fits() {
                lemma_tiles(windows@, area, *cfg, n);
                assert forall|i: int| 0 <= i < n implies out@.contains_key(#[trigger] windows@[i])
                    && out@[windows@[i]] == tile(area, n, i, *cfg) by {
                    assert(tiles(windows@, area, *cfg, n).dom().contains(windows@[i]));
                }
            }
        }
        out
    }
}

/// The places of the windows in the two columns.
fn arrange_columns(windows: &[u64], monitor: &Monitor, cfg: &TilingConfig) -> (out: HashMap<u64, Rect>)
    ensures
        out@ == tiles(windows@, monitor.geometry.shrunk(cfg.gap_outer), *cfg, windows@.len() as int),
{
    let mut out: HashMap<u64, Rect> = HashMap::new();
    let area = monitor.geometry.inset(cfg.gap_outer);
    let n: usize = windows.len();
    if n == 0 {
        assert(out@ =~= Map::empty());
        return out;
    }
    let wanted: usize = if cfg.master_count >= 1 { cfg.master_count } else { 1 };
    let count: usize = if wanted <= n { wanted } else { n };
    let main: u32 = if n > count { cfg.master_ratio.share_of(area.width) } else { area.width };
    let half_gap: u32 = cfg.gap_inner / 2;
    assert(main == master_width(area, n as int, *cfg));
    let mut i: usize = 0;
    while i < n
        invariant
            n == windows.len(),
            n > 0,
            i <= n,
            count == masters(n as int, *cfg),
            main == master_width(area, n as int, *cfg),
            half_gap == cfg.gap_inner / 2,
            out@ == tiles(windows@, area, *cfg, i as int),
        decreases n - i,
    {
        let place: Rect = if n == 1 {
            area
        } else if i < count {
            let h: u64 = area.height as u64 / count as u64;
            proof {
                lemma_rows(area.height as int, count as int, i as int, i as int);
            }
            Rect::new(
                area.x,
                saturate_i32(area.y as i64 + (i as u64 * h) as i64),
                main.saturating_sub(half_gap),
                (h as u32).saturating_sub(cfg.gap_inner),
            )
        } else {
            let h: u64 = area.height as u64 / (n - count) as u64;
            proof {
                lemma_rows(area.height as int, n - count, i - count, i - count);
            }
            let used: u64 = main as u64 + half_gap as u64;
            Rect::new(
                saturate_i32(area.x as i64 + main as i64 + half_gap as i64),
                saturate_i32(area.y as i64 + ((i - count) as u64 * h) as i64),
                if area.width as u64 > used { (area.width as u64 - used) as u32 } else { 0 },
                (h as u32).saturating_sub(cfg.gap_inner),
            )
        };
        assert(place == tile(area, n as int, i as int, *cfg));
        out.insert(windows[i], place);
        i = i + 1;
    }
    out
}

/// Windows keep whatever geometry they already have. Placement of new windows
/// is handled separately, when they are created.
pub struct NoOpLayout(pub &'static str);

impl Layout for NoOpLayout {
    open spec fn slots(&self, windows: Seq<u64>, monitor: Monitor, cfg: TilingConfig) -> Map<u64, Rect> {
        Map::empty()
    }

    fn name(&self) -> (r: &'static str)
        ensures
            r == self.0,
    {
        self.0
    }

    fn arrange(&self, windows: &[u64], monitor: &Monitor, cfg: &TilingConfig) -> (out: HashMap<u64, Rect>) {
        HashMap::new()
    }
}

} // verus!
