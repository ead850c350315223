//! Monitors, and the division of one monitor into several.
use crate::geometry::{int_min, Rect};
use crate::ieee::Float64;
use crate::num::{saturate_i32, to_i32_range};
use vstd::prelude::*;

verus! {

pub type MonitorId = u32;

#[derive(Debug)]
pub struct Monitor {
    pub id: MonitorId,
    /// Usable area: the output rect shrunk by any exclusive zone (a bar or a
    /// dock). What placement and tiling target.
    pub geometry: Rect,
    /// The output's true full rect, ignoring any exclusive zone. What
    /// fullscreen covers, and what an interactive drag may cross.
    pub full_geometry: Rect,
    /// The rect that maximize targets: `full_geometry` without the zone of a
    /// bar at the top, which is expected to stay reachable.
    pub maximize_geometry: Rect,
    pub name: String,
    pub refresh_rate_mhz: u32,
    pub primary: bool,
    /// Whether this entry is one part of a real output that was divided.
    pub split: bool,
    /// The output's scale factor; 1 for an unscaled output.
    pub scale: Float64,
    /// Whether the output has no hardware behind it.
    pub is_virtual: bool,
}

/// The encoding of the scale factor 1.
pub const UNSCALED: u64 = 0x3ff0_0000_0000_0000;

impl Monitor {
    /// Whether the far edges of all three areas are coordinates.
    pub open spec fn fits(self) -> bool {
        self.geometry.fits() && self.full_geometry.fits() && self.maximize_geometry.fits()
    }

    pub fn new(id: MonitorId, name: &str, geometry: Rect) -> (r: Self)
        ensures
            r.id == id,
            r.name@ == name@,
            r.geometry == geometry,
            r.full_geometry == geometry,
            r.maximize_geometry == geometry,
            r.refresh_rate_mhz == 60_000,
            !r.primary,
            !r.split,
            r.scale.bits == UNSCALED,
            !r.is_virtual,
    {
        Monitor {
            id,
            name: name.to_string(),
            geometry,
            full_geometry: geometry,
            maximize_geometry: geometry,
            refresh_rate_mhz: 60_000,
            primary: false,
            split: false,
            scale: Float64 { bits: UNSCALED },
            is_virtual: false,
        }
    }
}

impl Clone for Monitor {
    fn clone(&self) -> (r: Self)
        ensures
            r == *self,
    {
        Monitor {
            id: self.id,
            name: self.name.clone(),
            geometry: self.geometry,
            full_geometry: self.full_geometry,
            maximize_geometry: self.maximize_geometry,
            refresh_rate_mhz: self.refresh_rate_mhz,
            primary: self.primary,
            split: self.split,
            scale: self.scale,
            is_virtual: self.is_virtual,
        }
    }
}

/// A connector that has been disabled but is still physically connected.
/// Purely informational: placement never sees it. Its areas are a snapshot
/// from the moment it was disabled.
#[derive(Debug, Clone, Copy, PartialEq, Eq, Structural)]
pub struct DisabledMonitor {
    pub geometry: Rect,
    pub full_geometry: Rect,
    pub primary: bool,
}

/// A request to divide one real output into `parts` equal (within a pixel)
/// logical monitors.
#[derive(Debug, Clone, Copy, PartialEq, Eq, Structural)]
pub struct MonitorSplit {
    pub parts: u32,
    /// `false`: side-by-side columns, splitting width. `true`: stacked rows,
    /// splitting height.
    pub rows: bool,
}

/// The size of piece `index` of `total` in `parts` pieces: the remainder is
/// spread, one pixel each, over the first pieces.
pub open spec fn piece_size(total: u32, index: int, parts: u32) -> int {
    total / parts + if index < total % parts { 1int } else { 0 }
}

/// Where piece `index` of `total` in `parts` pieces starts.
pub open spec fn piece_offset(total: u32, index: int, parts: u32) -> int {
    index * (total / parts) + int_min(index, (total % parts) as int)
}

/// Piece `index` of `rect`, see [`split_rect`].
pub open spec fn split_piece(rect: Rect, index: u32, parts: u32, rows: bool) -> Rect {
    if parts <= 1 || index >= parts {
        rect
    } else if rows {
        Rect {
            y: to_i32_range(rect.y + piece_offset(rect.height, index as int, parts)) as i32,
            height: piece_size(rect.height, index as int, parts) as u32,
            ..rect
        }
    } else {
        Rect {
            x: to_i32_range(rect.x + piece_offset(rect.width, index as int, parts)) as i32,
            width: piece_size(rect.width, index as int, parts) as u32,
            ..rect
        }
    }
}

/// Divides `rect` into `parts` equal (within one pixel) pieces along one axis,
/// returning piece number `index` (`0..parts`). `rows` chooses which axis:
/// stacked rows (splitting height) when `true`, side-by-side columns
/// (splitting width) when `false`.
///
/// Any remainder is spread one pixel at a time across the first pieces.
/// `index >= parts` or `parts == 0` returns `rect` unchanged.
pub fn split_rect(rect: Rect, index: u32, parts: u32, rows: bool) -> (r: Rect)
    ensures
        r == split_piece(rect, index, parts, rows),
{
    if parts <= 1 || index >= parts {
        return rect;
    }
    let total: u32 = if rows { rect.height } else { rect.width };
    let base: u32 = total / parts;
    let remainder: u32 = total % parts;
    proof {
        lemma_pieces(total, index as int, parts);
    }
    let size: u32 = if index < remainder { base + 1 } else { base };
    let extra: u32 = if index < remainder { index } else { remainder };
    let offset: i64 = index as i64 * base as i64 + extra as i64;
    if rows {
        Rect::new(rect.x, saturate_i32(rect.y as i64 + offset), rect.width, size)
    } else {
        Rect::new(saturate_i32(rect.x as i64 + offset), rect.y, size, rect.height)
    }
}

/// Pieces follow one another without a gap, and together make up the whole.
pub proof fn lemma_pieces(total: u32, index: int, parts: u32)
    requires
        0 <= index < parts,
    ensures
        piece_offset(total, 0, parts) == 0,
        piece_offset(total, index + 1, parts) == piece_offset(total, index, parts) + piece_size(total, index, parts),
        piece_offset(total, parts as int, parts) == total,
        0 <= piece_offset(total, index, parts),
        piece_size(total, index, parts) >= 0,
        piece_offset(total, index, parts) + piece_size(total, index, parts) <= total,
        0 <= index * (total / parts) <= total,
{
    let base = (total / parts) as int;
    let rem = (total % parts) as int;
    assert(0 * base == 0);
    assert((index + 1) * base == index * base + base) by (nonlinear_arith);
    vstd::arithmetic::div_mod::lemma_fundamental_div_mod(total as int, parts as int);
    assert(parts * base == parts as int * (total as int / parts as int));
    assert(index * base + base <= parts * base) by (nonlinear_arith)
        requires
            index + 1 <= parts,
            base >= 0,
    ;
    assert(index * base >= 0) by (nonlinear_arith)
        requires
            index >= 0,
            base >= 0,
    ;
}

/// The pieces of a rectangle do not overlap, and they cover it exactly: a
/// point lies in the rectangle if and only if it lies in one of the pieces.
pub proof fn lemma_split_tiles(rect: Rect, parts: u32, rows: bool)
    requires
        rect.fits(),
        parts >= 1,
    ensures
        forall|px: int, py: int|
            #![trigger rect.covers(px, py)]
            rect.covers(px, py) <==> exists|i: u32|
                i < parts && (#[trigger] split_piece(rect, i, parts, rows)).covers(px, py),
        forall|i: u32, j: u32, px: int, py: int|
            i < j < parts ==> !(#[trigger] split_piece(rect, i, parts, rows).covers(px, py)
                && #[trigger] split_piece(rect, j, parts, rows).covers(px, py)),
{
    let total = if rows { rect.height } else { rect.width };
    let start = if rows { rect.y } else { rect.x };
    if parts > 1 {
        assert forall|i: u32| i < parts implies {
            let p = #[trigger] split_piece(rect, i, parts, rows);
            &&& (if rows { p.y } else { p.x }) == start + piece_offset(total, i as int, parts)
            &&& (if rows { p.height } else { p.width }) == piece_size(total, i as int, parts)
            &&& piece_offset(total, i as int, parts) + piece_size(total, i as int, parts) <= total
        } by {
            lemma_pieces(total, i as int, parts);
        }
        assert forall|px: int, py: int| #![trigger rect.covers(px, py)] rect.covers(px, py) implies exists|i: u32|
            i < parts && (#[trigger] split_piece(rect, i, parts, rows)).covers(px, py) by {
            let d = (if rows { py } else { px }) - start;
            lemma_pieces(total, 0, parts);
            let i = lemma_piece_of(total, parts, d, parts as int);
            assert(split_piece(rect, i as u32, parts, rows).covers(px, py));
        }
        assert forall|i: u32, j: u32, px: int, py: int| i < j < parts implies !(
        #[trigger] split_piece(rect, i, parts, rows).covers(px, py) && #[trigger] split_piece(
            rect,
            j,
            parts,
            rows,
        ).covers(px, py)) by {
            lemma_pieces(total, i as int, parts);
            lemma_offsets_grow(total, parts, i + 1, j as int);
        }
    } else {
        assert(split_piece(rect, 0, parts, rows) == rect);
    }
}

/// The piece that the distance `d` lies in.
proof fn lemma_piece_of(total: u32, parts: u32, d: int, upto: int) -> (i: int)
    requires
        0 < upto <= parts,
        0 <= d < piece_offset(total, upto, parts),
    ensures
        0 <= i < upto,
        piece_offset(total, i, parts) <= d < piece_offset(total, i, parts) + piece_size(total, i, parts),
    decreases upto,
{
    lemma_pieces(total, upto - 1, parts);
    if d >= piece_offset(total, upto - 1, parts) {
        upto - 1
    } else {
        lemma_piece_of(total, parts, d, upto - 1)
    }
}

proof fn lemma_offsets_grow(total: u32, parts: u32, i: int, j: int)
    requires
        0 <= i <= j <= parts,
    ensures
        piece_offset(total, i, parts) <= piece_offset(total, j, parts),
    decreases j - i,
{
    if i < j {
        lemma_pieces(total, j - 1, parts);
        lemma_offsets_grow(total, parts, i, j - 1);
    }
}

/// The pieces of a monitor that is split follow one another from left to right,
/// or from top to bottom for rows. The first starts where the monitor does, each
/// starts where the one before ends, and the last ends where the monitor does.
/// None is more than a pixel larger than another, and across they are as large
/// as the monitor.
pub proof fn lemma_split_in_order(rect: Rect, i: u32, j: u32, parts: u32, rows: bool)
    requires
        rect.fits(),
        parts > 1,
        i < parts,
        j < parts,
    ensures
        ({
            let a = split_piece(rect, i, parts, rows);
            let b = split_piece(rect, j, parts, rows);
            &&& rows ==> a.x == rect.x && a.width == rect.width
            &&& !rows ==> a.y == rect.y && a.height == rect.height
            &&& rows && i == 0 ==> a.y == rect.y
            &&& !rows && i == 0 ==> a.x == rect.x
            &&& rows && j == i + 1 ==> b.y == a.y + a.height
            &&& !rows && j == i + 1 ==> b.x == a.x + a.width
            &&& rows && i == parts - 1 ==> a.y + a.height == rect.y + rect.height
            &&& !rows && i == parts - 1 ==> a.x + a.width == rect.x + rect.width
            &&& i <= j ==> b.width <= a.width <= b.width + 1 && b.height <= a.height <= b.height + 1
        }),
{
    lemma_pieces(rect.width, i as int, parts);
    lemma_pieces(rect.height, i as int, parts);
    lemma_pieces(rect.width, j as int, parts);
    lemma_pieces(rect.height, j as int, parts);
}

/// A monitor that is not split is one piece.
pub proof fn lemma_unsplit(rect: Rect, index: u32, parts: u32, rows: bool)
    requires
        parts <= 1 || index >= parts,
    ensures
        split_piece(rect, index, parts, rows) == rect,
{
}

} // verus!
