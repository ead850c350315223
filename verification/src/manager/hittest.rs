//! What the pointer is on.
use super::focus::centre_wide;
use super::model::{answered, corner_of, first_hit, frame_of, geometries, shown_in, topmost_at};
use super::WindowManager;
use crate::geometry::Rect;
use crate::window::{ResizeEdge, TitlebarHit, Window, WindowId};
use vstd::prelude::*;

verus! {

impl WindowManager {
    /// The topmost window of the current workspace whose frame the point is
    /// on, and which part of the frame that is. A window's content hides what
    /// is under it: no frame is hit through it.
    pub fn hit_test(&self, x: i32, y: i32) -> (r: Option<(WindowId, TitlebarHit)>)
        requires
            self.wf(),
        ensures
            r == self@.hit_at(x, y),
    {
        let ids: Vec<u64> = self.shown_here();
        let mut rects: Vec<Rect> = Vec::new();
        let mut i: usize = 0;
        while i < ids.len()
            invariant
                i <= ids.len(),
                rects.len() == i,
                forall|k: int| 0 <= k < ids.len() ==> self@.has(#[trigger] ids[k]),
                forall|k: int| 0 <= k < i ==> #[trigger] rects[k] == self@.windows[ids[k]].geometry,
            decreases ids.len() - i,
        {
            rects.push(self.geometry_of(ids[i]));
            i = i + 1;
        }
        assert(rects@ =~= geometries(ids@, self@.windows));
        self.hit_over(&ids, &rects, x, y)
    }

    /// As [`WindowManager::hit_test`], with another rectangle for each window:
    /// what `geometry_for` gives for the window and its geometry. It is called
    /// once per window, for the topmost first. For a backend that draws windows
    /// on their way to their geometry.
    pub fn hit_test_with<F: Fn(WindowId, Rect) -> Rect>(&self, x: i32, y: i32, geometry_for: F) -> (r: Option<
        (WindowId, TitlebarHit),
    >)
        requires
            self.wf(),
            forall|id: u64, g: Rect| #[trigger] call_requires(geometry_for, (id, g)),
        ensures
            exists|rects: Seq<Rect>|
                #[trigger] answered(geometry_for, self@.front_to_back(self@.current), self@.windows, rects) && r
                    == first_hit(self@, self@.front_to_back(self@.current), rects, x, y),
    {
        let ids: Vec<u64> = self.shown_here();
        let mut rects: Vec<Rect> = Vec::new();
        let mut i: usize = 0;
        while i < ids.len()
            invariant
                i <= ids.len(),
                rects.len() == i,
                forall|id: u64, g: Rect| #[trigger] call_requires(geometry_for, (id, g)),
                forall|k: int| 0 <= k < ids.len() ==> self@.has(#[trigger] ids[k]),
                forall|k: int|
                    0 <= k < i ==> call_ensures(
                        geometry_for,
                        (ids[k], self@.windows[ids[k]].geometry),
                        #[trigger] rects[k],
                    ),
            decreases ids.len() - i,
        {
            let id: u64 = ids[i];
            let here: Rect = self.geometry_of(id);
            rects.push(geometry_for(id, here));
            i = i + 1;
        }
        assert(answered(geometry_for, ids@, self@.windows, rects@));
        self.hit_over(&ids, &rects, x, y)
    }

    /// The windows of the current workspace that are not minimized, the
    /// topmost first.
    fn shown_here(&self) -> (r: Vec<u64>)
        requires
            self.wf(),
        ensures
            r@ == self@.front_to_back(self@.current),
            forall|k: int| 0 <= k < r.len() ==> self@.has(#[trigger] r[k]),
    {
        let r: Vec<u64> = self.window_ids_on_workspace_front_to_back(self.current_workspace());
        proof {
            self@.lemma_reversed_order();
            self@.lemma_filtered_exist(self@.order.reverse(), shown_in(self@.windows, self@.current));
        }
        r
    }

    /// What a point is on the frame of a window at `rect`.
    fn hit_frame(&self, w: &Window, rect: Rect, x: i32, y: i32) -> (r: Option<TitlebarHit>)
        ensures
            r == frame_of(self@.settings, *w, rect).hit(x as int, y as int),
    {
        let theme = self.theme_config();
        let margin: i32 = match w.resize_margin {
            Some(m) => m,
            None => self.grab_margin(),
        };
        let show_maximize: bool = !(theme.dynamic_buttons && !w.resizable);
        ResizeEdge::hit_test(
            rect,
            x,
            y,
            w.decorated,
            w.border_width,
            margin,
            theme.buttons_left,
            theme.button_order,
            w.is_dialog,
            show_maximize,
        )
    }

    /// The first window at its rectangle whose frame the point is on.
    fn hit_over(&self, ids: &Vec<u64>, rects: &Vec<Rect>, x: i32, y: i32) -> (r: Option<(WindowId, TitlebarHit)>)
        requires
            rects.len() == ids.len(),
            forall|k: int| 0 <= k < ids.len() ==> self@.has(#[trigger] ids[k]),
        ensures
            r == first_hit(self@, ids@, rects@, x, y),
    {
        let mut i: usize = 0;
        assert(ids@.skip(0) =~= ids@);
        assert(rects@.skip(0) =~= rects@);
        while i < ids.len()
            invariant
                i <= ids.len(),
                rects.len() == ids.len(),
                forall|k: int| 0 <= k < ids.len() ==> self@.has(#[trigger] ids[k]),
                first_hit(self@, ids@, rects@, x, y) == first_hit(
                    self@,
                    ids@.skip(i as int),
                    rects@.skip(i as int),
                    x,
                    y,
                ),
            decreases ids.len() - i,
        {
            let id: u64 = ids[i];
            let rect: Rect = rects[i];
            proof {
                assert(ids@.skip(i as int)[0] == id);
                assert(rects@.skip(i as int)[0] == rect);
                assert(ids@.skip(i as int).skip(1) =~= ids@.skip(i + 1));
                assert(rects@.skip(i as int).skip(1) =~= rects@.skip(i + 1));
            }
            let hit: Option<TitlebarHit> = match self.window(id) {
                Some(w) => self.hit_frame(w, rect, x, y),
                None => None,
            };
            if let Some(h) = hit {
                return Some((id, h));
            }
            if rect.contains_point(x, y) {
                return None;
            }
            i = i + 1;
        }
        None
    }

    /// The topmost window of the current workspace that the point is on, frame
    /// or content.
    pub fn window_at(&self, x: i32, y: i32) -> (r: Option<WindowId>)
        requires
            self.wf(),
        ensures
            r == topmost_at(self@.windows, self@.front_to_back(self@.current), x, y),
    {
        let ids: Vec<u64> = self.shown_here();
        let mut i: usize = 0;
        assert(ids@.skip(0) =~= ids@);
        while i < ids.len()
            invariant
                i <= ids.len(),
                forall|k: int| 0 <= k < ids.len() ==> self@.has(#[trigger] ids[k]),
                ids@ == self@.front_to_back(self@.current),
                topmost_at(self@.windows, ids@, x, y) == topmost_at(self@.windows, ids@.skip(i as int), x, y),
            decreases ids.len() - i,
        {
            let id: u64 = ids[i];
            proof {
                assert(ids@.skip(i as int)[0] == id);
                assert(ids@.skip(i as int).skip(1) =~= ids@.skip(i + 1));
            }
            if self.geometry_of(id).contains_point(x, y) {
                return Some(id);
            }
            i = i + 1;
        }
        None
    }

    /// The corner of a window nearest to a point; the lower right one for an
    /// unknown window.
    pub fn nearest_corner(&self, id: WindowId, x: i32, y: i32) -> (r: ResizeEdge)
        ensures
            r == (if self@.has(id) {
                corner_of(self@.windows[id].geometry, x, y)
            } else {
                ResizeEdge::BottomRight
            }),
    {
        match self.window(id) {
            Some(w) => {
                let (cx, cy) = centre_wide(&w.geometry);
                match ((x as i64) < cx, (y as i64) < cy) {
                    (true, true) => ResizeEdge::TopLeft,
                    (false, true) => ResizeEdge::TopRight,
                    (true, false) => ResizeEdge::BottomLeft,
                    (false, false) => ResizeEdge::BottomRight,
                }
            },
            None => ResizeEdge::BottomRight,
        }
    }
}

} // verus!
