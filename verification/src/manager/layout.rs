//! Running a workspace's layout.
use super::ids::{lemma_filter_empty, lemma_filter_push};
use super::model::{
    ascending, filed, filed_all, in_turn, lemma_filed, lemma_settled_as, listed, listed_all, settled_all, settled_as,
    tiled_in, tiled_on,
};
use super::{State, WindowManager};
use crate::geometry::Rect;
use crate::window::WindowId;
use crate::workspace::WorkspaceId;
use std::collections::HashMap;
use vstd::prelude::*;
use vstd::std_specs::iter::IteratorSpec;

verus! {

broadcast use vstd::std_specs::hash::group_hash_axioms;

/// The entries of a table of geometries.
pub(super) fn slot_list(slots: &HashMap<u64, Rect>) -> (r: Vec<(u64, Rect)>)
    ensures
        listed(r@, slots@),
{
    let mut r: Vec<(u64, Rect)> = Vec::new();
    let keys = slots.keys();
    let ghost all = keys.remaining().unref();
    proof {
        assert(keys.remaining().no_duplicates());
        assert forall|i: int, j: int| 0 <= i < all.len() && 0 <= j < all.len() && i != j implies all[i] != all[j] by {
            assert(keys.remaining()[i] != keys.remaining()[j]);
        }
        assert forall|id: u64| slots@.contains_key(id) <==> #[trigger] all.contains(id) by {
            assert(all.to_set().contains(id) <==> slots@.dom().contains(id));
        }
    }
    for id in it: keys
        invariant
            it.seq().unref() == all,
            r.len() == it.index(),
            forall|id: u64| slots@.contains_key(id) <==> #[trigger] all.contains(id),
            forall|k: int| 0 <= k < r.len() ==> (#[trigger] r[k]).0 == all[k] && r[k].1 == slots@[all[k]],
    {
        assert(all[it.index() as int] == *id);
        assert(all.contains(*id));
        match slots.get(id) {
            Some(rect) => {
                r.push((*id, *rect));
            },
            None => {},
        }
    }
    proof {
        assert forall|id: u64| #[trigger] slots@.contains_key(id) implies exists|k: int|
            0 <= k < r@.len() && (#[trigger] r@[k]).0 == id by {
            assert(all.contains(id));
            let k = choose|k: int| 0 <= k < all.len() && all[k] == id;
            assert(r@[k].0 == id);
        }
    }
    r
}

/// Files a monitor in ascending order, once.
fn file(list: &Vec<u32>, id: u32) -> (r: Vec<u32>)
    requires
        ascending(list@),
    ensures
        r@ == filed(list@, id),
{
    let mut below: Vec<u32> = Vec::new();
    let mut above: Vec<u32> = Vec::new();
    let mut i: usize = 0;
    let ghost lower = |x: u32| x < id;
    let ghost upper = |x: u32| x > id;
    proof {
        reveal(Seq::filter);
        assert(list@.take(0).filter(lower) =~= Seq::empty());
        assert(list@.take(0).filter(upper) =~= Seq::empty());
    }
    while i < list.len()
        invariant
            i <= list.len(),
            lower == (|x: u32| x < id),
            upper == (|x: u32| x > id),
            below@ == list@.take(i as int).filter(lower),
            above@ == list@.take(i as int).filter(upper),
        decreases list.len() - i,
    {
        proof {
            reveal(Seq::filter);
            assert(list@.take(i + 1).drop_last() =~= list@.take(i as int));
            assert(list@.take(i + 1).last() == list@[i as int]);
        }
        if list[i] < id {
            below.push(list[i]);
        }
        if list[i] > id {
            above.push(list[i]);
        }
        i = i + 1;
    }
    assert(list@.take(list.len() as int) =~= list@);
    below.push(id);
    below.append(&mut above);
    below
}

impl WindowManager {
    /// The monitors that have windows of a workspace to tile, in order.
    fn monitors_used(&self, workspace: WorkspaceId) -> (r: Vec<u32>)
        requires
            self.wf(),
        ensures
            r@ == self@.monitors_used(workspace),
    {
        let order: &Vec<u64> = self.order_ids();
        let ghost p = tiled_in(self@.windows, workspace);
        let mut r: Vec<u32> = Vec::new();
        let mut i: usize = 0;
        proof {
            self@.lemma_created_exist();
            lemma_filter_empty(p);
            assert(order@.take(0) =~= Seq::<u64>::empty());
        }
        while i < order.len()
            invariant
                i <= order.len(),
                order@ == self@.order,
                forall|k: int| 0 <= k < order.len() ==> self@.has(#[trigger] order[k]),
                p == tiled_in(self@.windows, workspace),
                ascending(r@),
                r@ == filed_all(self@.windows, order@.take(i as int).filter(p)),
            decreases order.len() - i,
        {
            let id: u64 = order[i];
            proof {
                assert(order@.take(i + 1) =~= order@.take(i as int).push(id));
                lemma_filter_push(order@.take(i as int), id, p);
                let f = order@.take(i as int).filter(p);
                assert(f.push(id).drop_last() =~= f);
            }
            let monitor: Option<u32> = match self.window(id) {
                Some(w) => if w.workspace == workspace && !w.minimized && !w.floating && !w.fullscreen {
                    Some(w.monitor)
                } else {
                    None
                },
                None => None,
            };
            if let Some(m) = monitor {
                proof {
                    lemma_filed(r@, m);
                }
                r = file(&r, m);
            }
            i = i + 1;
        }
        assert(order@.take(order.len() as int) =~= order@);
        r
    }

    /// The windows of a workspace on a monitor that are tiled, in stacking
    /// order.
    pub(super) fn tiled_ids(&self, workspace: WorkspaceId, monitor: u32) -> (r: Vec<u64>)
        requires
            self.wf(),
        ensures
            r@ == self@.order.filter(tiled_on(self@.windows, workspace, monitor)),
    {
        let order: &Vec<u64> = self.order_ids();
        let ghost p = tiled_on(self@.windows, workspace, monitor);
        let mut r: Vec<u64> = Vec::new();
        let mut i: usize = 0;
        proof {
            self@.lemma_created_exist();
            lemma_filter_empty(p);
            assert(order@.take(0) =~= Seq::<u64>::empty());
        }
        while i < order.len()
            invariant
                i <= order.len(),
                order@ == self@.order,
                forall|k: int| 0 <= k < order.len() ==> self@.has(#[trigger] order[k]),
                p == tiled_on(self@.windows, workspace, monitor),
                r@ == order@.take(i as int).filter(p),
            decreases order.len() - i,
        {
            let id: u64 = order[i];
            proof {
                assert(order@.take(i + 1) =~= order@.take(i as int).push(id));
                lemma_filter_push(order@.take(i as int), id, p);
            }
            match self.window(id) {
                Some(w) => {
                    if w.workspace == workspace && !w.minimized && !w.floating && !w.fullscreen && w.monitor == monitor {
                        r.push(id);
                    }
                },
                None => {},
            }
            i = i + 1;
        }
        assert(order@.take(order.len() as int) =~= order@);
        r
    }

    /// Gives windows their geometries. Entries for unknown windows do nothing.
    pub(super) fn settle(&mut self, slots: &Vec<(u64, Rect)>)
        requires
            old(self).wf(),
        ensures
            final(self)@ == (State { windows: settled_as(old(self)@.windows, slots@), ..old(self)@ }),
            final(self).wf(),
    {
        let ghost s = self@;
        let mut i: usize = 0;
        assert(slots@.take(0) =~= Seq::<(u64, Rect)>::empty());
        while i < slots.len()
            invariant
                i <= slots.len(),
                s == old(self)@,
                self.wf(),
                self@ == (State { windows: settled_as(s.windows, slots@.take(i as int)), ..s }),
            decreases slots.len() - i,
        {
            proof {
                assert(slots@.take(i + 1).drop_last() =~= slots@.take(i as int));
                assert(slots@.take(i + 1).last() == slots@[i as int]);
            }
            let (id, rect): (u64, Rect) = slots[i];
            if self.window(id).is_some() {
                self.put_geometry(id, rect);
            }
            i = i + 1;
        }
        assert(slots@.take(slots.len() as int) =~= slots@);
    }

    /// What the workspace's layout does on each monitor that it is used on.
    fn plan(&self, workspace: WorkspaceId, layout: &str) -> (r: Vec<Vec<(u64, Rect)>>)
        requires
            self.wf(),
            self@.layouts.contains_key(layout@),
        ensures
            listed_all(r@, self@.placements(workspace, layout@)),
    {
        let used: Vec<u32> = self.monitors_used(workspace);
        let mut r: Vec<Vec<(u64, Rect)>> = Vec::new();
        let mut i: usize = 0;
        while i < used.len()
            invariant
                i <= used.len(),
                self.wf(),
                self@.layouts.contains_key(layout@),
                used@ == self@.monitors_used(workspace),
                r.len() == i,
                forall|k: int|
                    0 <= k < i ==> listed((#[trigger] r[k])@, self@.slots_on(workspace, layout@, used[k])),
            decreases used.len() - i,
        {
            let ids: Vec<u64> = self.tiled_ids(workspace, used[i]);
            let list: Vec<(u64, Rect)> = match self.monitor_for(used[i]) {
                Some(m) => {
                    let slots: HashMap<u64, Rect> = self.run_layout(layout, &ids, m);
                    slot_list(&slots)
                },
                None => Vec::new(),
            };
            r.push(list);
            i = i + 1;
        }
        r
    }

    /// Lays out the windows of a workspace that are neither floating nor
    /// minimized nor fullscreen, monitor by monitor, and returns what it gave
    /// to which window.
    pub fn arrange_workspace(&mut self, workspace: WorkspaceId) -> (r: Vec<(WindowId, Rect)>)
        requires
            old(self).wf(),
        ensures
            final(self)@ == old(self)@.arranged(workspace),
            old(self)@.arrangeable(workspace) ==> exists|plan: Seq<Vec<(u64, Rect)>>|
                #[trigger] listed_all(
                    plan,
                    old(self)@.placements(workspace, old(self)@.workspace_with(workspace).layout),
                ) && r@ == in_turn(plan),
            !old(self)@.arrangeable(workspace) ==> r.len() == 0,
            final(self).wf(),
    {
        let name: String = match self.layout_name(workspace) {
            Some(l) => l.to_string(),
            None => {
                return Vec::new();
            },
        };
        if !self.has_layout(name.as_str()) {
            return Vec::new();
        }
        let plan: Vec<Vec<(u64, Rect)>> = self.plan(workspace, name.as_str());
        self.carry_out(&plan, Ghost(self@.placements(workspace, name@)))
    }

    /// Gives windows the geometries of a plan, one monitor after the other.
    fn carry_out(&mut self, plan: &Vec<Vec<(u64, Rect)>>, Ghost(maps): Ghost<Seq<Map<u64, Rect>>>) -> (r: Vec<
        (WindowId, Rect),
    >)
        requires
            old(self).wf(),
            listed_all(plan@, maps),
        ensures
            final(self)@ == (State { windows: settled_all(old(self)@.windows, maps), ..old(self)@ }),
            final(self).wf(),
            r@ == in_turn(plan@),
    {
        let ghost s = self@;
        let mut r: Vec<(WindowId, Rect)> = Vec::new();
        let mut i: usize = 0;
        assert(maps.take(0) =~= Seq::<Map<u64, Rect>>::empty());
        assert(plan@.take(0) =~= Seq::<Vec<(u64, Rect)>>::empty());
        while i < plan.len()
            invariant
                i <= plan.len(),
                s == old(self)@,
                self.wf(),
                listed_all(plan@, maps),
                self@ == (State { windows: settled_all(s.windows, maps.take(i as int)), ..s }),
                r@ == in_turn(plan@.take(i as int)),
            decreases plan.len() - i,
        {
            proof {
                assert(maps.take(i + 1).drop_last() =~= maps.take(i as int));
                assert(maps.take(i + 1).last() == maps[i as int]);
                assert(plan@.take(i + 1).drop_last() =~= plan@.take(i as int));
                assert(plan@.take(i + 1).last() == plan@[i as int]);
                assert(listed(plan@[i as int]@, maps[i as int]));
                lemma_settled_as(self@.windows, plan@[i as int]@, maps[i as int]);
            }
            self.settle(&plan[i]);
            copy_entries(&mut r, &plan[i]);
            i = i + 1;
        }
        assert(maps.take(maps.len() as int) =~= maps);
        assert(plan@.take(plan.len() as int) =~= plan@);
        r
    }
}

/// Puts copies of the entries at the end.
fn copy_entries(to: &mut Vec<(u64, Rect)>, from: &Vec<(u64, Rect)>)
    ensures
        final(to)@ == old(to)@ + from@,
{
    let ghost before = to@;
    let mut i: usize = 0;
    assert(before + from@.take(0) =~= before);
    while i < from.len()
        invariant
            i <= from.len(),
            to@ == before + from@.take(i as int),
        decreases from.len() - i,
    {
        assert(before + from@.take(i + 1) =~= (before + from@.take(i as int)).push(from@[i as int]));
        to.push(from[i]);
        i = i + 1;
    }
    assert(from@.take(from.len() as int) =~= from@);
}

} // verus!
