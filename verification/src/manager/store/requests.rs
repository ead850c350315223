//! What a manager is asked to pass on: requests to backends, which drain them,
//! and what backends and users have told it.
use super::super::model::{
    capture_views, enable_views, fake_views, other_key, other_process, other_output, other_part, other_pid, pinned_at,
    split_views, table_views,
};
use super::{CaptureRequest, Queues, Remembered, Settings, State, WindowManager};
use crate::geometry::Rect;
use crate::ieee::Float64;
use crate::monitor::{DisabledMonitor, MonitorId, MonitorSplit};
use crate::table::{keys_ascend, map_of, TextTable};
use crate::text::{same, views};
use crate::window::WindowId;
use crate::workspace::WorkspaceId;
use vstd::prelude::*;

verus! {

/// The entries of a table, in the order of their keys.
fn entries<V>(table: &TextTable<V>) -> (r: Vec<(&str, &V)>)
    requires
        table.wf(),
    ensures
        keys_ascend(table_views(r@)),
        map_of(table_views(r@)) == table@,
{
    let mut r: Vec<(&str, &V)> = Vec::new();
    let mut i: usize = 0;
    while i < table.len()
        invariant
            i <= table.pairs().len(),
            table_views(r@) == table.pairs().take(i as int),
        decreases table.pairs().len() - i,
    {
        let e = (table.key_at(i).as_str(), table.value_at(i));
        proof {
            assert(table_views(r@.push(e)) =~= table_views(r@).push((e.0@, *e.1)));
            assert(table.pairs().take(i + 1) =~= table.pairs().take(i as int).push(table.pairs()[i as int]));
        }
        r.push(e);
        i = i + 1;
    }
    assert(table.pairs().take(table.pairs().len() as int) =~= table.pairs());
    r
}

/// The requests for other outputs.
fn keep_output_enable(all: Vec<(String, bool)>, name: &str) -> (kept: Vec<(String, bool)>)
    ensures
        enable_views(kept@) == enable_views(all@).filter(other_key(name@)),
{
    let mut kept: Vec<(String, bool)> = Vec::new();
    let ghost whole = enable_views(all@);
    let ghost p = other_key(name@);
    let mut i: usize = 0;
    proof {
        reveal(Seq::filter);
        assert(whole.take(0).filter(p) =~= Seq::empty());
        assert(enable_views(kept@) =~= Seq::empty());
    }
    while i < all.len()
        invariant
            i <= all.len(),
            whole == enable_views(all@),
            p == other_key(name@),
            enable_views(kept@) == whole.take(i as int).filter(p),
        decreases all.len() - i,
    {
        proof {
            reveal(Seq::filter);
            assert(whole.take(i + 1).drop_last() =~= whole.take(i as int));
            assert(whole.take(i + 1).last() == whole[i as int]);
        }
        if !same(all[i].0.as_str(), name) {
            let e = (all[i].0.clone(), all[i].1);
            let ghost before = kept@;
            kept.push(e);
            assert(enable_views(kept@) =~= enable_views(before).push((e.0@, e.1)));
        }
        i = i + 1;
    }
    assert(whole.take(whole.len() as int) =~= whole);
    kept
}

/// The requests for other outputs.
fn keep_split(all: Vec<(String, u32, bool)>, name: &str) -> (kept: Vec<(String, u32, bool)>)
    ensures
        split_views(kept@) == split_views(all@).filter(other_part(name@)),
{
    let mut kept: Vec<(String, u32, bool)> = Vec::new();
    let ghost whole = split_views(all@);
    let ghost p = other_part(name@);
    let mut i: usize = 0;
    proof {
        reveal(Seq::filter);
        assert(whole.take(0).filter(p) =~= Seq::empty());
        assert(split_views(kept@) =~= Seq::empty());
    }
    while i < all.len()
        invariant
            i <= all.len(),
            whole == split_views(all@),
            p == other_part(name@),
            split_views(kept@) == whole.take(i as int).filter(p),
        decreases all.len() - i,
    {
        proof {
            reveal(Seq::filter);
            assert(whole.take(i + 1).drop_last() =~= whole.take(i as int));
            assert(whole.take(i + 1).last() == whole[i as int]);
        }
        if !same(all[i].0.as_str(), name) {
            let e = (all[i].0.clone(), all[i].1, all[i].2);
            let ghost before = kept@;
            kept.push(e);
            assert(split_views(kept@) =~= split_views(before).push((e.0@, e.1, e.2)));
        }
        i = i + 1;
    }
    assert(whole.take(whole.len() as int) =~= whole);
    kept
}

impl WindowManager {
    // ---- Outputs -----------------------------------------------------------------

    /// Asks for an output to be moved. A request for the same output that is
    /// still pending is replaced. Outputs at the same place mirror each other.
    pub fn request_output_position(&mut self, id: MonitorId, x: i32, y: i32)
        requires
            old(self).wf(),
        ensures
            final(self)@.queues.output_position == old(self)@.queues.output_position.filter(other_output(id)).push(
                (id, x, y),
            ),
            final(self)@ == (State {
                queues: Queues { output_position: final(self)@.queues.output_position, ..old(self)@.queues },
                ..old(self)@
            }),
            final(self).wf(),
    {
        let mut kept: Vec<(MonitorId, i32, i32)> = Vec::new();
        let ghost p = other_output(id);
        let ghost all = self.output_position_requests@;
        let mut i: usize = 0;
        proof {
            reveal(Seq::filter);
            assert(all.take(0).filter(p) =~= Seq::empty());
        }
        while i < self.output_position_requests.len()
            invariant
                i <= self.output_position_requests@.len(),
                all == self.output_position_requests@,
                *self == *old(self),
                p == other_output(id),
                kept@ == all.take(i as int).filter(p),
            decreases self.output_position_requests@.len() - i,
        {
            proof {
                reveal(Seq::filter);
                assert(all.take(i + 1).drop_last() =~= all.take(i as int));
            }
            if self.output_position_requests[i].0 != id {
                kept.push(self.output_position_requests[i]);
            }
            i = i + 1;
        }
        assert(all.take(all.len() as int) =~= all);
        kept.push((id, x, y));
        self.output_position_requests = kept;
    }

    /// Takes the pending requests to move outputs.
    pub fn drain_output_position_requests(&mut self) -> (r: Vec<(MonitorId, i32, i32)>)
        requires
            old(self).wf(),
        ensures
            r@ == old(self)@.queues.output_position,
            final(self)@ == (State { queues: Queues { output_position: Seq::empty(), ..old(self)@.queues }, ..old(self)@ }),
            final(self).wf(),
    {
        let mut taken: Vec<(MonitorId, i32, i32)> = Vec::new();
        std::mem::swap(&mut taken, &mut self.output_position_requests);
        assert(self@.queues.output_position =~= Seq::empty());
        taken
    }

    /// Asks for an output to be turned on or off, by name: an output that is off
    /// has no id. Replaces a pending request for the same output.
    pub fn request_output_enabled(&mut self, name: String, enabled: bool)
        requires
            old(self).wf(),
        ensures
            final(self)@.queues.output_enable == old(self)@.queues.output_enable.filter(other_key(name@)).push((name@, enabled)),
            final(self)@ == (State {
                queues: Queues { output_enable: final(self)@.queues.output_enable, ..old(self)@.queues },
                ..old(self)@
            }),
            final(self).wf(),
    {
        let mut pending: Vec<(String, bool)> = Vec::new();
        std::mem::swap(&mut pending, &mut self.output_enable_requests);
        let mut kept: Vec<(String, bool)> = keep_output_enable(pending, name.as_str());
        let ghost before = kept@;
        kept.push((name, enabled));
        assert(enable_views(kept@) =~= enable_views(before).push((name@, enabled)));
        self.output_enable_requests = kept;
    }

    /// Takes the pending requests to turn outputs on and off.
    pub fn drain_output_enable_requests(&mut self) -> (r: Vec<(String, bool)>)
        requires
            old(self).wf(),
        ensures
            enable_views(r@) == old(self)@.queues.output_enable,
            final(self)@ == (State { queues: Queues { output_enable: Seq::empty(), ..old(self)@.queues }, ..old(self)@ }),
            final(self).wf(),
    {
        let mut taken: Vec<(String, bool)> = Vec::new();
        std::mem::swap(&mut taken, &mut self.output_enable_requests);
        assert(self@.queues.output_enable =~= Seq::empty());
        taken
    }

    /// Notes an output that is connected but turned off, so that it can be
    /// listed. It takes no part in placement.
    pub fn set_disabled_monitor(&mut self, name: String, geometry: Rect, full_geometry: Rect, primary: bool)
        requires
            old(self).wf(),
        ensures
            final(self)@ == (State {
                queues: Queues {
                    disabled: old(self)@.queues.disabled.insert(
                        name@,
                        DisabledMonitor { geometry, full_geometry, primary },
                    ),
                    ..old(self)@.queues
                },
                ..old(self)@
            }),
            final(self).wf(),
    {
        self.disabled_monitors.set(name.as_str(), DisabledMonitor { geometry, full_geometry, primary });
    }

    /// Forgets an output that was turned off.
    pub fn clear_disabled_monitor(&mut self, name: &str)
        requires
            old(self).wf(),
        ensures
            final(self)@ == (State {
                queues: Queues { disabled: old(self)@.queues.disabled.remove(name@), ..old(self)@.queues },
                ..old(self)@
            }),
            final(self).wf(),
    {
        self.disabled_monitors.remove(name);
    }

    /// The outputs that are turned off, by name.
    pub fn disabled_monitors(&self) -> (r: Vec<(&str, &DisabledMonitor)>)
        requires
            self.wf(),
        ensures
            keys_ascend(table_views(r@)),
            map_of(table_views(r@)) == self@.queues.disabled,
    {
        entries(&self.disabled_monitors)
    }

    /// Divides an output into equal monitors. One part or none takes the
    /// division back.
    pub fn set_monitor_split(&mut self, name: String, parts: u32, rows: bool)
        requires
            old(self).wf(),
        ensures
            final(self)@ == (State {
                queues: Queues {
                    splits: if parts <= 1 {
                        old(self)@.queues.splits.remove(name@)
                    } else {
                        old(self)@.queues.splits.insert(name@, MonitorSplit { parts, rows })
                    },
                    ..old(self)@.queues
                },
                ..old(self)@
            }),
            final(self).wf(),
    {
        if parts <= 1 {
            self.monitor_splits.remove(name.as_str());
        } else {
            self.monitor_splits.set(name.as_str(), MonitorSplit { parts, rows });
        }
    }

    /// How an output is divided, if it is.
    pub fn monitor_split(&self, name: &str) -> (r: Option<MonitorSplit>)
        requires
            self.wf(),
        ensures
            r == (if self@.queues.splits.contains_key(name@) { Some(self@.queues.splits[name@]) } else { None }),
    {
        match self.monitor_splits.get(name) {
            Some(s) => Some(*s),
            None => None,
        }
    }

    /// Asks for an output to be divided. Replaces a pending request for the same
    /// output.
    pub fn request_monitor_split(&mut self, name: String, parts: u32, rows: bool)
        requires
            old(self).wf(),
        ensures
            final(self)@.queues.split == old(self)@.queues.split.filter(other_part(name@)).push((name@, parts, rows)),
            final(self)@ == (State {
                queues: Queues { split: final(self)@.queues.split, ..old(self)@.queues },
                ..old(self)@
            }),
            final(self).wf(),
    {
        let mut pending: Vec<(String, u32, bool)> = Vec::new();
        std::mem::swap(&mut pending, &mut self.monitor_split_requests);
        let mut kept: Vec<(String, u32, bool)> = keep_split(pending, name.as_str());
        let ghost before = kept@;
        kept.push((name, parts, rows));
        assert(split_views(kept@) =~= split_views(before).push((name@, parts, rows)));
        self.monitor_split_requests = kept;
    }

    /// Takes the pending requests to divide outputs.
    pub fn drain_monitor_split_requests(&mut self) -> (r: Vec<(String, u32, bool)>)
        requires
            old(self).wf(),
        ensures
            split_views(r@) == old(self)@.queues.split,
            final(self)@ == (State { queues: Queues { split: Seq::empty(), ..old(self)@.queues }, ..old(self)@ }),
            final(self).wf(),
    {
        let mut taken: Vec<(String, u32, bool)> = Vec::new();
        std::mem::swap(&mut taken, &mut self.monitor_split_requests);
        assert(self@.queues.split =~= Seq::empty());
        taken
    }

    /// Sets the scale of an output. A factor that is not above zero takes it
    /// back.
    pub fn set_monitor_scale(&mut self, name: String, factor: Float64)
        requires
            old(self).wf(),
        ensures
            final(self)@ == (State {
                queues: Queues {
                    scales: if (Float64 { bits: 0 }).less(factor) {
                        old(self)@.queues.scales.insert(name@, factor)
                    } else {
                        old(self)@.queues.scales.remove(name@)
                    },
                    ..old(self)@.queues
                },
                ..old(self)@
            }),
            final(self).wf(),
    {
        let zero = Float64 { bits: 0 };
        if zero.is_less(&factor) {
            self.monitor_scales.set(name.as_str(), factor);
        } else {
            self.monitor_scales.remove(name.as_str());
        }
    }

    /// The scale of an output, if it was set.
    pub fn monitor_scale(&self, name: &str) -> (r: Option<Float64>)
        requires
            self.wf(),
        ensures
            r == (if self@.queues.scales.contains_key(name@) { Some(self@.queues.scales[name@]) } else { None }),
    {
        match self.monitor_scales.get(name) {
            Some(s) => Some(*s),
            None => None,
        }
    }

    // ---- Fake monitors -------------------------------------------------------------

    /// Asks for a monitor without hardware.
    pub fn request_create_fake_monitor(&mut self, name: String, width: u32, height: u32)
        requires
            old(self).wf(),
        ensures
            final(self)@ == (State {
                queues: Queues {
                    create_fake_monitor: old(self)@.queues.create_fake_monitor.push((name@, width, height)),
                    ..old(self)@.queues
                },
                ..old(self)@
            }),
            final(self).wf(),
    {
        let ghost before = self.create_fake_monitor_requests@;
        self.create_fake_monitor_requests.push((name, width, height));
        assert(fake_views(self.create_fake_monitor_requests@) =~= fake_views(before).push((name@, width, height)));
    }

    /// Takes the pending requests for fake monitors.
    pub fn drain_create_fake_monitor_requests(&mut self) -> (r: Vec<(String, u32, u32)>)
        requires
            old(self).wf(),
        ensures
            fake_views(r@) == old(self)@.queues.create_fake_monitor,
            final(self)@ == (State { queues: Queues { create_fake_monitor: Seq::empty(), ..old(self)@.queues }, ..old(self)@ }),
            final(self).wf(),
    {
        let mut taken: Vec<(String, u32, u32)> = Vec::new();
        std::mem::swap(&mut taken, &mut self.create_fake_monitor_requests);
        assert(self@.queues.create_fake_monitor =~= Seq::empty());
        taken
    }

    /// Asks for a fake monitor to go.
    pub fn request_remove_fake_monitor(&mut self, name: String)
        requires
            old(self).wf(),
        ensures
            final(self)@ == (State {
                queues: Queues {
                    remove_fake_monitor: old(self)@.queues.remove_fake_monitor.push(name@),
                    ..old(self)@.queues
                },
                ..old(self)@
            }),
            final(self).wf(),
    {
        let ghost before = self.remove_fake_monitor_requests@;
        self.remove_fake_monitor_requests.push(name);
        assert(views(self.remove_fake_monitor_requests@) =~= views(before).push(name@));
    }

    /// Takes the pending requests for fake monitors to go.
    pub fn drain_remove_fake_monitor_requests(&mut self) -> (r: Vec<String>)
        requires
            old(self).wf(),
        ensures
            views(r@) == old(self)@.queues.remove_fake_monitor,
            final(self)@ == (State { queues: Queues { remove_fake_monitor: Seq::empty(), ..old(self)@.queues }, ..old(self)@ }),
            final(self).wf(),
    {
        let mut taken: Vec<String> = Vec::new();
        std::mem::swap(&mut taken, &mut self.remove_fake_monitor_requests);
        assert(self@.queues.remove_fake_monitor =~= Seq::empty());
        taken
    }

    // ---- Input pins ------------------------------------------------------------------

    /// Asks for the virtual pointers of a process to be pinned to a window, or
    /// let go. Replaces a pending request for the same process.
    pub fn request_pin_input(&mut self, pid: i32, window: Option<WindowId>)
        requires
            old(self).wf(),
        ensures
            final(self)@.queues.pin_input == old(self)@.queues.pin_input.filter(other_pid(pid)).push((pid, window)),
            final(self)@ == (State {
                queues: Queues { pin_input: final(self)@.queues.pin_input, ..old(self)@.queues },
                ..old(self)@
            }),
            final(self).wf(),
    {
        let mut kept: Vec<(i32, Option<WindowId>)> = Vec::new();
        let ghost p = other_pid(pid);
        let ghost all = self.pin_input_requests@;
        let mut i: usize = 0;
        proof {
            reveal(Seq::filter);
            assert(all.take(0).filter(p) =~= Seq::empty());
        }
        while i < self.pin_input_requests.len()
            invariant
                i <= self.pin_input_requests@.len(),
                all == self.pin_input_requests@,
                *self == *old(self),
                p == other_pid(pid),
                kept@ == all.take(i as int).filter(p),
            decreases self.pin_input_requests@.len() - i,
        {
            proof {
                reveal(Seq::filter);
                assert(all.take(i + 1).drop_last() =~= all.take(i as int));
            }
            if self.pin_input_requests[i].0 != pid {
                kept.push(self.pin_input_requests[i]);
            }
            i = i + 1;
        }
        assert(all.take(all.len() as int) =~= all);
        kept.push((pid, window));
        self.pin_input_requests = kept;
    }

    /// Takes the pending requests to pin input.
    pub fn drain_pin_input_requests(&mut self) -> (r: Vec<(i32, Option<WindowId>)>)
        requires
            old(self).wf(),
        ensures
            r@ == old(self)@.queues.pin_input,
            final(self)@ == (State { queues: Queues { pin_input: Seq::empty(), ..old(self)@.queues }, ..old(self)@ }),
            final(self).wf(),
    {
        let mut taken: Vec<(i32, Option<WindowId>)> = Vec::new();
        std::mem::swap(&mut taken, &mut self.pin_input_requests);
        assert(self@.queues.pin_input =~= Seq::empty());
        taken
    }

    /// Notes what the virtual pointers of a process are pinned to now.
    pub fn set_pinned_window(&mut self, pid: i32, window: Option<WindowId>)
        requires
            old(self).wf(),
        ensures
            final(self)@.queues.pinned == (match window {
                Some(w) => old(self)@.queues.pinned.filter(other_process(pid)).push((pid, w)),
                None => old(self)@.queues.pinned.filter(other_process(pid)),
            }),
            final(self)@ == (State {
                queues: Queues { pinned: final(self)@.queues.pinned, ..old(self)@.queues },
                ..old(self)@
            }),
            final(self).wf(),
    {
        let mut kept: Vec<(i32, u64)> = Vec::new();
        let ghost p = other_process(pid);
        let ghost all = self.pinned_windows@;
        let mut i: usize = 0;
        proof {
            reveal(Seq::filter);
            assert(all.take(0).filter(p) =~= Seq::empty());
        }
        while i < self.pinned_windows.len()
            invariant
                i <= self.pinned_windows@.len(),
                all == self.pinned_windows@,
                *self == *old(self),
                p == other_process(pid),
                kept@ == all.take(i as int).filter(p),
            decreases self.pinned_windows@.len() - i,
        {
            proof {
                reveal(Seq::filter);
                assert(all.take(i + 1).drop_last() =~= all.take(i as int));
            }
            if self.pinned_windows[i].0 != pid {
                kept.push(self.pinned_windows[i]);
            }
            i = i + 1;
        }
        assert(all.take(all.len() as int) =~= all);
        if let Some(w) = window {
            kept.push((pid, w));
        }
        self.pinned_windows = kept;
    }

    /// What the virtual pointers of a process are pinned to.
    pub fn pinned_window(&self, pid: i32) -> (r: Option<WindowId>)
        ensures
            r == pinned_at(self@.queues.pinned, pid),
    {
        let ghost all = self.pinned_windows@;
        let mut i: usize = 0;
        assert(all.skip(0) =~= all);
        while i < self.pinned_windows.len()
            invariant
                i <= self.pinned_windows@.len(),
                all == self.pinned_windows@,
                pinned_at(all, pid) == pinned_at(all.skip(i as int), pid),
            decreases self.pinned_windows@.len() - i,
        {
            proof {
                assert(all.skip(i as int)[0] == all[i as int]);
                assert(all.skip(i as int).skip(1) =~= all.skip(i + 1));
            }
            if self.pinned_windows[i].0 == pid {
                return Some(self.pinned_windows[i].1);
            }
            i = i + 1;
        }
        None
    }

    /// Every process whose virtual pointers are pinned, with the window.
    pub fn all_pinned_windows(&self) -> (r: Vec<(i32, WindowId)>)
        ensures
            r@ == self@.queues.pinned,
    {
        let mut r: Vec<(i32, u64)> = Vec::new();
        let mut i: usize = 0;
        while i < self.pinned_windows.len()
            invariant
                i <= self.pinned_windows@.len(),
                r@ == self.pinned_windows@.take(i as int),
            decreases self.pinned_windows@.len() - i,
        {
            r.push(self.pinned_windows[i]);
            i = i + 1;
        }
        r
    }

    // ---- Lock, refresh, live settings ---------------------------------------------------

    pub(crate) fn lock_wanted(&self) -> (r: bool)
        ensures
            r == self@.queues.lock,
    {
        self.lock_requested
    }

    pub(crate) fn put_lock_wanted(&mut self, wanted: bool)
        requires
            old(self).wf(),
        ensures
            final(self)@ == (State { queues: Queues { lock: wanted, ..old(self)@.queues }, ..old(self)@ }),
            final(self).wf(),
    {
        self.lock_requested = wanted;
    }

    pub(crate) fn refresh_wanted(&self) -> (r: bool)
        ensures
            r == self@.queues.refresh,
    {
        self.refresh_requested
    }

    pub(crate) fn put_refresh_wanted(&mut self, wanted: bool)
        requires
            old(self).wf(),
        ensures
            final(self)@ == (State { queues: Queues { refresh: wanted, ..old(self)@.queues }, ..old(self)@ }),
            final(self).wf(),
    {
        self.refresh_requested = wanted;
    }

    /// Notes a setting that was changed live, so that reading the
    /// configuration again does not undo it. The last change of a key counts.
    pub fn record_live_setting(&mut self, key: &str, value_json: String)
        requires
            old(self).wf(),
        ensures
            final(self)@ == (State {
                queues: Queues {
                    live_settings: old(self)@.queues.live_settings.insert(key@, value_json),
                    ..old(self)@.queues
                },
                ..old(self)@
            }),
            final(self).wf(),
    {
        self.live_settings.set(key, value_json);
    }

    /// The settings that were changed live, by key.
    pub fn live_settings(&self) -> (r: Vec<(String, String)>)
        requires
            self.wf(),
        ensures
            keys_ascend(r@.map_values(|e: (String, String)| (e.0@, e.1))),
            map_of(r@.map_values(|e: (String, String)| (e.0@, e.1))) == self@.queues.live_settings,
    {
        let mut r: Vec<(String, String)> = Vec::new();
        let ghost all = self.live_settings.pairs();
        let mut i: usize = 0;
        while i < self.live_settings.len()
            invariant
                i <= all.len(),
                all == self.live_settings.pairs(),
                r.len() == i,
                forall|k: int| 0 <= k < i ==> (#[trigger] r[k]).0@ == all[k].0 && r[k].1 == all[k].1,
            decreases all.len() - i,
        {
            r.push((self.live_settings.key_at(i).clone(), self.live_settings.value_at(i).clone()));
            i = i + 1;
        }
        assert(r@.map_values(|e: (String, String)| (e.0@, e.1)) =~= all);
        r
    }

    // ---- Captures ------------------------------------------------------------------------

    /// Asks for a workspace to be drawn into a file. Requests add up.
    pub fn request_capture_workspace(&mut self, workspace: WorkspaceId, path: String, size: Option<(u32, u32)>)
        requires
            old(self).wf(),
        ensures
            final(self)@ == (State {
                queues: Queues {
                    capture: old(self)@.queues.capture.push((CaptureRequest { workspace, path, size })@),
                    ..old(self)@.queues
                },
                ..old(self)@
            }),
            final(self).wf(),
    {
        let ghost before = self.capture_requests@;
        let request = CaptureRequest { workspace, path, size };
        self.capture_requests.push(request);
        assert(capture_views(self.capture_requests@) =~= capture_views(before).push(request@));
    }

    /// Takes the pending requests to draw workspaces.
    pub fn drain_capture_requests(&mut self) -> (r: Vec<CaptureRequest>)
        requires
            old(self).wf(),
        ensures
            capture_views(r@) == old(self)@.queues.capture,
            final(self)@ == (State { queues: Queues { capture: Seq::empty(), ..old(self)@.queues }, ..old(self)@ }),
            final(self).wf(),
    {
        let mut taken: Vec<CaptureRequest> = Vec::new();
        std::mem::swap(&mut taken, &mut self.capture_requests);
        assert(self@.queues.capture =~= Seq::empty());
        taken
    }

    // ---- Closing, keyboard layout -----------------------------------------------------------

    /// Asks for a window to be closed.
    pub fn close_window(&mut self, id: WindowId)
        requires
            old(self).wf(),
        ensures
            final(self)@ == (State {
                queues: Queues { close: old(self)@.queues.close.push(id), ..old(self)@.queues },
                ..old(self)@
            }),
            final(self).wf(),
    {
        self.close_requests.push(id);
    }

    /// Takes the windows that were asked to close.
    pub fn take_close_requests(&mut self) -> (r: Vec<WindowId>)
        requires
            old(self).wf(),
        ensures
            r@ == old(self)@.queues.close,
            final(self)@ == (State { queues: Queues { close: Seq::empty(), ..old(self)@.queues }, ..old(self)@ }),
            final(self).wf(),
    {
        let mut taken: Vec<WindowId> = Vec::new();
        std::mem::swap(&mut taken, &mut self.close_requests);
        assert(self@.queues.close =~= Seq::empty());
        taken
    }

    /// Asks for the next keyboard layout. Requests add up.
    pub fn request_keyboard_layout_cycle(&mut self)
        requires
            old(self).wf(),
            old(self)@.queues.layout_cycles < u32::MAX,
        ensures
            final(self)@ == (State {
                queues: Queues { layout_cycles: (old(self)@.queues.layout_cycles + 1) as u32, ..old(self)@.queues },
                ..old(self)@
            }),
            final(self).wf(),
    {
        self.keyboard_layout_cycle_requests = self.keyboard_layout_cycle_requests + 1;
    }

    /// Takes how often the next keyboard layout was asked for.
    pub fn take_keyboard_layout_cycle_requests(&mut self) -> (r: u32)
        requires
            old(self).wf(),
        ensures
            r == old(self)@.queues.layout_cycles,
            final(self)@ == (State { queues: Queues { layout_cycles: 0, ..old(self)@.queues }, ..old(self)@ }),
            final(self).wf(),
    {
        let r: u32 = self.keyboard_layout_cycle_requests;
        self.keyboard_layout_cycle_requests = 0;
        r
    }

    /// Notes the keyboard layout that the platform reports.
    pub fn set_keyboard_layout(&mut self, name: &str)
        requires
            old(self).wf(),
        ensures
            final(self)@ == (State {
                settings: Settings { keyboard_layout: name@, ..old(self)@.settings },
                ..old(self)@
            }),
            final(self).wf(),
    {
        self.keyboard_layout = name.to_string();
    }

    // ---- Remembered geometry -------------------------------------------------------------------

    /// The position and size that an app's next window opens with, if known.
    pub fn remembered_geometry(&self, app_id: &str) -> (r: Option<Remembered>)
        requires
            self.wf(),
        ensures
            r == (if self@.remembered.contains_key(app_id@) { Some(self@.remembered[app_id@]) } else { None }),
    {
        match self.remembered_geometry.get(app_id) {
            Some(g) => Some(*g),
            None => None,
        }
    }

    /// Sets the position and size that an app's next window opens with.
    pub fn set_remembered_geometry(&mut self, app_id: String, geometry: Remembered)
        requires
            old(self).wf(),
        ensures
            final(self)@ == (State {
                remembered: old(self)@.remembered.insert(app_id@, geometry),
                ..old(self)@
            }),
            final(self).wf(),
    {
        self.remembered_geometry.set(app_id.as_str(), geometry);
    }

    /// Every app whose next window's position and size are known.
    pub fn all_remembered_geometry(&self) -> (r: Vec<(&str, &Remembered)>)
        requires
            self.wf(),
        ensures
            keys_ascend(table_views(r@)),
            map_of(table_views(r@)) == self@.remembered,
    {
        entries(&self.remembered_geometry)
    }
}

} // verus!
