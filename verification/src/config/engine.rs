//! What scripts have set, bound and registered.
//!
//! Running a script is up to the caller, who stands in for its functions by
//! numbers: the engine says which one a key or an event calls for.
use super::defaults::{default_config, defaults};
use super::table::{flatten_table_into, flattened, put, value_at, values_of, ScriptEntry, ScriptKey, UnreadableKey};
use super::value::{optional_view, ConfigValue, ConfigView, ScriptValue};
use crate::event::{canonical_combo, canonicalize_key_combo};
use crate::ieee::{Float32, Float64};
use crate::table::{kept, lemma_kept, lists_keys, TextTable};
use crate::text::{has_prefix, joined, same, starts_with, views};
use vstd::prelude::*;

verus! {

/// The configuration, and the functions that scripts have registered, each by
/// the number that stands for it.
pub struct Engine {
    values: TextTable<ConfigValue>,
    key_bindings: TextTable<u64>,
    /// The combos that fire again while held.
    repeat_keys: TextTable<bool>,
    event_handlers: TextTable<u64>,
    log: Vec<String>,
    running: bool,
}

/// An [`Engine`] as its contracts see it.
pub struct EngineView {
    pub values: Map<Seq<char>, ConfigView>,
    pub bindings: Map<Seq<char>, u64>,
    pub repeating: Map<Seq<char>, bool>,
    pub handlers: Map<Seq<char>, u64>,
    pub log: Seq<Seq<char>>,
    pub running: bool,
}

/// What a reload sets aside until it has succeeded.
pub struct Bindings {
    key_bindings: TextTable<u64>,
    repeat_keys: TextTable<bool>,
    event_handlers: TextTable<u64>,
}

/// [`Bindings`] as their contracts see them.
pub struct BindingsView {
    pub bindings: Map<Seq<char>, u64>,
    pub repeating: Map<Seq<char>, bool>,
    pub handlers: Map<Seq<char>, u64>,
}

/// How much of each the configuration has.
#[derive(Debug, Clone, Copy, PartialEq, Eq, Structural)]
pub struct ConfigStatus {
    pub keys: usize,
    pub bound_keys: usize,
    pub log_entries: usize,
}

impl Bindings {
    pub closed spec fn wf(self) -> bool {
        self.key_bindings.wf() && self.repeat_keys.wf() && self.event_handlers.wf()
    }

    pub closed spec fn view(&self) -> BindingsView {
        BindingsView {
            bindings: self.key_bindings@,
            repeating: self.repeat_keys@,
            handlers: self.event_handlers@,
        }
    }
}

/// Whether a text names an event that scripts can handle.
pub open spec fn is_event(name: Seq<char>) -> bool {
    name == "lid_closed"@ || name == "lid_open"@ || name == "ready"@
}

/// The values whose keys have the prefix, or those whose keys have not.
pub open spec fn part(
    values: Map<Seq<char>, ConfigView>,
    prefix: Seq<char>,
    inside: bool,
) -> Map<Seq<char>, ConfigView> {
    Map::new(|k: Seq<char>| values.contains_key(k) && has_prefix(k, prefix) == inside, |k: Seq<char>| values[k])
}

pub open spec fn sided(prefix: Seq<char>, inside: bool) -> spec_fn(Seq<char>) -> bool {
    |k: Seq<char>| has_prefix(k, prefix) == inside
}

impl EngineView {
    /// What a key is set to.
    pub open spec fn at(self, key: Seq<char>) -> Option<ConfigView> {
        value_at(self.values, key)
    }

    /// A key as it was before any script ran.
    pub open spec fn reset(self, key: Seq<char>) -> EngineView {
        EngineView {
            values: if defaults().contains_key(key) {
                self.values.insert(key, defaults()[key])
            } else {
                self.values.remove(key)
            },
            ..self
        }
    }

    /// All keys of a category as they were before any script ran.
    pub open spec fn category_reset(self, category: Seq<char>) -> EngineView {
        let prefix = category + "."@;
        EngineView {
            values: part(self.values, prefix, false).union_prefer_right(part(defaults(), prefix, true)),
            ..self
        }
    }

    pub open spec fn bound(self, combo: Seq<char>, handler: u64) -> EngineView {
        EngineView { bindings: self.bindings.insert(canonical_combo(combo), handler), ..self }
    }

    pub open spec fn bound_repeating(self, combo: Seq<char>, handler: u64) -> EngineView {
        EngineView { repeating: self.repeating.insert(canonical_combo(combo), true), ..self.bound(combo, handler) }
    }

    /// What a reload sets aside.
    pub open spec fn registered(self) -> BindingsView {
        BindingsView { bindings: self.bindings, repeating: self.repeating, handlers: self.handlers }
    }

    pub open spec fn with_registered(self, b: BindingsView) -> EngineView {
        EngineView { bindings: b.bindings, repeating: b.repeating, handlers: b.handlers, ..self }
    }

    pub open spec fn cleared(self) -> EngineView {
        self.with_registered(
            BindingsView { bindings: Map::empty(), repeating: Map::empty(), handlers: Map::empty() },
        )
    }
}

/// Copies the values whose keys have the prefix, or those whose keys have not.
fn copy_part(from: &TextTable<ConfigValue>, prefix: &str, inside: bool, into: &mut TextTable<ConfigValue>)
    requires
        from.wf(),
        old(into).wf(),
    ensures
        final(into).wf(),
        values_of(final(into)@) == values_of(old(into)@).union_prefer_right(
            part(values_of(from@), prefix@, inside),
        ),
{
    let ghost before = values_of(into@);
    let ghost keep = sided(prefix@, inside);
    let mut i: usize = 0;
    proof {
        assert(from.pairs().take(0) =~= Seq::empty());
        assert(before.union_prefer_right(values_of(kept(from.pairs().take(0), keep))) =~= before);
    }
    while i < from.len()
        invariant
            i <= from.pairs().len(),
            into.wf(),
            keep == sided(prefix@, inside),
            values_of(into@) == before.union_prefer_right(values_of(kept(from.pairs().take(i as int), keep))),
        decreases from.pairs().len() - i,
    {
        let key = from.key_at(i);
        let ghost so_far = kept(from.pairs().take(i as int), keep);
        let ghost next = from.pairs()[i as int];
        proof {
            assert(from.pairs().take(i + 1).drop_last() =~= from.pairs().take(i as int));
            assert(from.pairs().take(i + 1).last() == next);
        }
        if starts_with(key.as_str(), prefix) == inside {
            put(into, key.as_str(), from.value_at(i).clone());
            proof {
                assert(values_of(so_far.insert(next.0, next.1)) =~= values_of(so_far).insert(next.0, next.1@));
                assert(values_of(into@) =~= before.union_prefer_right(values_of(so_far.insert(next.0, next.1))));
            }
        }
        i = i + 1;
    }
    proof {
        assert(from.pairs().take(i as int) =~= from.pairs());
        lemma_kept(from.pairs(), keep);
        assert(values_of(kept(from.pairs(), keep)) =~= part(values_of(from@), prefix@, inside));
    }
}

impl Engine {
    pub closed spec fn wf(self) -> bool {
        self.values.wf() && self.key_bindings.wf() && self.repeat_keys.wf() && self.event_handlers.wf()
    }

    pub closed spec fn view(&self) -> EngineView {
        EngineView {
            values: values_of(self.values@),
            bindings: self.key_bindings@,
            repeating: self.repeat_keys@,
            handlers: self.event_handlers@,
            log: views(self.log@),
            running: self.running,
        }
    }

    /// The configuration before any script has run.
    pub fn new() -> (r: Self)
        ensures
            r.wf(),
            r@ == (EngineView {
                values: defaults(),
                bindings: Map::empty(),
                repeating: Map::empty(),
                handlers: Map::empty(),
                log: Seq::empty(),
                running: true,
            }),
    {
        let r = Engine {
            values: default_config(),
            key_bindings: TextTable::new(),
            repeat_keys: TextTable::new(),
            event_handlers: TextTable::new(),
            log: Vec::new(),
            running: true,
        };
        assert(r@.log =~= Seq::empty());
        r
    }

    /// Whether no script has asked to quit.
    pub fn is_running(&self) -> (r: bool)
        ensures
            r == self@.running,
    {
        self.running
    }

    pub fn quit(&mut self)
        requires
            old(self).wf(),
        ensures
            final(self).wf(),
            final(self)@ == (EngineView { running: false, ..old(self)@ }),
    {
        self.running = false;
    }

    // ---- Values --------------------------------------------------------------

    pub fn get(&self, key: &str) -> (r: Option<ConfigValue>)
        requires
            self.wf(),
        ensures
            optional_view(r) == self@.at(key@),
    {
        match self.values.get(key) {
            Some(v) => Some(v.clone()),
            None => None,
        }
    }

    /// The text a key is set to, or `default` if it is not set to a text.
    pub fn get_string(&self, key: &str, default: &str) -> (r: String)
        requires
            self.wf(),
        ensures
            r@ == (match self@.at(key@) {
                Some(ConfigView::Text(s)) => s,
                _ => default@,
            }),
    {
        match self.values.get(key) {
            Some(ConfigValue::String(s)) => s.clone(),
            _ => default.to_string(),
        }
    }

    /// What a key is set to, or `default` if it is not set to true or false.
    pub fn get_bool(&self, key: &str, default: bool) -> (r: bool)
        requires
            self.wf(),
        ensures
            r == (match self@.at(key@) {
                Some(ConfigView::Bool(b)) => b,
                _ => default,
            }),
    {
        match self.values.get(key) {
            Some(ConfigValue::Bool(b)) => *b,
            _ => default,
        }
    }

    /// The number a key is set to, or `default` if it is not set to a number.
    pub fn get_f64(&self, key: &str, default: Float64) -> (r: Float64)
        requires
            self.wf(),
        ensures
            r == (match self@.at(key@) {
                Some(ConfigView::Number(n)) => n,
                _ => default,
            }),
    {
        match self.values.get(key) {
            Some(ConfigValue::Number(n)) => *n,
            _ => default,
        }
    }

    /// Sets a key to a text.
    pub fn set_string(&mut self, key: &str, value: &str)
        requires
            old(self).wf(),
        ensures
            final(self).wf(),
            final(self)@ == (EngineView {
                values: old(self)@.values.insert(key@, ConfigView::Text(value@)),
                ..old(self)@
            }),
    {
        put(&mut self.values, key, ConfigValue::String(value.to_string()));
    }

    /// Sets a key to a value.
    pub fn put_value(&mut self, key: &str, value: ConfigValue)
        requires
            old(self).wf(),
        ensures
            final(self).wf(),
            final(self)@ == (EngineView { values: old(self)@.values.insert(key@, value@), ..old(self)@ }),
    {
        put(&mut self.values, key, value);
    }

    /// Sets a key to a script's value, if the configuration can hold it.
    pub fn set(&mut self, key: &str, value: &ScriptValue)
        requires
            old(self).wf(),
        ensures
            final(self).wf(),
            final(self)@ == (match ConfigValue::taken(*value) {
                Some(v) => EngineView { values: old(self)@.values.insert(key@, v), ..old(self)@ },
                None => old(self)@,
            }),
    {
        if let Some(v) = ConfigValue::from_script(value) {
            put(&mut self.values, key, v);
        }
    }

    /// Sets a key back to what it was before any script ran.
    pub fn reset(&mut self, key: &str)
        requires
            old(self).wf(),
        ensures
            final(self).wf(),
            final(self)@ == old(self)@.reset(key@),
    {
        let first = default_config();
        let ghost before = self.values@;
        match first.get(key) {
            Some(v) => {
                put(&mut self.values, key, v.clone());
                assert(defaults().contains_key(key@) && defaults()[key@] == v@);
            },
            None => {
                self.values.remove(key);
                assert(!defaults().contains_key(key@));
                assert(values_of(before.remove(key@)) =~= values_of(before).remove(key@));
            },
        }
    }

    /// Sets every key back to what it was before any script ran.
    pub fn reset_all(&mut self)
        requires
            old(self).wf(),
        ensures
            final(self).wf(),
            final(self)@ == (EngineView { values: defaults(), ..old(self)@ }),
    {
        self.values = default_config();
    }

    /// Sets every key of a category (`theme` for `theme.colors.accent`) back to
    /// what it was before any script ran.
    pub fn reset_category(&mut self, category: &str)
        requires
            old(self).wf(),
        ensures
            final(self).wf(),
            final(self)@ == old(self)@.category_reset(category@),
    {
        let prefix = joined(category, ".");
        let first = default_config();
        let mut values: TextTable<ConfigValue> = TextTable::new();
        assert(values_of(values@) =~= Map::empty());
        copy_part(&self.values, prefix.as_str(), false, &mut values);
        assert(values_of(values@) =~= part(self@.values, prefix@, false));
        copy_part(&first, prefix.as_str(), true, &mut values);
        self.values = values;
    }

    // ---- Keys and events -------------------------------------------------------

    /// Binds a key combo, in any spelling of its modifiers.
    pub fn bind(&mut self, combo: &str, handler: u64)
        requires
            old(self).wf(),
        ensures
            final(self).wf(),
            final(self)@ == old(self)@.bound(combo@, handler),
    {
        let combo = canonicalize_key_combo(combo);
        self.key_bindings.set(combo.as_str(), handler);
    }

    /// Binds a key combo that fires again while it is held.
    pub fn bind_repeat(&mut self, combo: &str, handler: u64)
        requires
            old(self).wf(),
        ensures
            final(self).wf(),
            final(self)@ == old(self)@.bound_repeating(combo@, handler),
    {
        let combo = canonicalize_key_combo(combo);
        self.repeat_keys.set(combo.as_str(), true);
        self.key_bindings.set(combo.as_str(), handler);
    }

    /// Registers a handler for an event that is no key: `lid_closed`,
    /// `lid_open` or `ready`.
    pub fn on(&mut self, name: &str, handler: u64) -> (r: Result<(), String>)
        requires
            old(self).wf(),
        ensures
            final(self).wf(),
            is_event(name@) ==> r is Ok && final(self)@ == (EngineView {
                handlers: old(self)@.handlers.insert(name@, handler),
                ..old(self)@
            }),
            !is_event(name@) ==> final(self)@ == old(self)@ && (r matches Err(message) && message@
                == "srd.on: unknown event '"@ + name@ + "' (known: lid_closed, lid_open, ready)"@),
    {
        if same(name, "lid_closed") || same(name, "lid_open") || same(name, "ready") {
            self.event_handlers.set(name, handler);
            Ok(())
        } else {
            let message = joined("srd.on: unknown event '", name);
            Err(joined(message.as_str(), "' (known: lid_closed, lid_open, ready)"))
        }
    }

    /// The handler that an event calls for, if any.
    pub fn dispatch_event(&self, name: &str) -> (r: Option<u64>)
        requires
            self.wf(),
        ensures
            r == (if self@.handlers.contains_key(name@) { Some(self@.handlers[name@]) } else { None }),
    {
        match self.event_handlers.get(name) {
            Some(handler) => Some(*handler),
            None => None,
        }
    }

    /// The handler that a key combo calls for, if any.
    pub fn dispatch_keybinding(&self, combo: &str) -> (r: Option<u64>)
        requires
            self.wf(),
        ensures
            r == (if self@.bindings.contains_key(combo@) { Some(self@.bindings[combo@]) } else { None }),
    {
        match self.key_bindings.get(combo) {
            Some(handler) => Some(*handler),
            None => None,
        }
    }

    /// The combos that are bound, in the order of their texts.
    pub fn bound_keys(&self) -> (r: Vec<String>)
        requires
            self.wf(),
        ensures
            lists_keys(views(r@), self@.bindings),
    {
        self.key_bindings.keys()
    }

    /// The combos that fire again while held, in the order of their texts.
    pub fn repeat_keys(&self) -> (r: Vec<String>)
        requires
            self.wf(),
        ensures
            lists_keys(views(r@), self@.repeating),
    {
        self.repeat_keys.keys()
    }

    // ---- Nested settings -------------------------------------------------------

    /// Sets what a script's table holds, under keys that start with `prefix`.
    pub fn set_under(&mut self, prefix: &str, table: &Vec<(ScriptKey, ScriptEntry)>) -> (r: Result<(), UnreadableKey>)
        requires
            old(self).wf(),
        ensures
            final(self).wf(),
            ({
                let (values, readable) = flattened(prefix@, table@, old(self)@.values);
                final(self)@ == (EngineView { values, ..old(self)@ }) && readable == (r is Ok)
            }),
    {
        flatten_table_into(prefix, table, &mut self.values)
    }

    /// Sets a layout's options. Where its master ratio is then a number, that
    /// is what the window manager is to tile with from now on.
    pub fn configure_layout(
        &mut self,
        name: &str,
        table: &Vec<(ScriptKey, ScriptEntry)>,
    ) -> (r: Result<Option<Float32>, UnreadableKey>)
        requires
            old(self).wf(),
        ensures
            final(self).wf(),
            ({
                let (values, readable) = flattened("layout."@ + name@, table@, old(self)@.values);
                &&& final(self)@ == (EngineView { values, ..old(self)@ })
                &&& r is Ok <==> readable
                &&& r matches Ok(ratio) ==> match value_at(values, "layout."@ + name@ + ".master_ratio"@) {
                    Some(ConfigView::Number(n)) => ratio matches Some(narrow) && n.is_narrowed(narrow),
                    _ => ratio is None,
                }
            }),
    {
        let prefix = joined("layout.", name);
        if let Err(e) = self.set_under(prefix.as_str(), table) {
            return Err(e);
        }
        let key = joined(prefix.as_str(), ".master_ratio");
        match self.values.get(key.as_str()) {
            Some(ConfigValue::Number(n)) => Ok(Some(n.narrowed())),
            _ => Ok(None),
        }
    }

    // ---- Reloading -------------------------------------------------------------

    /// Starts a reload: sets aside every binding and handler, so that one that
    /// the edited script no longer has is gone. The values stay.
    pub fn begin_reload(&mut self) -> (r: Bindings)
        requires
            old(self).wf(),
        ensures
            final(self).wf(),
            r.wf(),
            r@ == old(self)@.registered(),
            final(self)@ == old(self)@.cleared(),
    {
        let mut r = Bindings {
            key_bindings: TextTable::new(),
            repeat_keys: TextTable::new(),
            event_handlers: TextTable::new(),
        };
        std::mem::swap(&mut self.key_bindings, &mut r.key_bindings);
        std::mem::swap(&mut self.repeat_keys, &mut r.repeat_keys);
        std::mem::swap(&mut self.event_handlers, &mut r.event_handlers);
        r
    }

    /// Ends a reload. If the script failed, what was set aside comes back, and
    /// whatever the script had registered by then is dropped.
    pub fn finish_reload(&mut self, previous: Bindings, succeeded: bool)
        requires
            old(self).wf(),
            previous.wf(),
        ensures
            final(self).wf(),
            final(self)@ == (if succeeded { old(self)@ } else { old(self)@.with_registered(previous@) }),
    {
        if !succeeded {
            self.key_bindings = previous.key_bindings;
            self.repeat_keys = previous.repeat_keys;
            self.event_handlers = previous.event_handlers;
        }
    }

    // ---- What there is to see --------------------------------------------------

    /// Adds a message to the log and returns the entry. Without a level, it is
    /// for information.
    pub fn notify(&mut self, message: &str, level: Option<&str>) -> (r: String)
        requires
            old(self).wf(),
        ensures
            final(self).wf(),
            r@ == "["@ + (match level {
                Some(l) => l@,
                None => "info"@,
            }) + "] "@ + message@,
            final(self)@ == (EngineView { log: old(self)@.log.push(r@), ..old(self)@ }),
    {
        let level: &str = match level {
            Some(l) => l,
            None => "info",
        };
        let entry = joined(joined(joined("[", level).as_str(), "] ").as_str(), message);
        let ghost before = self.log@;
        self.log.push(entry.clone());
        assert(views(self.log@) =~= views(before).push(entry@));
        entry
    }

    /// How much of each there is.
    pub fn config_status(&self) -> (r: ConfigStatus)
        requires
            self.wf(),
        ensures
            r.keys == self@.values.dom().len(),
            r.bound_keys == self@.bindings.dom().len(),
            r.log_entries == self@.log.len(),
    {
        assert(values_of(self.values@).dom() =~= self.values@.dom());
        ConfigStatus {
            keys: self.values.count(),
            bound_keys: self.key_bindings.count(),
            log_entries: self.log.len(),
        }
    }

    /// Every setting, in the order of the keys.
    pub fn settings(&self) -> (r: Vec<(String, ConfigValue)>)
        requires
            self.wf(),
        ensures
            lists_keys(Seq::new(r@.len(), |i: int| r@[i].0@), self@.values),
            forall|i: int| 0 <= i < r@.len() ==> self@.at((#[trigger] r@[i]).0@) == Some(r@[i].1@),
    {
        let keys = self.values.keys();
        let mut r: Vec<(String, ConfigValue)> = Vec::new();
        let mut i: usize = 0;
        while i < keys.len()
            invariant
                self.wf(),
                i <= keys.len(),
                r.len() == i,
                lists_keys(views(keys@), self.values@),
                forall|k: int| 0 <= k < i ==> (#[trigger] r@[k]).0@ == keys@[k]@,
                forall|k: int| 0 <= k < i ==> self@.at((#[trigger] r@[k]).0@) == Some(r@[k].1@),
            decreases keys.len() - i,
        {
            proof {
                assert(views(keys@)[i as int] == keys@[i as int]@);
                assert(views(keys@).contains(keys@[i as int]@));
                assert(self.values@.contains_key(keys@[i as int]@));
            }
            if let Some(v) = self.values.get(keys[i].as_str()) {
                r.push((keys[i].clone(), v.clone()));
            }
            i = i + 1;
        }
        proof {
            assert(Seq::new(r@.len(), |i: int| r@[i].0@) =~= views(keys@));
            assert(values_of(self.values@).dom() =~= self.values@.dom());
            assert forall|k: Seq<char>| #[trigger] self@.values.contains_key(k) <==> views(keys@).contains(k) by {
                assert(self.values@.contains_key(k) <==> views(keys@).contains(k));
            }
        }
        r
    }
}

} // verus!
