//! What holds of the configuration's operations together.
use super::defaults::defaults;
use super::engine::{is_event, BindingsView, EngineView};
use super::table::{dotted, flattened, value_at, ScriptEntry, ScriptKey};
use super::value::{ConfigValue, ConfigView, ScriptValue};
use crate::event::{canonical_combo, lemma_canonical_combo_stays};
use crate::ieee::Float64;
use crate::text::has_prefix;
use vstd::prelude::*;

verus! {

/// A key that was reset has its default again, and no other key changed.
pub proof fn lemma_reset(v: EngineView, key: Seq<char>, other: Seq<char>)
    requires
        other != key,
    ensures
        v.reset(key).at(key) == value_at(defaults(), key),
        v.reset(key).at(other) == v.at(other),
        v.reset(key).registered() == v.registered(),
{
}

/// After a category was reset, its keys have their defaults, or are not set if
/// they have none, and every other key is as it was.
pub proof fn lemma_category_reset(v: EngineView, category: Seq<char>, key: Seq<char>)
    ensures
        v.category_reset(category).at(key) == (if has_prefix(key, category + "."@) {
            value_at(defaults(), key)
        } else {
            v.at(key)
        }),
{
}

/// What a key is set to is what it reads as, until it is set again.
pub proof fn lemma_set_reads_back(v: EngineView, key: Seq<char>, value: ConfigView, other: Seq<char>)
    requires
        other != key,
    ensures
        ({
            let set = EngineView { values: v.values.insert(key, value), ..v };
            set.at(key) == Some(value) && set.at(other) == v.at(other)
        }),
{
}

/// A table with one value sets the key that leads to it.
pub proof fn lemma_flattened_one(
    prefix: Seq<char>,
    key: String,
    value: ScriptValue,
    values: Map<Seq<char>, ConfigView>,
)
    requires
        ConfigValue::taken(value) is Some,
    ensures
        ({
            let table = seq![(ScriptKey::Text(key), ScriptEntry::Value(value))];
            let (after, readable) = flattened(prefix, table, values);
            readable && after == values.insert(dotted(prefix, key@), ConfigValue::taken(value)->Some_0)
        }),
{
    let table = seq![(ScriptKey::Text(key), ScriptEntry::Value(value))];
    assert(table.drop_last() =~= Seq::empty());
    reveal_with_fuel(flattened, 2);
}

/// A bound combo is found in the spelling that key presses are looked up by.
pub proof fn lemma_bound_is_found(v: EngineView, combo: Seq<char>, handler: u64)
    ensures
        v.bound(combo, handler).bindings.contains_key(canonical_combo(combo)),
        v.bound(combo, handler).bindings[canonical_combo(combo)] == handler,
        v.bound_repeating(combo, handler).bindings == v.bound(combo, handler).bindings,
{
}

/// Whether every combo that fires again while held is bound.
pub open spec fn repeating_are_bound(b: BindingsView) -> bool {
    forall|k: Seq<char>| #[trigger] b.repeating.contains_key(k) ==> b.bindings.contains_key(k)
}

/// Every combo that fires again while held is bound: so it starts, and nothing
/// that changes the bindings breaks it.
pub proof fn lemma_repeating_are_bound(v: EngineView, combo: Seq<char>, handler: u64, previous: BindingsView)
    requires
        repeating_are_bound(v.registered()),
        repeating_are_bound(previous),
    ensures
        repeating_are_bound(v.bound(combo, handler).registered()),
        repeating_are_bound(v.bound_repeating(combo, handler).registered()),
        repeating_are_bound(v.cleared().registered()),
        repeating_are_bound(v.with_registered(previous).registered()),
{
    let before = v.registered();
    let once = v.bound(combo, handler).registered();
    let again = v.bound_repeating(combo, handler).registered();
    assert forall|k: Seq<char>| #[trigger] once.repeating.contains_key(k) implies once.bindings.contains_key(k) by {
        assert(before.repeating.contains_key(k) ==> before.bindings.contains_key(k));
    }
    assert forall|k: Seq<char>| #[trigger] again.repeating.contains_key(k) implies again.bindings.contains_key(k) by {
        assert(before.repeating.contains_key(k) ==> before.bindings.contains_key(k));
    }
}

/// A failed reload leaves the bindings and handlers of before it, whatever the
/// script had registered by then, and keeps the values that the script set.
pub proof fn lemma_failed_reload(before: EngineView, during: EngineView)
    ensures
        during.with_registered(before.registered()).registered() == before.registered(),
        during.with_registered(before.registered()).values == during.values,
        before.cleared().values == before.values,
        before.cleared().bindings == Map::<Seq<char>, u64>::empty(),
{
}

/// A table in a table has its entries under both keys.
pub proof fn lemma_flattened_nested(
    prefix: Seq<char>,
    key: String,
    inner: Vec<(ScriptKey, ScriptEntry)>,
    values: Map<Seq<char>, ConfigView>,
)
    ensures
        flattened(prefix, seq![(ScriptKey::Text(key), ScriptEntry::Table(inner))], values) == flattened(
            prefix + "."@ + key@,
            inner@,
            values,
        ),
{
    let table = seq![(ScriptKey::Text(key), ScriptEntry::Table(inner))];
    assert(table.drop_last() =~= Seq::empty());
    assert(flattened(prefix, table.drop_last(), values) == (values, true));
}

/// The entries of a table are added one after the other, so that a later one of
/// the same key stays. One under a key that is no text, or with a value of no
/// use, adds nothing. A key that cannot be read ends it.
pub proof fn lemma_flattened_in_turn(
    prefix: Seq<char>,
    table: Seq<(ScriptKey, ScriptEntry)>,
    key: ScriptKey,
    value: ScriptValue,
    values: Map<Seq<char>, ConfigView>,
)
    requires
        flattened(prefix, table, values).1,
    ensures
        ({
            let before = flattened(prefix, table, values).0;
            let after = flattened(prefix, table.push((key, ScriptEntry::Value(value))), values);
            &&& key is Other ==> after == (before, true)
            &&& key is Unreadable ==> after == (before, false)
            &&& key matches ScriptKey::Text(k) ==> {
                &&& value matches ScriptValue::Text(Some(s)) ==> after == (
                    before.insert(prefix + "."@ + k@, ConfigView::Text(s@)),
                    true,
                )
                &&& value matches ScriptValue::Bool(b) ==> after == (
                    before.insert(prefix + "."@ + k@, ConfigView::Bool(b)),
                    true,
                )
                &&& value matches ScriptValue::Number(n) ==> after == (
                    before.insert(prefix + "."@ + k@, ConfigView::Number(n)),
                    true,
                )
                &&& value is Other ==> after == (before, true)
            }
        }),
{
    let all = table.push((key, ScriptEntry::Value(value)));
    assert(all.drop_last() =~= table);
}

/// A key binding is found under the combination however its modifiers were
/// ordered and its key was written, and the handler bound last is the one.
pub proof fn lemma_bound_last(v: EngineView, combo: Seq<char>, again: Seq<char>, first: u64, last: u64)
    requires
        canonical_combo(combo) == canonical_combo(again),
    ensures
        v.bound(combo, first).bound(again, last).bindings[canonical_combo(combo)] == last,
        v.bound(combo, first).values == v.values,
        v.bound(combo, first).handlers == v.handlers,
        v.bound_repeating(combo, first).repeating.contains_key(canonical_combo(combo)),
        v.bound(combo, first).repeating == v.repeating,
{
}

/// What is taken of a value that a script gives: its text, number, truth or list
/// of texts. Nothing is taken of a text or list that cannot be read, nor of any
/// other value.
pub proof fn lemma_taken(value: ScriptValue)
    ensures
        match ConfigValue::taken(value) {
            Some(ConfigView::Text(t)) => value matches ScriptValue::Text(Some(s)) && s@ == t,
            Some(ConfigView::Bool(b)) => value == ScriptValue::Bool(b),
            Some(ConfigView::List(l)) => value matches ScriptValue::Table(Some(items)) && items@.len() == l.len()
                && forall|i: int| 0 <= i < l.len() ==> #[trigger] l[i] == items@[i]@,
            Some(ConfigView::Number(n)) => value == ScriptValue::Number(n) || (value matches ScriptValue::Integer(i)
                && n == Float64::of_whole(i as int)),
            None => !(value is Number) && !(value is Integer) && !(value is Bool) && !(value matches ScriptValue::Text(
                Some(_),
            )) && !(value matches ScriptValue::Table(Some(_))),
        },
{
}

/// The events that a handler can be registered for.
pub proof fn lemma_events_known(name: Seq<char>)
    ensures
        is_event(name) <==> name == "lid_closed"@ || name == "lid_open"@ || name == "ready"@,
{
}

/// A reload starts with nothing bound, nothing repeating and no handlers, and
/// goes back to all of those if it fails. It leaves the values, what was logged
/// and whether the program runs alone.
pub proof fn lemma_reload_starts_empty(v: EngineView, previous: BindingsView, key: Seq<char>)
    ensures
        !v.cleared().bindings.contains_key(key),
        !v.cleared().repeating.contains_key(key),
        !v.cleared().handlers.contains_key(key),
        v.cleared().values == v.values && v.cleared().log == v.log && v.cleared().running == v.running,
        v.with_registered(previous).bindings == previous.bindings,
        v.with_registered(previous).repeating == previous.repeating,
        v.with_registered(previous).handlers == previous.handlers,
        v.with_registered(previous).values == v.values && v.with_registered(previous).log == v.log,
        v.registered().bindings == v.bindings && v.registered().repeating == v.repeating,
        v.registered().handlers == v.handlers,
{
}

/// A combination is bound under one name however it is written, and binding one
/// leaves all others as they were.
pub proof fn lemma_others_stay_bound(v: EngineView, combo: Seq<char>, handler: u64, other: Seq<char>)
    requires
        other != canonical_combo(combo),
    ensures
        v.bound(combo, handler).bindings.contains_key(other) == v.bindings.contains_key(other),
        v.bindings.contains_key(other) ==> v.bound(combo, handler).bindings[other] == v.bindings[other],
        v.bound_repeating(combo, handler).repeating.contains_key(other) == v.repeating.contains_key(other),
        v.bound(canonical_combo(combo), handler) == v.bound(combo, handler),
{
    lemma_canonical_combo_stays(combo);
}

} // verus!
