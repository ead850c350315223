//! Tables of configuration values, and the dotted keys that a script's nested
//! tables flatten into.
use super::value::{ConfigValue, ConfigView, ScriptValue};
use crate::table::TextTable;
use crate::text::joined;
use vstd::prelude::*;

verus! {

/// The values of a table as their contracts see them.
pub open spec fn values_of(table: Map<Seq<char>, ConfigValue>) -> Map<Seq<char>, ConfigView> {
    table.map_values(|v: ConfigValue| v@)
}

/// What a table holds under a key.
pub open spec fn value_at(values: Map<Seq<char>, ConfigView>, key: Seq<char>) -> Option<ConfigView> {
    if values.contains_key(key) {
        Some(values[key])
    } else {
        None
    }
}

/// Puts a value under a key.
pub fn put(table: &mut TextTable<ConfigValue>, key: &str, value: ConfigValue)
    requires
        old(table).wf(),
    ensures
        final(table).wf(),
        values_of(final(table)@) == values_of(old(table)@).insert(key@, value@),
{
    let ghost before = table@;
    let ghost seen = value;
    table.set(key, value);
    assert(values_of(before.insert(key@, seen)) =~= values_of(before).insert(key@, seen@));
}

/// A key of a script's table.
#[derive(Debug)]
pub enum ScriptKey {
    Text(String),
    /// A string that is not UTF-8.
    Unreadable,
    /// Anything but a string.
    Other,
}

/// What stands under a key of a script's table.
#[derive(Debug)]
pub enum ScriptEntry {
    Table(Vec<(ScriptKey, ScriptEntry)>),
    Value(ScriptValue),
}

/// A key of a script's table is a string, but not UTF-8.
#[derive(Debug, Clone, Copy, PartialEq, Eq, Structural)]
pub struct UnreadableKey;

/// The key of an entry of a nested table.
pub open spec fn dotted(prefix: Seq<char>, key: Seq<char>) -> Seq<char> {
    prefix + "."@ + key
}

/// The values after those of a script's table were added, each under the keys
/// that lead to it, joined by dots, and whether every key could be read. The
/// first that cannot ends it.
pub open spec fn flattened(
    prefix: Seq<char>,
    table: Seq<(ScriptKey, ScriptEntry)>,
    values: Map<Seq<char>, ConfigView>,
) -> (Map<Seq<char>, ConfigView>, bool)
    decreases table,
{
    if table.len() == 0 {
        (values, true)
    } else {
        let (before, readable) = flattened(prefix, table.drop_last(), values);
        if !readable {
            (before, false)
        } else {
            match table.last().0 {
                ScriptKey::Text(key) => match table.last().1 {
                    ScriptEntry::Table(inner) => flattened(dotted(prefix, key@), inner@, before),
                    ScriptEntry::Value(value) => match ConfigValue::taken(value) {
                        Some(taken) => (before.insert(dotted(prefix, key@), taken), true),
                        None => (before, true),
                    },
                },
                ScriptKey::Unreadable => (before, false),
                ScriptKey::Other => (before, true),
            }
        }
    }
}

/// Adds the values of a script's table to `out`, each under the keys that lead
/// to it, joined by dots: `{border = {width = 2}}` with the prefix `theme`
/// becomes `theme.border.width = 2`.
pub fn flatten_table_into(
    prefix: &str,
    table: &Vec<(ScriptKey, ScriptEntry)>,
    out: &mut TextTable<ConfigValue>,
) -> (r: Result<(), UnreadableKey>)
    requires
        old(out).wf(),
    ensures
        final(out).wf(),
        flattened(prefix@, table@, values_of(old(out)@)) == (values_of(final(out)@), r is Ok),
    decreases table,
{
    let ghost before = values_of(out@);
    let mut i: usize = 0;
    assert(table@.take(0) =~= Seq::empty());
    while i < table.len()
        invariant
            i <= table.len(),
            out.wf(),
            before == values_of(old(out)@),
            flattened(prefix@, table@.take(i as int), before) == (values_of(out@), true),
        decreases table.len() - i,
    {
        let ghost so_far = table@.take(i + 1);
        proof {
            assert(so_far.drop_last() =~= table@.take(i as int));
            assert(so_far.last() == table@[i as int]);
        }
        match &table[i].0 {
            ScriptKey::Text(key) => {
                let full = joined(joined(prefix, ".").as_str(), key.as_str());
                match &table[i].1 {
                    ScriptEntry::Table(inner) => {
                        proof {
                            assert(decreases_to!(table => table@[i as int].1));
                        }
                        if let Err(e) = flatten_table_into(full.as_str(), inner, out) {
                            proof {
                                lemma_stopped(prefix@, table@, before, i + 1);
                            }
                            return Err(e);
                        }
                    },
                    ScriptEntry::Value(value) => {
                        if let Some(taken) = ConfigValue::from_script(value) {
                            put(out, full.as_str(), taken);
                        }
                    },
                }
            },
            ScriptKey::Unreadable => {
                proof {
                    lemma_stopped(prefix@, table@, before, i + 1);
                }
                return Err(UnreadableKey);
            },
            ScriptKey::Other => {},
        }
        i = i + 1;
    }
    assert(table@.take(i as int) =~= table@);
    Ok(())
}

/// What follows an unreadable key changes nothing.
proof fn lemma_stopped(
    prefix: Seq<char>,
    table: Seq<(ScriptKey, ScriptEntry)>,
    values: Map<Seq<char>, ConfigView>,
    n: int,
)
    requires
        0 <= n <= table.len(),
        !flattened(prefix, table.take(n), values).1,
    ensures
        flattened(prefix, table, values) == flattened(prefix, table.take(n), values),
    decreases table.len() - n,
{
    if n == table.len() {
        assert(table.take(n) =~= table);
    } else {
        assert(table.take(n + 1).drop_last() =~= table.take(n));
        lemma_stopped(prefix, table, values, n + 1);
    }
}

} // verus!
