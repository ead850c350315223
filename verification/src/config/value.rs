//! Configuration values, and what a script's values make of them.
use crate::ieee::Float64;
use crate::text::{same, views};
use vstd::prelude::*;

verus! {

/// A value that a script has set: a scalar, or a list of texts.
#[derive(Debug)]
pub enum ConfigValue {
    String(String),
    Number(Float64),
    Bool(bool),
    List(Vec<String>),
}

/// A [`ConfigValue`] as its contracts see it.
pub enum ConfigView {
    Text(Seq<char>),
    Number(Float64),
    Bool(bool),
    List(Seq<Seq<char>>),
}

/// A value of the scripting language, as far as the configuration reads it.
#[derive(Debug)]
pub enum ScriptValue {
    /// A string; nothing is held of one that is not UTF-8.
    Text(Option<String>),
    Number(Float64),
    Integer(i64),
    Bool(bool),
    /// A table, read as a list of texts; nothing is held of one with an item
    /// that is no text.
    Table(Option<Vec<String>>),
    /// What the configuration has no use for.
    Other,
}

/// A value of the Lua interpreter.
#[verifier::external_type_specification]
#[verifier::external_body]
pub struct ExLuaValue<'lua>(mlua::Value<'lua>);

/// Reads a value of the Lua interpreter: `mlua::String::to_str` gives the text
/// of a string, and `mlua::Table::sequence_values` the items of a table up to
/// the first that is nil. A table's items are what the interpreter holds at the
/// moment, so nothing is claimed of the result.
#[verifier::external_body]
fn lua_seen(value: &mlua::Value) -> (r: ScriptValue) {
    match value {
        mlua::Value::String(s) => ScriptValue::Text(s.to_str().ok().map(|t| t.to_string())),
        mlua::Value::Number(n) => ScriptValue::Number(Float64 { bits: n.to_bits() }),
        mlua::Value::Integer(i) => ScriptValue::Integer(*i),
        mlua::Value::Boolean(b) => ScriptValue::Bool(*b),
        mlua::Value::Table(t) => ScriptValue::Table(t.clone().sequence_values().collect::<mlua::Result<Vec<String>>>().ok()),
        _ => ScriptValue::Other,
    }
}

/// What an optional value is to the contracts.
pub open spec fn optional_view(value: Option<ConfigValue>) -> Option<ConfigView> {
    match value {
        Some(v) => Some(v@),
        None => None,
    }
}

impl ConfigValue {
    pub open spec fn view(&self) -> ConfigView {
        match self {
            ConfigValue::String(s) => ConfigView::Text(s@),
            ConfigValue::Number(n) => ConfigView::Number(*n),
            ConfigValue::Bool(b) => ConfigView::Bool(*b),
            ConfigValue::List(items) => ConfigView::List(views(items@)),
        }
    }

    /// What a script's value is as a configuration value: strings, booleans and
    /// lists of texts as they are, whole numbers as the nearest floating-point
    /// number, and nothing else.
    pub open spec fn taken(value: ScriptValue) -> Option<ConfigView> {
        match value {
            ScriptValue::Text(Some(s)) => Some(ConfigView::Text(s@)),
            ScriptValue::Number(n) => Some(ConfigView::Number(n)),
            ScriptValue::Integer(i) => Some(ConfigView::Number(Float64::of_whole(i as int))),
            ScriptValue::Bool(b) => Some(ConfigView::Bool(b)),
            ScriptValue::Table(Some(items)) => Some(ConfigView::List(views(items@))),
            _ => None,
        }
    }

    /// What a script's value is as a configuration value.
    pub fn from_script(value: &ScriptValue) -> (r: Option<Self>)
        ensures
            optional_view(r) == Self::taken(*value),
    {
        match value {
            ScriptValue::Text(Some(s)) => Some(ConfigValue::String(s.clone())),
            ScriptValue::Number(n) => Some(ConfigValue::Number(*n)),
            ScriptValue::Integer(i) => Some(ConfigValue::Number(Float64::of_i64(*i))),
            ScriptValue::Bool(b) => Some(ConfigValue::Bool(*b)),
            ScriptValue::Table(Some(items)) => Some(ConfigValue::List(copied(items))),
            _ => None,
        }
    }

    /// What a value of the Lua interpreter is as a configuration value, see
    /// [`Self::from_script`].
    pub fn from_lua(value: &mlua::Value) -> (r: Option<Self>)
        ensures
            exists|seen: ScriptValue| optional_view(r) == #[trigger] Self::taken(seen),
    {
        let seen = lua_seen(value);
        Self::from_script(&seen)
    }

    pub fn as_str(&self) -> (r: Option<&str>)
        ensures
            (match r {
                Some(s) => self@ == ConfigView::Text(s@),
                None => !(self@ is Text),
            }),
    {
        match self {
            ConfigValue::String(s) => Some(s.as_str()),
            _ => None,
        }
    }

    pub fn as_f64(&self) -> (r: Option<Float64>)
        ensures
            (match r {
                Some(n) => self@ == ConfigView::Number(n),
                None => !(self@ is Number),
            }),
    {
        match self {
            ConfigValue::Number(n) => Some(*n),
            _ => None,
        }
    }

    pub fn as_bool(&self) -> (r: Option<bool>)
        ensures
            (match r {
                Some(b) => self@ == ConfigView::Bool(b),
                None => !(self@ is Bool),
            }),
    {
        match self {
            ConfigValue::Bool(b) => Some(*b),
            _ => None,
        }
    }

    pub fn as_list(&self) -> (r: Option<&[String]>)
        ensures
            (match r {
                Some(items) => self@ == ConfigView::List(views(items@)),
                None => !(self@ is List),
            }),
    {
        match self {
            ConfigValue::List(items) => Some(items.as_slice()),
            _ => None,
        }
    }
}

impl PartialEq for ConfigValue {
    fn eq(&self, other: &Self) -> (r: bool) {
        match (self, other) {
            (ConfigValue::String(a), ConfigValue::String(b)) => same(a.as_str(), b.as_str()),
            (ConfigValue::Number(a), ConfigValue::Number(b)) => a.is_equal(b),
            (ConfigValue::Bool(a), ConfigValue::Bool(b)) => *a == *b,
            (ConfigValue::List(a), ConfigValue::List(b)) => same_texts(a, b),
            _ => false,
        }
    }
}

/// Two values of one kind are equal where they hold the same, numbers as
/// numbers.
impl vstd::std_specs::cmp::PartialEqSpecImpl for ConfigValue {
    open spec fn obeys_eq_spec() -> bool {
        true
    }

    open spec fn eq_spec(&self, other: &Self) -> bool {
        match (self@, other@) {
            (ConfigView::Text(a), ConfigView::Text(b)) => a == b,
            (ConfigView::Number(a), ConfigView::Number(b)) => a.equals(b),
            (ConfigView::Bool(a), ConfigView::Bool(b)) => a == b,
            (ConfigView::List(a), ConfigView::List(b)) => a == b,
            _ => false,
        }
    }
}

/// Whether two lists hold the same texts.
fn same_texts(a: &Vec<String>, b: &Vec<String>) -> (r: bool)
    ensures
        r == (views(a@) == views(b@)),
{
    if a.len() != b.len() {
        assert(views(a@).len() != views(b@).len());
        return false;
    }
    let mut i: usize = 0;
    while i < a.len()
        invariant
            i <= a.len(),
            a.len() == b.len(),
            forall|k: int| 0 <= k < i ==> (#[trigger] a@[k])@ == b@[k]@,
        decreases a.len() - i,
    {
        if !same(a[i].as_str(), b[i].as_str()) {
            assert(views(a@)[i as int] != views(b@)[i as int]);
            return false;
        }
        i = i + 1;
    }
    assert(views(a@) =~= views(b@));
    true
}

impl Clone for ConfigValue {
    fn clone(&self) -> (r: Self)
        ensures
            r@ == self@,
    {
        match self {
            ConfigValue::String(s) => ConfigValue::String(s.clone()),
            ConfigValue::Number(n) => ConfigValue::Number(*n),
            ConfigValue::Bool(b) => ConfigValue::Bool(*b),
            ConfigValue::List(items) => ConfigValue::List(copied(items)),
        }
    }
}

/// The same texts again.
pub fn copied(items: &Vec<String>) -> (r: Vec<String>)
    ensures
        views(r@) == views(items@),
{
    let mut r: Vec<String> = Vec::new();
    let mut i: usize = 0;
    while i < items.len()
        invariant
            i <= items.len(),
            r.len() == i,
            forall|k: int| 0 <= k < i ==> (#[trigger] r@[k])@ == items@[k]@,
        decreases items.len() - i,
    {
        r.push(items[i].clone());
        i = i + 1;
    }
    assert(views(r@) =~= views(items@));
    r
}

} // verus!
