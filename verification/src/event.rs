//! Input events and key combinations.
use crate::keysyms::{
    canonical_name, keysym_to_name, lemma_canonical_name_plain, lemma_canonical_name_stays, name_to_keysym,
};
use crate::monitor::{Monitor, MonitorId};
use crate::text::{first_at, joined, lemma_first_at, lemma_first_is, same, split, split_at_each, views};
use crate::window::WindowId;
use vstd::prelude::*;

verus! {

/// A set of modifier keys.
#[derive(Debug, Clone, Copy, PartialEq, Eq, Structural)]
pub struct Modifiers {
    pub bits: u8,
}

impl Default for Modifiers {
    fn default() -> (r: Self)
        ensures
            r.bits == 0,
    {
        Modifiers { bits: 0 }
    }
}

impl Modifiers {
    pub const SHIFT: u8 = 0b0000_0001;

    pub const CTRL: u8 = 0b0000_0010;

    pub const ALT: u8 = 0b0000_0100;

    pub const SUPER: u8 = 0b0000_1000;

    /// Whether all of `flags` are in the set.
    pub open spec fn has(self, flags: u8) -> bool {
        self.bits & flags == flags
    }

    /// The set with `flags` added.
    pub open spec fn plus(self, flags: u8) -> Modifiers {
        Modifiers { bits: self.bits | flags }
    }

    /// The modifiers in the fixed order Ctrl, Shift, Alt, Mod4.
    pub open spec fn text(self) -> Seq<char> {
        (if self.has(Self::CTRL) { "Ctrl+"@ } else { ""@ }) + (if self.has(Self::SHIFT) { "Shift+"@ } else { ""@ })
            + (if self.has(Self::ALT) { "Alt+"@ } else { ""@ }) + (if self.has(Self::SUPER) { "Mod4+"@ } else { ""@ })
    }

    pub fn empty() -> (r: Self)
        ensures
            r.bits == 0,
    {
        Modifiers { bits: 0 }
    }

    /// Whether all of `flags` are in the set.
    pub fn contains(&self, flags: u8) -> (r: bool)
        ensures
            r == self.has(flags),
    {
        self.bits & flags == flags
    }

    /// The set with `flags` added.
    pub fn with(self, flags: u8) -> (r: Self)
        ensures
            r == self.plus(flags),
    {
        Modifiers { bits: self.bits | flags }
    }

    /// The modifiers as text, each with a plus sign after it.
    pub fn to_text(&self) -> (r: String)
        ensures
            r@ == self.text(),
    {
        let a = if self.contains(Self::CTRL) { "Ctrl+" } else { "" };
        let b = if self.contains(Self::SHIFT) { "Shift+" } else { "" };
        let c = if self.contains(Self::ALT) { "Alt+" } else { "" };
        let d = if self.contains(Self::SUPER) { "Mod4+" } else { "" };
        a.to_string().concat(b).concat(c).concat(d)
    }
}

#[derive(Debug, Clone, Copy, PartialEq, Eq, Structural)]
pub enum MouseButton {
    Left,
    Right,
    Middle,
    Other(u8),
}

/// A key combination such as `Shift+Mod4+Return`, the form in which bindings
/// are stored and looked up.
pub fn key_combo_string(modifiers: Modifiers, key_name: &str) -> (r: String)
    ensures
        r@ == modifiers.text() + key_name@,
{
    joined(modifiers.to_text().as_str(), key_name)
}

/// The modifier that a word names; 0 where it names none.
pub open spec fn flag_named(word: Seq<char>) -> u8 {
    if word == "Ctrl"@ {
        Modifiers::CTRL
    } else if word == "Shift"@ {
        Modifiers::SHIFT
    } else if word == "Alt"@ {
        Modifiers::ALT
    } else if word == "Mod4"@ || word == "Super"@ {
        Modifiers::SUPER
    } else {
        0
    }
}

/// The modifiers that the words name together.
pub open spec fn flags_named(words: Seq<Seq<char>>) -> u8
    decreases words.len(),
{
    if words.len() == 0 {
        0
    } else {
        flags_named(words.drop_last()) | flag_named(words.last())
    }
}

/// What [`parse_key_combo`] reads: the words before the last plus sign as
/// modifiers, and the rest as the key's name.
pub open spec fn combo_parts(combo: Seq<char>) -> Option<(Modifiers, Seq<char>)> {
    let parts = split_at_each(combo, '+');
    if combo.len() == 0 {
        None
    } else {
        Some((Modifiers { bits: flags_named(parts.drop_last()) }, parts.last()))
    }
}

fn parse_flag(word: &str) -> (r: u8)
    ensures
        r == flag_named(word@),
{
    if same(word, "Ctrl") {
        Modifiers::CTRL
    } else if same(word, "Shift") {
        Modifiers::SHIFT
    } else if same(word, "Alt") {
        Modifiers::ALT
    } else if same(word, "Mod4") || same(word, "Super") {
        Modifiers::SUPER
    } else {
        0
    }
}

/// Parses a combo such as `Mod4+Shift+Return` into modifiers plus the bare key
/// name, accepting the modifier words in any order. Words that name no modifier
/// are passed over. Returns `None` for an empty combo.
pub fn parse_key_combo(combo: &str) -> (r: Option<(Modifiers, String)>)
    ensures
        (match r {
            Some(p) => Some((p.0, p.1@)),
            None => None,
        }) == combo_parts(combo@),
{
    if combo.is_empty() {
        return None;
    }
    let parts = split(combo, '+');
    proof {
        assert(views(parts@).len() == parts@.len());
        assert(views(parts@).drop_last() =~= views(parts@.drop_last()));
    }
    let last: usize = parts.len() - 1;
    let mut modifiers = Modifiers::empty();
    let mut i: usize = 0;
    assert(views(parts@.subrange(0, 0)) =~= Seq::<Seq<char>>::empty());
    while i < last
        invariant
            i <= last,
            last == parts.len() - 1,
            modifiers.bits == flags_named(views(parts@.subrange(0, i as int))),
        decreases last - i,
    {
        proof {
            let next = views(parts@.subrange(0, i + 1));
            assert(next.drop_last() =~= views(parts@.subrange(0, i as int)));
            assert(next.last() == parts@[i as int]@);
        }
        modifiers = modifiers.with(parse_flag(parts[i].as_str()));
        i = i + 1;
    }
    assert(parts@.subrange(0, last as int) =~= parts@.drop_last());
    Some((modifiers, parts[last].clone()))
}

/// The combo with its modifiers in the fixed order and its key's name as a
/// keypress has it.
pub open spec fn canonical_combo(combo: Seq<char>) -> Seq<char> {
    match combo_parts(combo) {
        Some(p) => p.0.text() + canonical_name(p.1),
        None => combo,
    }
}

/// Re-orders a combo into the form that [`key_combo_string`] produces, and
/// brings the key's name into the form that a keypress has. An unknown key
/// name stays as it is, and so does an empty combo.
pub fn canonicalize_key_combo(combo: &str) -> (r: String)
    ensures
        r@ == canonical_combo(combo@),
{
    match parse_key_combo(combo) {
        Some((modifiers, key_name)) => {
            match name_to_keysym(key_name.as_str()) {
                Some(k) => match keysym_to_name(k) {
                    Some(name) => key_combo_string(modifiers, name.as_str()),
                    None => key_combo_string(modifiers, key_name.as_str()),
                },
                None => key_combo_string(modifiers, key_name.as_str()),
            }
        },
        None => combo.to_string(),
    }
}

/// Splitting a word without the separator, the separator and a rest gives the
/// word and the parts of the rest.
proof fn lemma_split_word(word: Seq<char>, rest: Seq<char>)
    requires
        forall|i: int| 0 <= i < word.len() ==> word[i] != '+',
    ensures
        split_at_each(word + seq!['+'] + rest, '+') == seq![word] + split_at_each(rest, '+'),
{
    let s = word + seq!['+'] + rest;
    lemma_first_is(s, '+', word.len() as int);
    assert(s.take(word.len() as int) =~= word);
    assert(s.skip(word.len() as int + 1) =~= rest);
}

/// Adding a word adds its modifier.
proof fn lemma_flags_push(words: Seq<Seq<char>>, word: Seq<char>)
    ensures
        flags_named(words + seq![word]) == flags_named(words) | flag_named(word),
{
    assert((words + seq![word]).drop_last() =~= words);
}

/// One modifier in front of a combo's parts, if `on`.
proof fn lemma_prefix(on: bool, text: Seq<char>, word: Seq<char>, rest: Seq<char>)
    requires
        text == word + seq!['+'],
        forall|i: int| 0 <= i < word.len() ==> word[i] != '+',
    ensures
        split_at_each((if on { text } else { ""@ }) + rest, '+') == (if on {
            seq![word]
        } else {
            Seq::empty()
        }) + split_at_each(rest, '+'),
{
    reveal_strlit("");
    if on {
        lemma_split_word(word, rest);
    } else {
        assert(""@ + rest =~= rest);
        assert(Seq::<Seq<char>>::empty() + split_at_each(rest, '+') =~= split_at_each(rest, '+'));
    }
}

/// A combo that was written from modifiers and a key's name reads back as them.
#[verifier::rlimit(40)]
pub proof fn lemma_combo_reads_back(modifiers: Modifiers, key: Seq<char>)
    requires
        modifiers.bits < 16,
        key.len() > 0 || modifiers.bits != 0,
        forall|i: int| 0 <= i < key.len() ==> key[i] != '+',
    ensures
        combo_parts(modifiers.text() + key) == Some((modifiers, key)),
{
    reveal_strlit("Ctrl+");
    reveal_strlit("Shift+");
    reveal_strlit("Alt+");
    reveal_strlit("Mod4+");
    reveal_strlit("Ctrl");
    reveal_strlit("Shift");
    reveal_strlit("Alt");
    reveal_strlit("Mod4");
    reveal_strlit("Super");
    assert("Ctrl+"@ =~= "Ctrl"@ + seq!['+']);
    assert("Shift+"@ =~= "Shift"@ + seq!['+']);
    assert("Alt+"@ =~= "Alt"@ + seq!['+']);
    assert("Mod4+"@ =~= "Mod4"@ + seq!['+']);
    let none = Seq::<Seq<char>>::empty();
    let ctrl = modifiers.has(Modifiers::CTRL);
    let shift = modifiers.has(Modifiers::SHIFT);
    let alt = modifiers.has(Modifiers::ALT);
    let sup = modifiers.has(Modifiers::SUPER);
    let t4 = (if sup { "Mod4+"@ } else { ""@ }) + key;
    let t3 = (if alt { "Alt+"@ } else { ""@ }) + t4;
    let t2 = (if shift { "Shift+"@ } else { ""@ }) + t3;
    let t1 = (if ctrl { "Ctrl+"@ } else { ""@ }) + t2;
    assert(t1 =~= modifiers.text() + key);
    lemma_first_is(key, '+', key.len() as int);
    lemma_prefix(sup, "Mod4+"@, "Mod4"@, key);
    lemma_prefix(alt, "Alt+"@, "Alt"@, t4);
    lemma_prefix(shift, "Shift+"@, "Shift"@, t3);
    lemma_prefix(ctrl, "Ctrl+"@, "Ctrl"@, t2);
    let w1 = if ctrl { seq!["Ctrl"@] } else { none };
    let w2 = w1 + if shift { seq!["Shift"@] } else { none };
    let w3 = w2 + if alt { seq!["Alt"@] } else { none };
    let w4 = w3 + if sup { seq!["Mod4"@] } else { none };
    assert(split_at_each(t1, '+') =~= w4 + seq![key]);
    lemma_text_not_empty(modifiers);
    assert(split_at_each(t1, '+').drop_last() =~= w4);
    assert(none + seq!["Ctrl"@] =~= seq!["Ctrl"@]);
    assert(w1 + none =~= w1 && w2 + none =~= w2 && w3 + none =~= w3);
    lemma_flags_push(none, "Ctrl"@);
    lemma_flags_push(w1, "Shift"@);
    lemma_flags_push(w2, "Alt"@);
    lemma_flags_push(w3, "Mod4"@);
    assert("Ctrl"@[0] == 'C' && "Shift"@[0] == 'S' && "Alt"@[0] == 'A' && "Mod4"@[0] == 'M' && "Shift"@[1] == 'h');
    assert(flag_named("Ctrl"@) == 2 && flag_named("Shift"@) == 1 && flag_named("Alt"@) == 4 && flag_named("Mod4"@)
        == 8);
    let b = modifiers.bits;
    let f1: u8 = if ctrl { 0u8 | 2 } else { 0 };
    let f2: u8 = if shift { f1 | 1 } else { f1 };
    let f3: u8 = if alt { f2 | 4 } else { f2 };
    let f4: u8 = if sup { f3 | 8 } else { f3 };
    assert(flags_named(w4) == f4);
    assert(f4 == b) by (bit_vector)
        requires
            b < 16,
            ctrl == (b & 2 == 2),
            shift == (b & 1 == 1),
            alt == (b & 4 == 4),
            sup == (b & 8 == 8),
            f1 == (if ctrl { 0u8 | 2 } else { 0u8 }),
            f2 == (if shift { f1 | 1 } else { f1 }),
            f3 == (if alt { f2 | 4 } else { f2 }),
            f4 == (if sup { f3 | 8 } else { f3 }),
    ;
}

/// Only the four modifiers are ever named.
proof fn lemma_flags_bounded(words: Seq<Seq<char>>)
    ensures
        flags_named(words) < 16,
    decreases words.len(),
{
    if words.len() > 0 {
        lemma_flags_bounded(words.drop_last());
        let a = flags_named(words.drop_last());
        let b = flag_named(words.last());
        assert((a | b) < 16) by (bit_vector)
            requires
                a < 16,
                b < 16,
        ;
    }
}

/// The last part of a split text holds no separator.
proof fn lemma_last_part(s: Seq<char>)
    ensures
        split_at_each(s, '+').len() > 0,
        forall|i: int| 0 <= i < split_at_each(s, '+').last().len() ==> split_at_each(s, '+').last()[i] != '+',
    decreases s.len(),
{
    lemma_first_at(s, '+');
    let i = first_at(s, '+') as int;
    if i < s.len() {
        lemma_last_part(s.skip(i + 1));
        assert(split_at_each(s, '+').last() == split_at_each(s.skip(i + 1), '+').last());
    }
}

/// A combo in its canonical form stays.
pub proof fn lemma_canonical_combo_stays(combo: Seq<char>)
    ensures
        canonical_combo(canonical_combo(combo)) == canonical_combo(combo),
{
    if combo.len() > 0 {
        let p = combo_parts(combo)->0;
        lemma_flags_bounded(split_at_each(combo, '+').drop_last());
        lemma_last_part(combo);
        lemma_canonical_name_plain(p.1);
        lemma_canonical_name_stays(p.1);
        let name = canonical_name(p.1);
        if name.len() > 0 || p.0.bits != 0 {
            lemma_combo_reads_back(p.0, name);
            lemma_text_not_empty(p.0);
        } else {
            let bits = p.0.bits;
            assert(bits & 1 != 1 && bits & 2 != 2 && bits & 4 != 4 && bits & 8 != 8) by (bit_vector)
                requires
                    bits == 0,
            ;
            reveal_strlit("");
            assert(canonical_combo(combo) =~= Seq::<char>::empty());
        }
    }
}

proof fn lemma_text_not_empty(modifiers: Modifiers)
    requires
        modifiers.bits < 16,
    ensures
        modifiers.bits != 0 ==> modifiers.text().len() > 0,
{
    reveal_strlit("Ctrl+");
    reveal_strlit("Shift+");
    reveal_strlit("Alt+");
    reveal_strlit("Mod4+");
    let bits = modifiers.bits;
    assert(bits & 1 == 1 || bits & 2 == 2 || bits & 4 == 4 || bits & 8 == 8 || bits == 0) by (bit_vector)
        requires
            bits < 16,
    ;
}

/// The order of a combo's modifiers does not matter: words that are the same
/// but for their order name the same modifiers.
pub proof fn lemma_modifier_order(a: Seq<Seq<char>>, b: Seq<Seq<char>>)
    requires
        a.to_multiset() == b.to_multiset(),
    ensures
        flags_named(a) == flags_named(b),
{
    lemma_flags_bounded(a);
    lemma_flags_bounded(b);
    assert forall|w: Seq<char>| a.contains(w) == b.contains(w) by {
        a.to_multiset_ensures();
        b.to_multiset_ensures();
        assert(a.contains(w) <==> a.to_multiset().count(w) > 0);
        assert(b.contains(w) <==> b.to_multiset().count(w) > 0);
    }
    lemma_flag_from_word(a, b, Modifiers::SHIFT);
    lemma_flag_from_word(a, b, Modifiers::CTRL);
    lemma_flag_from_word(a, b, Modifiers::ALT);
    lemma_flag_from_word(a, b, Modifiers::SUPER);
    lemma_flag_from_word(b, a, Modifiers::SHIFT);
    lemma_flag_from_word(b, a, Modifiers::CTRL);
    lemma_flag_from_word(b, a, Modifiers::ALT);
    lemma_flag_from_word(b, a, Modifiers::SUPER);
    let x = flags_named(a);
    let y = flags_named(b);
    assert(x == y) by (bit_vector)
        requires
            x < 16,
            y < 16,
            (x & 1 == 1) == (y & 1 == 1),
            (x & 2 == 2) == (y & 2 == 2),
            (x & 4 == 4) == (y & 4 == 4),
            (x & 8 == 8) == (y & 8 == 8),
    ;
}

/// A modifier that words name is named by others that hold all of them.
proof fn lemma_flag_from_word(a: Seq<Seq<char>>, b: Seq<Seq<char>>, flag: u8)
    requires
        flag == 1 || flag == 2 || flag == 4 || flag == 8,
        forall|w: Seq<char>| a.contains(w) ==> b.contains(w),
    ensures
        flags_named(a) & flag == flag ==> flags_named(b) & flag == flag,
    decreases a.len(),
{
    let f = flags_named(a);
    if a.len() == 0 {
        assert(0u8 & flag != flag) by (bit_vector)
            requires
                flag == 1 || flag == 2 || flag == 4 || flag == 8,
        ;
    } else if f & flag == flag {
        let g = flags_named(a.drop_last());
        let h = flag_named(a.last());
        assert(h == 0 || h == 1 || h == 2 || h == 4 || h == 8);
        assert(g & flag == flag || h == flag) by (bit_vector)
            requires
                (g | h) & flag == flag,
                flag == 1 || flag == 2 || flag == 4 || flag == 8,
                h == 0 || h == 1 || h == 2 || h == 4 || h == 8,
        ;
        if g & flag == flag {
            assert forall|w: Seq<char>| a.drop_last().contains(w) implies b.contains(w) by {
                let i = choose|i: int| 0 <= i < a.drop_last().len() && a.drop_last()[i] == w;
                assert(a[i] == w);
            }
            lemma_flag_from_word(a.drop_last(), b, flag);
        } else {
            assert(a.contains(a.last()));
            let i = choose|i: int| 0 <= i < b.len() && b[i] == a.last();
            lemma_word_sets_flag(b, i);
        }
    }
}

proof fn lemma_word_sets_flag(words: Seq<Seq<char>>, i: int)
    requires
        0 <= i < words.len(),
    ensures
        flags_named(words) & flag_named(words[i]) == flag_named(words[i]),
    decreases words.len(),
{
    let g = flags_named(words.drop_last());
    let h = flag_named(words.last());
    let w = flag_named(words[i]);
    if i < words.len() - 1 {
        lemma_word_sets_flag(words.drop_last(), i);
        assert((g | h) & w == w) by (bit_vector)
            requires
                g & w == w,
        ;
    } else {
        assert((g | h) & h == h) by (bit_vector);
    }
}

#[derive(Debug)]
pub enum Event {
    WindowCreated(WindowId),
    WindowDestroyed(WindowId),
    WindowTitleChanged(WindowId, String),
    WindowMoved { id: WindowId, x: i32, y: i32 },
    WindowResized { id: WindowId, width: u32, height: u32 },
    WindowFocused(WindowId),
    WindowUnfocused(WindowId),
    KeyPress { key_name: String, modifiers: Modifiers },
    KeyRelease { key_name: String, modifiers: Modifiers },
    MouseButtonPress { button: MouseButton, x: i32, y: i32 },
    MouseButtonRelease { button: MouseButton, x: i32, y: i32 },
    MouseMotion { x: i32, y: i32 },
    MonitorAdded(Monitor),
    MonitorRemoved(MonitorId),
    /// The laptop lid was closed or opened.
    LidSwitch { closed: bool },
    /// The current workspace changed. Whoever cares reads which one is current.
    WorkspaceChanged,
}

impl Clone for Event {
    fn clone(&self) -> (r: Self)
        ensures
            r == *self,
    {
        match self {
            Event::WindowCreated(id) => Event::WindowCreated(*id),
            Event::WindowDestroyed(id) => Event::WindowDestroyed(*id),
            Event::WindowTitleChanged(id, title) => Event::WindowTitleChanged(*id, title.clone()),
            Event::WindowMoved { id, x, y } => Event::WindowMoved { id: *id, x: *x, y: *y },
            Event::WindowResized { id, width, height } => Event::WindowResized {
                id: *id,
                width: *width,
                height: *height,
            },
            Event::WindowFocused(id) => Event::WindowFocused(*id),
            Event::WindowUnfocused(id) => Event::WindowUnfocused(*id),
            Event::KeyPress { key_name, modifiers } => Event::KeyPress {
                key_name: key_name.clone(),
                modifiers: *modifiers,
            },
            Event::KeyRelease { key_name, modifiers } => Event::KeyRelease {
                key_name: key_name.clone(),
                modifiers: *modifiers,
            },
            Event::MouseButtonPress { button, x, y } => Event::MouseButtonPress { button: *button, x: *x, y: *y },
            Event::MouseButtonRelease { button, x, y } => Event::MouseButtonRelease {
                button: *button,
                x: *x,
                y: *y,
            },
            Event::MouseMotion { x, y } => Event::MouseMotion { x: *x, y: *y },
            Event::MonitorAdded(m) => Event::MonitorAdded(m.clone()),
            Event::MonitorRemoved(id) => Event::MonitorRemoved(*id),
            Event::LidSwitch { closed } => Event::LidSwitch { closed: *closed },
            Event::WorkspaceChanged => Event::WorkspaceChanged,
        }
    }
}

/// How modifiers are written: Ctrl before Shift before Alt before Mod4, and
/// nothing for none.
pub proof fn lemma_modifiers_written(m: Modifiers)
    ensures
        m.bits == 0 ==> m.text() == Seq::<char>::empty(),
        m.bits & 2 == 0 ==> m.plus(2).text() == "Ctrl+"@ + m.text(),
        m.bits & 3 == 0 ==> m.plus(1).text() == "Shift+"@ + m.text(),
        m.bits & 7 == 0 ==> m.plus(4).text() == "Alt+"@ + m.text(),
        m.bits & 15 == 0 ==> m.plus(8).text() == "Mod4+"@ + m.text(),
{
    reveal_strlit("");
    let b = m.bits;
    assert(b == 0 ==> b & 1 == 0 && b & 2 == 0 && b & 4 == 0 && b & 8 == 0) by (bit_vector);
    assert((b | 2) & 2 == 2 && (b | 2) & 1 == b & 1 && (b | 2) & 4 == b & 4 && (b | 2) & 8 == b & 8) by (bit_vector);
    assert((b | 1) & 1 == 1 && (b | 1) & 2 == b & 2 && (b | 1) & 4 == b & 4 && (b | 1) & 8 == b & 8) by (bit_vector);
    assert((b | 4) & 4 == 4 && (b | 4) & 1 == b & 1 && (b | 4) & 2 == b & 2 && (b | 4) & 8 == b & 8) by (bit_vector);
    assert((b | 8) & 8 == 8 && (b | 8) & 1 == b & 1 && (b | 8) & 2 == b & 2 && (b | 8) & 4 == b & 4) by (bit_vector);
    assert(b & 3 == 0 ==> b & 1 == 0 && b & 2 == 0) by (bit_vector);
    assert(b & 7 == 0 ==> b & 1 == 0 && b & 2 == 0 && b & 4 == 0) by (bit_vector);
    assert(b & 15 == 0 ==> b & 1 == 0 && b & 2 == 0 && b & 4 == 0 && b & 8 == 0) by (bit_vector);
    assert(m.bits == 0 ==> m.text() =~= Seq::<char>::empty());
    assert(m.bits & 2 == 0 ==> m.plus(2).text() =~= "Ctrl+"@ + m.text());
    assert(m.bits & 3 == 0 ==> m.plus(1).text() =~= "Shift+"@ + m.text());
    assert(m.bits & 7 == 0 ==> m.plus(4).text() =~= "Alt+"@ + m.text());
    assert(m.bits & 15 == 0 ==> m.plus(8).text() =~= "Mod4+"@ + m.text());
}

/// A word that names no modifier changes nothing of a combination, and `Super`
/// is another word for `Mod4`.
pub proof fn lemma_modifier_words(words: Seq<Seq<char>>, word: Seq<char>)
    ensures
        word != "Ctrl"@ && word != "Shift"@ && word != "Alt"@ && word != "Mod4"@ && word != "Super"@ ==> flags_named(
            words.push(word),
        ) == flags_named(words),
        flags_named(words.push("Super"@)) == flags_named(words.push("Mod4"@)),
        flags_named(words.push("Ctrl"@)) == flags_named(words) | 2,
        flags_named(words.push("Shift"@)) == flags_named(words) | 1,
        flags_named(words.push("Alt"@)) == flags_named(words) | 4,
        flags_named(words.push("Mod4"@)) == flags_named(words) | 8,
{
    reveal_strlit("Ctrl");
    reveal_strlit("Shift");
    reveal_strlit("Alt");
    reveal_strlit("Mod4");
    reveal_strlit("Super");
    assert("Ctrl"@[0] == 'C' && "Shift"@[1] == 'h' && "Alt"@[0] == 'A' && "Mod4"@[0] == 'M' && "Super"@[1] == 'u');
    assert("Shift"@[0] == 'S' && "Super"@[0] == 'S');
    let f = flags_named(words);
    assert(f | 0u8 == f) by (bit_vector);
    assert(words.push(word).drop_last() =~= words);
    assert(words.push("Super"@).drop_last() =~= words);
    assert(words.push("Ctrl"@).drop_last() =~= words);
    assert(words.push("Shift"@).drop_last() =~= words);
    assert(words.push("Alt"@).drop_last() =~= words);
    assert(words.push("Mod4"@).drop_last() =~= words);
}

} // verus!
