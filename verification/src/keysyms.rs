//! Key names and the key symbols of the X Window System.
use crate::text::{ascii_lower, chars_of, decimal, same_ignoring_ascii_case};
use vstd::prelude::*;

verus! {

/// The named keys: each name as a keypress gives it, and its key symbol.
pub open spec fn named_keys() -> Seq<(Seq<char>, u32)> {
    seq![
        ("Space"@, 0x20u32),
        ("BackSpace"@, 0xff08u32),
        ("Tab"@, 0xff09u32),
        ("Return"@, 0xff0du32),
        ("Pause"@, 0xff13u32),
        ("Scroll_Lock"@, 0xff14u32),
        ("Escape"@, 0xff1bu32),
        ("Home"@, 0xff50u32),
        ("Left"@, 0xff51u32),
        ("Up"@, 0xff52u32),
        ("Right"@, 0xff53u32),
        ("Down"@, 0xff54u32),
        ("Page_Up"@, 0xff55u32),
        ("Page_Down"@, 0xff56u32),
        ("End"@, 0xff57u32),
        ("Print"@, 0xff61u32),
        ("Insert"@, 0xff63u32),
        ("Menu"@, 0xff67u32),
        ("Num_Lock"@, 0xff7fu32),
        ("F1"@, 0xffbeu32),
        ("F2"@, 0xffbfu32),
        ("F3"@, 0xffc0u32),
        ("F4"@, 0xffc1u32),
        ("F5"@, 0xffc2u32),
        ("F6"@, 0xffc3u32),
        ("F7"@, 0xffc4u32),
        ("F8"@, 0xffc5u32),
        ("F9"@, 0xffc6u32),
        ("F10"@, 0xffc7u32),
        ("F11"@, 0xffc8u32),
        ("F12"@, 0xffc9u32),
        ("Caps_Lock"@, 0xffe5u32),
        ("Delete"@, 0xffffu32),
        ("XF86MonBrightnessUp"@, 0x1008ff02u32),
        ("XF86MonBrightnessDown"@, 0x1008ff03u32),
        ("XF86AudioLowerVolume"@, 0x1008ff11u32),
        ("XF86AudioMute"@, 0x1008ff12u32),
        ("XF86AudioRaiseVolume"@, 0x1008ff13u32),
        ("XF86AudioPlay"@, 0x1008ff14u32),
        ("XF86AudioStop"@, 0x1008ff15u32),
        ("XF86AudioPrev"@, 0x1008ff16u32),
        ("XF86AudioNext"@, 0x1008ff17u32),
        ("XF86AudioMicMute"@, 0x1008ffb2u32),
    ]
}

/// A list of names and key symbols.
pub open spec fn key_views(v: Seq<(&'static str, u32)>) -> Seq<(Seq<char>, u32)> {
    v.map_values(|e: (&'static str, u32)| (e.0@, e.1))
}

fn key_table() -> (r: Vec<(&'static str, u32)>)
    ensures
        key_views(r@) == named_keys(),
{
    let table: Vec<(&'static str, u32)> = vec![
        ("Space", 0x20u32),
        ("BackSpace", 0xff08u32),
        ("Tab", 0xff09u32),
        ("Return", 0xff0du32),
        ("Pause", 0xff13u32),
        ("Scroll_Lock", 0xff14u32),
        ("Escape", 0xff1bu32),
        ("Home", 0xff50u32),
        ("Left", 0xff51u32),
        ("Up", 0xff52u32),
        ("Right", 0xff53u32),
        ("Down", 0xff54u32),
        ("Page_Up", 0xff55u32),
        ("Page_Down", 0xff56u32),
        ("End", 0xff57u32),
        ("Print", 0xff61u32),
        ("Insert", 0xff63u32),
        ("Menu", 0xff67u32),
        ("Num_Lock", 0xff7fu32),
        ("F1", 0xffbeu32),
        ("F2", 0xffbfu32),
        ("F3", 0xffc0u32),
        ("F4", 0xffc1u32),
        ("F5", 0xffc2u32),
        ("F6", 0xffc3u32),
        ("F7", 0xffc4u32),
        ("F8", 0xffc5u32),
        ("F9", 0xffc6u32),
        ("F10", 0xffc7u32),
        ("F11", 0xffc8u32),
        ("F12", 0xffc9u32),
        ("Caps_Lock", 0xffe5u32),
        ("Delete", 0xffffu32),
        ("XF86MonBrightnessUp", 0x1008ff02u32),
        ("XF86MonBrightnessDown", 0x1008ff03u32),
        ("XF86AudioLowerVolume", 0x1008ff11u32),
        ("XF86AudioMute", 0x1008ff12u32),
        ("XF86AudioRaiseVolume", 0x1008ff13u32),
        ("XF86AudioPlay", 0x1008ff14u32),
        ("XF86AudioStop", 0x1008ff15u32),
        ("XF86AudioPrev", 0x1008ff16u32),
        ("XF86AudioNext", 0x1008ff17u32),
        ("XF86AudioMicMute", 0x1008ffb2u32),
    ];
    assert(key_views(table@) =~= named_keys());
    table
}

/// The first named key whose name is `name` in any case, from `i` on.
pub open spec fn key_by_name(name: Seq<char>, i: int) -> Option<int>
    decreases named_keys().len() - i,
{
    if i < 0 || i >= named_keys().len() {
        None
    } else if ascii_lower(named_keys()[i].0) == ascii_lower(name) {
        Some(i)
    } else {
        key_by_name(name, i + 1)
    }
}

/// The first named key with the key symbol, from `i` on.
pub open spec fn key_by_symbol(keysym: u32, i: int) -> Option<int>
    decreases named_keys().len() - i,
{
    if i < 0 || i >= named_keys().len() {
        None
    } else if named_keys()[i].1 == keysym {
        Some(i)
    } else {
        key_by_symbol(keysym, i + 1)
    }
}

/// Whether the character is a letter or digit that names a key.
pub open spec fn is_key_char(c: char) -> bool {
    'a' <= c <= 'z' || '0' <= c <= '9'
}

/// The key symbol of a name, in any case. A letter or digit is its own name.
pub open spec fn symbol_of(name: Seq<char>) -> Option<u32> {
    if name.len() == 1 && is_key_char(ascii_lower(name)[0]) {
        Some(ascii_lower(name)[0] as u32)
    } else {
        match key_by_name(name, 0) {
            Some(i) => Some(named_keys()[i].1),
            None => None,
        }
    }
}

/// The name that a keypress with the key symbol has.
pub open spec fn name_of(keysym: u32) -> Option<Seq<char>> {
    if 'a' as u32 <= keysym <= 'z' as u32 || '0' as u32 <= keysym <= '9' as u32 {
        Some(seq![keysym as char])
    } else {
        match key_by_symbol(keysym, 0) {
            Some(i) => Some(named_keys()[i].0),
            None => None,
        }
    }
}

/// The key symbol of a name, in any case.
pub fn name_to_keysym(name: &str) -> (r: Option<u32>)
    ensures
        r == symbol_of(name@),
{
    let v = chars_of(name);
    if v.len() == 1 {
        let c: char = v[0];
        if ('a' <= c && c <= 'z') || ('0' <= c && c <= '9') {
            return Some(c as u32);
        }
        if 'A' <= c && c <= 'Z' {
            return Some(c as u32 + 32);
        }
    }
    let table = key_table();
    assert(key_views(table@).len() == table@.len());
    let mut i: usize = 0;
    while i < table.len()
        invariant
            i <= table.len(),
            key_views(table@) == named_keys(),
            table@.len() == named_keys().len(),
            !(name@.len() == 1 && is_key_char(ascii_lower(name@)[0])),
            key_by_name(name@, 0) == key_by_name(name@, i as int),
        decreases table.len() - i,
    {
        assert(named_keys()[i as int] == key_views(table@)[i as int]);
        if same_ignoring_ascii_case(table[i].0, name) {
            return Some(table[i].1);
        }
        i = i + 1;
    }
    None
}

/// The name that a keypress with the key symbol has: named keys with their
/// capitals, letters and digits as they are.
pub fn keysym_to_name(keysym: u32) -> (r: Option<String>)
    ensures
        (match r {
            Some(s) => Some(s@),
            None => None,
        }) == name_of(keysym),
{
    if (97 <= keysym && keysym <= 122) || (48 <= keysym && keysym <= 57) {
        let mut s = String::new();
        s.push((keysym as u8) as char);
        assert(s@ =~= seq![keysym as char]);
        return Some(s);
    }
    let table = key_table();
    assert(key_views(table@).len() == table@.len());
    let mut i: usize = 0;
    while i < table.len()
        invariant
            i <= table.len(),
            key_views(table@) == named_keys(),
            table@.len() == named_keys().len(),
            key_by_symbol(keysym, 0) == key_by_symbol(keysym, i as int),
        decreases table.len() - i,
    {
        assert(named_keys()[i as int] == key_views(table@)[i as int]);
        if table[i].1 == keysym {
            return Some(table[i].0.to_string());
        }
        i = i + 1;
    }
    None
}

/// The name of a key as a keypress has it; an unknown name stays.
pub open spec fn canonical_name(name: Seq<char>) -> Seq<char> {
    match symbol_of(name) {
        Some(k) => match name_of(k) {
            Some(n) => n,
            None => name,
        },
        None => name,
    }
}

/// A name in its canonical form stays.
pub proof fn lemma_canonical_name_stays(name: Seq<char>)
    ensures
        canonical_name(canonical_name(name)) == canonical_name(name),
{
    if name.len() == 1 && is_key_char(ascii_lower(name)[0]) {
        let c = seq![ascii_lower(name)[0]];
        assert(ascii_lower(c) =~= c);
        assert(canonical_name(name) =~= c);
    } else if let Some(i) = key_by_name(name, 0) {
        lemma_key_by_name(name, 0);
        let found = named_keys()[i].0;
        lemma_symbols_ascend();
        lemma_key_by_symbol(i, 0);
        lemma_same_key(found, name, 0);
        assert(ascii_lower(found).len() == found.len() && ascii_lower(name).len() == name.len());
        assert(symbol_of(found) == symbol_of(name));
    }
}

/// What [`key_by_name`] finds has that name.
proof fn lemma_key_by_name(name: Seq<char>, i: int)
    requires
        0 <= i,
    ensures
        key_by_name(name, i) matches Some(k) ==> i <= k < named_keys().len() && ascii_lower(named_keys()[k].0)
            == ascii_lower(name),
    decreases named_keys().len() - i,
{
    if i < named_keys().len() {
        lemma_key_by_name(name, i + 1);
    }
}

/// Names that differ in case alone name the same key.
proof fn lemma_same_key(a: Seq<char>, b: Seq<char>, i: int)
    requires
        0 <= i,
        ascii_lower(a) == ascii_lower(b),
    ensures
        key_by_name(a, i) == key_by_name(b, i),
    decreases named_keys().len() - i,
{
    if i < named_keys().len() {
        lemma_same_key(a, b, i + 1);
    }
}

/// The key symbols of the table ascend, beyond those of letters and digits
/// but for the first.
proof fn lemma_symbols_ascend()
    ensures
        named_keys()[0].1 == 0x20,
        forall|i: int| 1 <= i < named_keys().len() ==> #[trigger] named_keys()[i].1 >= 0xff08,
        forall|i: int, j: int|
            0 <= i < j < named_keys().len() ==> #[trigger] named_keys()[i].1 < #[trigger] named_keys()[j].1,
{
}

/// The key symbol of entry `k` is found there.
proof fn lemma_key_by_symbol(k: int, i: int)
    requires
        0 <= i <= k < named_keys().len(),
        forall|i: int, j: int|
            0 <= i < j < named_keys().len() ==> #[trigger] named_keys()[i].1 < #[trigger] named_keys()[j].1,
    ensures
        key_by_symbol(named_keys()[k].1, i) == Some(k),
    decreases k - i,
{
    if i < k {
        lemma_key_by_symbol(k, i + 1);
    }
}

/// The canonical form of a key's name is as long as the name, and holds no
/// plus sign if the name holds none.
pub proof fn lemma_canonical_name_plain(name: Seq<char>)
    requires
        forall|i: int| 0 <= i < name.len() ==> name[i] != '+',
    ensures
        canonical_name(name).len() == name.len(),
        forall|i: int| 0 <= i < canonical_name(name).len() ==> canonical_name(name)[i] != '+',
{
    if name.len() == 1 && is_key_char(ascii_lower(name)[0]) {
    } else if let Some(k) = key_by_name(name, 0) {
        lemma_key_by_name(name, 0);
        lemma_symbols_ascend();
        lemma_key_by_symbol(k, 0);
        let found = named_keys()[k].0;
        assert(ascii_lower(found).len() == found.len() && ascii_lower(name).len() == name.len());
        assert forall|i: int| 0 <= i < found.len() implies found[i] != '+' by {
            assert(ascii_lower(found)[i] == ascii_lower(name)[i]);
            assert(ascii_lower(name)[i] == crate::text::ascii_lower_char(name[i]));
            assert(ascii_lower(found)[i] == crate::text::ascii_lower_char(found[i]));
        }
    }
}

/// The name under which a key is known has the letters of the one given, and is
/// the name of its symbol.
pub proof fn lemma_canonical_name_same_letters(name: Seq<char>)
    ensures
        ascii_lower(canonical_name(name)) == ascii_lower(name),
        symbol_of(name) matches Some(k) ==> name_of(k) == Some(canonical_name(name)),
{
    if name.len() == 1 && is_key_char(ascii_lower(name)[0]) {
        assert(ascii_lower(canonical_name(name)) =~= ascii_lower(name));
    } else if let Some(k) = key_by_name(name, 0) {
        lemma_key_by_name(name, 0);
        lemma_symbols_ascend();
        lemma_key_by_symbol(k, 0);
    }
}

/// The symbol of a letter or digit is its code, where a capital stands for the
/// small letter, and a symbol in those ranges is named by that character.
pub proof fn lemma_plain_keys(c: char)
    ensures
        'a' <= c <= 'z' || '0' <= c <= '9' ==> symbol_of(seq![c]) == Some(c as u32) && name_of(c as u32) == Some(seq![c]),
        'A' <= c <= 'Z' ==> symbol_of(seq![c]) == Some((c as u32 + 32) as u32) && canonical_name(seq![c]) == seq![
            (c as u32 + 32) as char,
        ],
{
    assert(ascii_lower(seq![c])[0] == crate::text::ascii_lower_char(c));
}

/// Keys that share a symbol are one key: their names differ in letter case alone.
pub proof fn lemma_one_key_per_symbol(a: Seq<char>, b: Seq<char>)
    requires
        symbol_of(a) is Some,
        symbol_of(a) == symbol_of(b),
    ensures
        ascii_lower(a) == ascii_lower(b),
        canonical_name(a) == canonical_name(b),
{
    lemma_canonical_name_same_letters(a);
    lemma_canonical_name_same_letters(b);
}

/// The key is found at the first entry that has its letters.
proof fn lemma_key_found(name: Seq<char>, start: int, i: int)
    requires
        0 <= start <= i < named_keys().len(),
        ascii_lower(named_keys()[i].0) == ascii_lower(name),
        forall|j: int| start <= j < i ==> ascii_lower(#[trigger] named_keys()[j].0) != ascii_lower(name),
    ensures
        key_by_name(name, start) == Some(i),
    decreases i - start,
{
    if start < i {
        assert(ascii_lower(named_keys()[start].0) != ascii_lower(name));
        lemma_key_found(name, start + 1, i);
    }
}

/// No key before the function keys begins with their letter.
proof fn lemma_before_function_keys(j: int)
    requires
        0 <= j < 19,
    ensures
        named_keys()[j].0.len() > 0,
        ascii_lower(named_keys()[j].0)[0] != 'f',
{
    reveal_strlit("Space");
    reveal_strlit("BackSpace");
    reveal_strlit("Tab");
    reveal_strlit("Return");
    reveal_strlit("Pause");
    reveal_strlit("Scroll_Lock");
    reveal_strlit("Escape");
    reveal_strlit("Home");
    reveal_strlit("Left");
    reveal_strlit("Up");
    reveal_strlit("Right");
    reveal_strlit("Down");
    reveal_strlit("Page_Up");
    reveal_strlit("Page_Down");
    reveal_strlit("End");
    reveal_strlit("Print");
    reveal_strlit("Insert");
    reveal_strlit("Menu");
    reveal_strlit("Num_Lock");
    assert(named_keys()[0].0[0] == 'S');
    assert(named_keys()[1].0[0] == 'B');
    assert(named_keys()[2].0[0] == 'T');
    assert(named_keys()[3].0[0] == 'R');
    assert(named_keys()[4].0[0] == 'P');
    assert(named_keys()[5].0[0] == 'S');
    assert(named_keys()[6].0[0] == 'E');
    assert(named_keys()[7].0[0] == 'H');
    assert(named_keys()[8].0[0] == 'L');
    assert(named_keys()[9].0[0] == 'U');
    assert(named_keys()[10].0[0] == 'R');
    assert(named_keys()[11].0[0] == 'D');
    assert(named_keys()[12].0[0] == 'P');
    assert(named_keys()[13].0[0] == 'P');
    assert(named_keys()[14].0[0] == 'E');
    assert(named_keys()[15].0[0] == 'P');
    assert(named_keys()[16].0[0] == 'I');
    assert(named_keys()[17].0[0] == 'M');
    assert(named_keys()[18].0[0] == 'N');
    assert(named_keys()[j].0.len() > 0);
    assert(ascii_lower(named_keys()[j].0)[0] == crate::text::ascii_lower_char(named_keys()[j].0[0]));
}

/// The names of the function keys are numbered.
proof fn lemma_function_key_names(n: nat)
    requires
        1 <= n <= 12,
    ensures
        named_keys()[18int + n].0 == "F"@ + decimal(n),
        named_keys()[18int + n].1 == 0xffbd + n,
{
    reveal_strlit("F");
    reveal_strlit("F1");
    reveal_strlit("F2");
    reveal_strlit("F3");
    reveal_strlit("F4");
    reveal_strlit("F5");
    reveal_strlit("F6");
    reveal_strlit("F7");
    reveal_strlit("F8");
    reveal_strlit("F9");
    reveal_strlit("F10");
    reveal_strlit("F11");
    reveal_strlit("F12");
    reveal_with_fuel(decimal, 3);
    assert(named_keys()[19].0 =~= "F"@ + decimal(1));
    assert(named_keys()[20].0 =~= "F"@ + decimal(2));
    assert(named_keys()[21].0 =~= "F"@ + decimal(3));
    assert(named_keys()[22].0 =~= "F"@ + decimal(4));
    assert(named_keys()[23].0 =~= "F"@ + decimal(5));
    assert(named_keys()[24].0 =~= "F"@ + decimal(6));
    assert(named_keys()[25].0 =~= "F"@ + decimal(7));
    assert(named_keys()[26].0 =~= "F"@ + decimal(8));
    assert(named_keys()[27].0 =~= "F"@ + decimal(9));
    assert(named_keys()[28].0 =~= "F"@ + decimal(10));
    assert(named_keys()[29].0 =~= "F"@ + decimal(11));
    assert(named_keys()[30].0 =~= "F"@ + decimal(12));
}

/// The function keys have symbols in turn, and are named by their number.
pub proof fn lemma_function_keys(n: nat)
    requires
        1 <= n <= 12,
    ensures
        symbol_of("F"@ + decimal(n)) == Some((0xffbd + n) as u32),
        name_of((0xffbd + n) as u32) == Some("F"@ + decimal(n)),
{
    let name = "F"@ + decimal(n);
    reveal_strlit("F");
    lemma_function_key_names(n);
    assert(ascii_lower(name)[0] == 'f');
    assert forall|j: int| 0 <= j < 18int + n implies ascii_lower(#[trigger] named_keys()[j].0) != ascii_lower(name) by {
        if j < 19 {
            lemma_before_function_keys(j);
        } else {
            let m = (j - 18) as nat;
            lemma_function_key_names(m);
            let other = "F"@ + decimal(m);
            reveal_with_fuel(decimal, 3);
            if ascii_lower(other) == ascii_lower(name) {
                assert(ascii_lower(other).len() == ascii_lower(name).len());
                assert(ascii_lower(other)[1] == ascii_lower(name)[1]);
                assert(other.len() == 3 ==> ascii_lower(other)[2] == ascii_lower(name)[2]);
                assert(false);
            }
        }
    }
    lemma_key_found(name, 0, 18int + n);
    assert(name.len() > 1) by {
        reveal_with_fuel(decimal, 3);
    }
    lemma_symbols_ascend();
    lemma_key_by_symbol(18int + n, 0);
}

} // verus!
