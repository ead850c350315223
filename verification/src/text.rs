//! Text: splitting, trimming, comparing and numbers in decimal.
//!
//! A string is taken as the sequence of its characters.
use vstd::prelude::*;

verus! {

/// `String::push`: appends the character.
pub assume_specification[ std::string::String::push ](s: &mut std::string::String, c: char)
    ensures
        final(s)@ == old(s)@.push(c),
;

/// What `str::to_lowercase` makes of a text.
pub uninterp spec fn lowercase_of(s: Seq<char>) -> Seq<char>;

/// `str::to_lowercase`: the text by Unicode's lower-case mapping, which is a
/// function of the text alone.
#[verifier::external_body]
pub(crate) fn lowercase(s: &str) -> (r: String)
    ensures
        r@ == lowercase_of(s@),
{
    s.to_lowercase()
}

/// What `{:?}` makes of a text: the text in double quotes, escaped.
pub uninterp spec fn quoted_of(s: Seq<char>) -> Seq<char>;

/// `format!("{:?}", ..)` of a string: the text in double quotes, with what is
/// not printable escaped; a function of the text alone.
#[verifier::external_body]
pub(crate) fn quoted(s: &str) -> (r: String)
    ensures
        r@ == quoted_of(s@),
{
    format!("{:?}", s)
}

/// Whether the texts are equal.
pub fn same(a: &str, b: &str) -> (r: bool)
    ensures
        r == (a@ == b@),
{
    a.to_string() == b.to_string()
}

/// The characters of a text.
pub fn chars_of(s: &str) -> (v: Vec<char>)
    ensures
        v@ == s@,
{
    let mut v: Vec<char> = Vec::new();
    for c in it: s.chars()
        invariant
            v@ == it.seq().subrange(0, it.index() as int),
    {
        v.push(c);
    }
    v
}

/// The text of the characters from `from` to before `to`.
pub fn text_of(v: &Vec<char>, from: usize, to: usize) -> (s: String)
    requires
        from <= to <= v.len(),
    ensures
        s@ == v@.subrange(from as int, to as int),
{
    let mut s = String::new();
    let mut i: usize = from;
    while i < to
        invariant
            from <= i <= to <= v.len(),
            s@ == v@.subrange(from as int, i as int),
        decreases to - i,
    {
        s.push(v[i]);
        i = i + 1;
    }
    s
}

/// The concatenation of two texts.
pub fn joined(a: &str, b: &str) -> (r: String)
    ensures
        r@ == a@ + b@,
{
    a.to_string().concat(b)
}

// ---- Case ------------------------------------------------------------------

/// The ASCII lower case of a character; others stay.
pub open spec fn ascii_lower_char(c: char) -> char {
    if 'A' <= c <= 'Z' {
        (c as u32 + 32) as char
    } else {
        c
    }
}

/// A text with its ASCII letters in lower case.
pub open spec fn ascii_lower(s: Seq<char>) -> Seq<char> {
    s.map_values(|c: char| ascii_lower_char(c))
}

fn lower_char(c: char) -> (r: char)
    ensures
        r == ascii_lower_char(c),
{
    if 'A' <= c && c <= 'Z' {
        let n: u8 = c as u8 + 32;
        n as char
    } else {
        c
    }
}

/// A text with its ASCII letters in lower case.
pub fn to_ascii_lower(s: &str) -> (r: String)
    ensures
        r@ == ascii_lower(s@),
{
    let v = chars_of(s);
    let mut r = String::new();
    let mut i: usize = 0;
    while i < v.len()
        invariant
            i <= v.len(),
            v@ == s@,
            r@ =~= ascii_lower(v@.subrange(0, i as int)),
        decreases v.len() - i,
    {
        r.push(lower_char(v[i]));
        i = i + 1;
    }
    assert(v@.subrange(0, v.len() as int) =~= v@);
    r
}

/// Whether the texts differ at most in the case of ASCII letters.
pub fn same_ignoring_ascii_case(a: &str, b: &str) -> (r: bool)
    ensures
        r == (ascii_lower(a@) == ascii_lower(b@)),
{
    to_ascii_lower(a) == to_ascii_lower(b)
}

// ---- Parts -----------------------------------------------------------------

/// Whether `part` stands in `s` from position `i` on.
pub open spec fn stands_at(s: Seq<char>, part: Seq<char>, i: int) -> bool {
    0 <= i && i + part.len() <= s.len() && s.subrange(i, i + part.len()) == part
}

/// Whether `s` starts with `prefix`.
pub open spec fn has_prefix(s: Seq<char>, prefix: Seq<char>) -> bool {
    stands_at(s, prefix, 0)
}

/// Whether `part` stands somewhere in `s`.
pub open spec fn has_part(s: Seq<char>, part: Seq<char>) -> bool {
    exists|i: int| stands_at(s, part, i)
}

fn is_at(s: &Vec<char>, part: &Vec<char>, i: usize) -> (r: bool)
    requires
        i <= s.len(),
    ensures
        r == stands_at(s@, part@, i as int),
{
    if part.len() > s.len() - i {
        return false;
    }
    let mut k: usize = 0;
    while k < part.len()
        invariant
            k <= part.len(),
            i + part.len() <= s.len(),
            forall|m: int| 0 <= m < k ==> s[i + m] == #[trigger] part[m],
        decreases part.len() - k,
    {
        if s[i + k] != part[k] {
            assert(s@.subrange(i as int, i + part.len())[k as int] != part@[k as int]);
            return false;
        }
        k = k + 1;
    }
    assert(s@.subrange(i as int, i + part.len()) =~= part@);
    true
}

/// Whether `s` starts with `prefix`.
pub fn starts_with(s: &str, prefix: &str) -> (r: bool)
    ensures
        r == has_prefix(s@, prefix@),
{
    is_at(&chars_of(s), &chars_of(prefix), 0)
}

/// Whether `part` stands somewhere in `s`.
pub fn contains(s: &str, part: &str) -> (r: bool)
    ensures
        r == has_part(s@, part@),
{
    let text = chars_of(s);
    let wanted = chars_of(part);
    let mut i: usize = 0;
    while i <= text.len()
        invariant
            text@ == s@,
            wanted@ == part@,
            i <= text.len() + 1,
            forall|k: int| 0 <= k < i ==> !#[trigger] stands_at(s@, part@, k),
        decreases text.len() + 1 - i,
    {
        if is_at(&text, &wanted, i) {
            return true;
        }
        if i == text.len() {
            assert forall|k: int| !#[trigger] stands_at(s@, part@, k) by {
                if k > i {
                    assert(k + part@.len() > s@.len());
                }
            }
            return false;
        }
        i = i + 1;
    }
    false
}

/// The position of the first `sep` in `s`, or its length.
pub open spec fn first_at(s: Seq<char>, sep: char) -> nat
    decreases s.len(),
{
    if s.len() == 0 || s[0] == sep {
        0
    } else {
        1 + first_at(s.skip(1), sep)
    }
}

/// The parts of `s` between the separators: one more than there are of them.
pub open spec fn split_at_each(s: Seq<char>, sep: char) -> Seq<Seq<char>>
    decreases s.len(),
    via split_at_each_decreases
{
    let i = first_at(s, sep) as int;
    if i >= s.len() {
        seq![s]
    } else {
        seq![s.take(i)] + split_at_each(s.skip(i + 1), sep)
    }
}

#[via_fn]
proof fn split_at_each_decreases(s: Seq<char>, sep: char) {
    lemma_first_at(s, sep);
}

/// What [`first_at`] finds.
pub proof fn lemma_first_at(s: Seq<char>, sep: char)
    ensures
        first_at(s, sep) <= s.len(),
        forall|k: int| 0 <= k < first_at(s, sep) ==> s[k] != sep,
        first_at(s, sep) < s.len() ==> s[first_at(s, sep) as int] == sep,
    decreases s.len(),
{
    if s.len() > 0 && s[0] != sep {
        lemma_first_at(s.skip(1), sep);
        assert forall|k: int| 0 <= k < first_at(s, sep) implies s[k] != sep by {
            if k > 0 {
                assert(s.skip(1)[k - 1] == s[k]);
            }
        }
    }
}

/// [`first_at`] is the position that has a separator and none before it.
pub proof fn lemma_first_is(s: Seq<char>, sep: char, i: int)
    requires
        0 <= i <= s.len(),
        forall|k: int| 0 <= k < i ==> s[k] != sep,
        i < s.len() ==> s[i] == sep,
    ensures
        first_at(s, sep) == i,
{
    lemma_first_at(s, sep);
}

/// The views of a list of texts.
pub open spec fn views(v: Seq<String>) -> Seq<Seq<char>> {
    v.map_values(|s: String| s@)
}

/// The parts of `s` between the separators.
pub fn split(s: &str, sep: char) -> (parts: Vec<String>)
    ensures
        views(parts@) == split_at_each(s@, sep),
        parts.len() > 0,
{
    let v = chars_of(s);
    let mut parts: Vec<String> = Vec::new();
    let mut start: usize = 0;
    let mut i: usize = 0;
    assert(s@.skip(0) =~= s@);
    assert(views(parts@) + split_at_each(s@.skip(0), sep) =~= split_at_each(s@, sep));
    while i < v.len()
        invariant
            v@ == s@,
            start <= i <= v.len(),
            forall|k: int| start <= k < i ==> v[k] != sep,
            views(parts@) + split_at_each(s@.skip(start as int), sep) == split_at_each(s@, sep),
        decreases v.len() - i,
    {
        if v[i] == sep {
            let part = text_of(&v, start, i);
            proof {
                let rest = s@.skip(start as int);
                lemma_first_is(rest, sep, i - start);
                assert(rest.take(i - start) =~= part@);
                assert(rest.skip(i - start + 1) =~= s@.skip(i + 1));
                assert(views(parts@.push(part)) =~= views(parts@) + seq![part@]);
                assert(views(parts@) + (seq![part@] + split_at_each(s@.skip(i + 1), sep)) =~= (views(parts@)
                    + seq![part@]) + split_at_each(s@.skip(i + 1), sep));
            }
            parts.push(part);
            start = i + 1;
        }
        i = i + 1;
    }
    let part = text_of(&v, start, v.len());
    proof {
        let rest = s@.skip(start as int);
        lemma_first_is(rest, sep, v.len() - start);
        assert(rest =~= part@);
        assert(views(parts@.push(part)) =~= views(parts@) + seq![part@]);
    }
    parts.push(part);
    parts
}

/// The parts before and after the first `sep`.
pub open spec fn split_at_first(s: Seq<char>, sep: char) -> Option<(Seq<char>, Seq<char>)> {
    let i = first_at(s, sep) as int;
    if i < s.len() {
        Some((s.take(i), s.skip(i + 1)))
    } else {
        None
    }
}

/// The texts before and after the first `sep`, if there is one.
pub fn split_once(s: &str, sep: char) -> (r: Option<(String, String)>)
    ensures
        (match r {
            Some(p) => Some((p.0@, p.1@)),
            None => None,
        }) == split_at_first(s@, sep),
{
    let v = chars_of(s);
    let mut i: usize = 0;
    while i < v.len()
        invariant
            v@ == s@,
            i <= v.len(),
            forall|k: int| 0 <= k < i ==> v[k] != sep,
        decreases v.len() - i,
    {
        if v[i] == sep {
            proof {
                lemma_first_is(s@, sep, i as int);
                assert(v@.subrange(0, i as int) =~= s@.take(i as int));
                assert(v@.subrange(i + 1, v.len() as int) =~= s@.skip(i + 1));
            }
            return Some((text_of(&v, 0, i), text_of(&v, i + 1, v.len())));
        }
        i = i + 1;
    }
    proof {
        lemma_first_is(s@, sep, s@.len() as int);
    }
    None
}

/// The characters with Unicode's `White_Space` property.
pub open spec fn is_space(c: char) -> bool {
    '\u{9}' <= c <= '\u{d}' || c == ' ' || c == '\u{85}' || c == '\u{a0}' || c == '\u{1680}' || '\u{2000}' <= c
        <= '\u{200a}' || c == '\u{2028}' || c == '\u{2029}' || c == '\u{202f}' || c == '\u{205f}' || c == '\u{3000}'
}

fn is_space_char(c: char) -> (r: bool)
    ensures
        r == is_space(c),
{
    ('\u{9}' <= c && c <= '\u{d}') || c == ' ' || c == '\u{85}' || c == '\u{a0}' || c == '\u{1680}' || ('\u{2000}'
        <= c && c <= '\u{200a}') || c == '\u{2028}' || c == '\u{2029}' || c == '\u{202f}' || c == '\u{205f}' || c
        == '\u{3000}'
}

/// A text without the spaces at its start.
pub open spec fn trim_start(s: Seq<char>) -> Seq<char>
    decreases s.len(),
{
    if s.len() > 0 && is_space(s[0]) {
        trim_start(s.skip(1))
    } else {
        s
    }
}

/// A text without the spaces at its end.
pub open spec fn trim_end(s: Seq<char>) -> Seq<char>
    decreases s.len(),
{
    if s.len() > 0 && is_space(s.last()) {
        trim_end(s.drop_last())
    } else {
        s
    }
}

/// A text without the spaces at its ends.
pub fn trim(s: &str) -> (r: String)
    ensures
        r@ == trim_end(trim_start(s@)),
{
    let v = chars_of(s);
    let mut from: usize = 0;
    assert(v@.skip(0) =~= s@);
    while from < v.len() && is_space_char(v[from])
        invariant
            v@ == s@,
            from <= v.len(),
            trim_start(s@) == trim_start(v@.skip(from as int)),
        decreases v.len() - from,
    {
        assert(v@.skip(from as int).skip(1) =~= v@.skip(from + 1));
        from = from + 1;
    }
    let mut to: usize = v.len();
    assert(v@.skip(from as int) =~= v@.subrange(from as int, to as int));
    while to > from && is_space_char(v[to - 1])
        invariant
            v@ == s@,
            from <= to <= v.len(),
            trim_end(trim_start(s@)) == trim_end(v@.subrange(from as int, to as int)),
        decreases to - from,
    {
        assert(v@.subrange(from as int, to as int).drop_last() =~= v@.subrange(from as int, to - 1));
        to = to - 1;
    }
    text_of(&v, from, to)
}

// ---- Numbers ---------------------------------------------------------------

pub open spec fn is_digit(c: char) -> bool {
    '0' <= c <= '9'
}

pub open spec fn digit_value(c: char) -> nat {
    (c as u32 - '0' as u32) as nat
}

/// The number that decimal digits denote.
pub open spec fn digits_value(s: Seq<char>) -> nat
    decreases s.len(),
{
    if s.len() == 0 {
        0
    } else {
        digits_value(s.drop_last()) * 10 + digit_value(s.last())
    }
}

/// Whether `s` is one or more decimal digits.
pub open spec fn all_digits(s: Seq<char>) -> bool {
    s.len() > 0 && forall|i: int| 0 <= i < s.len() ==> is_digit(#[trigger] s[i])
}

/// The number that `s` is in decimal, of up to `max`: an optional plus sign
/// and digits.
pub open spec fn unsigned_of(s: Seq<char>, max: nat) -> Option<nat> {
    let body = if s.len() > 0 && s[0] == '+' { s.skip(1) } else { s };
    if all_digits(body) && digits_value(body) <= max {
        Some(digits_value(body))
    } else {
        None
    }
}

/// The `i64` that `s` is in decimal: an optional sign and digits.
pub open spec fn signed_of(s: Seq<char>) -> Option<int> {
    if s.len() > 0 && s[0] == '-' {
        let body = s.skip(1);
        if all_digits(body) && digits_value(body) <= 0x8000_0000_0000_0000 {
            Some(-digits_value(body))
        } else {
            None
        }
    } else {
        match unsigned_of(s, 0x7fff_ffff_ffff_ffff) {
            Some(n) => Some(n as int),
            None => None,
        }
    }
}

/// The value of the digits from `from` on, if there are some, only digits, and
/// their value is at most `max`.
fn parse_digits(v: &Vec<char>, from: usize, max: u64) -> (r: Option<u64>)
    requires
        from <= v.len(),
    ensures
        ({
            let body = v@.skip(from as int);
            r == (if all_digits(body) && digits_value(body) <= max {
                Some(digits_value(body) as u64)
            } else {
                None::<u64>
            })
        }),
{
    let ghost body = v@.skip(from as int);
    if from == v.len() {
        return None;
    }
    let mut value: u64 = 0;
    let mut over: bool = false;
    let mut i: usize = from;
    assert(body.take(0) =~= Seq::<char>::empty());
    while i < v.len()
        invariant
            body == v@.skip(from as int),
            from <= i <= v.len(),
            value <= max,
            forall|k: int| 0 <= k < i - from ==> is_digit(#[trigger] body[k]),
            !over ==> value == digits_value(body.take(i - from)),
            over ==> digits_value(body.take(i - from)) > max,
        decreases v.len() - i,
    {
        let c: char = v[i];
        if c < '0' || c > '9' {
            assert(body[i - from] == c);
            return None;
        }
        let d: u64 = (c as u32 - '0' as u32) as u64;
        proof {
            let next = body.take(i - from + 1);
            assert(next.drop_last() =~= body.take(i - from));
            assert(next.last() == c);
        }
        if !over {
            if value <= max / 10 && max - value * 10 >= d {
                value = value * 10 + d;
            } else {
                over = true;
            }
        }
        i = i + 1;
    }
    assert(body.take(body.len() as int) =~= body);
    if over {
        None
    } else {
        Some(value)
    }
}

/// Reads a `u64` in decimal.
pub fn parse_u64(s: &str) -> (r: Option<u64>)
    ensures
        (match r {
            Some(n) => Some(n as nat),
            None => None,
        }) == unsigned_of(s@, u64::MAX as nat),
{
    parse_up_to(s, u64::MAX)
}

/// Reads a `u32` in decimal.
pub fn parse_u32(s: &str) -> (r: Option<u32>)
    ensures
        (match r {
            Some(n) => Some(n as nat),
            None => None,
        }) == unsigned_of(s@, u32::MAX as nat),
{
    match parse_up_to(s, 0xffff_ffff) {
        Some(n) => Some(n as u32),
        None => None,
    }
}

fn parse_up_to(s: &str, max: u64) -> (r: Option<u64>)
    ensures
        (match r {
            Some(n) => Some(n as nat),
            None => None,
        }) == unsigned_of(s@, max as nat),
{
    let v = chars_of(s);
    assert(s@.skip(0) =~= s@);
    let from: usize = if v.len() > 0 && v[0] == '+' { 1 } else { 0 };
    parse_digits(&v, from, max)
}

/// Reads an `i64` in decimal.
pub fn parse_i64(s: &str) -> (r: Option<i64>)
    ensures
        (match r {
            Some(n) => Some(n as int),
            None => None,
        }) == signed_of(s@),
{
    let v = chars_of(s);
    if v.len() > 0 && v[0] == '-' {
        match parse_digits(&v, 1, 0x8000_0000_0000_0000) {
            Some(n) => Some((0 - n as i128) as i64),
            None => None,
        }
    } else {
        match parse_up_to(s, 0x7fff_ffff_ffff_ffff) {
            Some(n) => Some(n as i64),
            None => None,
        }
    }
}

/// The decimal digit for `d < 10`.
pub open spec fn digit_of(d: nat) -> char {
    ('0' as u32 + d) as char
}

/// A number in decimal, without leading zeros.
pub open spec fn decimal(n: nat) -> Seq<char>
    decreases n,
{
    if n < 10 {
        seq![digit_of(n)]
    } else {
        decimal(n / 10).push(digit_of(n % 10))
    }
}

/// A whole number in decimal, with a minus sign where it is negative.
pub open spec fn decimal_signed(n: int) -> Seq<char> {
    if n < 0 {
        seq!['-'] + decimal((-n) as nat)
    } else {
        decimal(n as nat)
    }
}

/// Writes a number in decimal.
pub fn write_u64(n: u64) -> (r: String)
    ensures
        r@ == decimal(n as nat),
    decreases n,
{
    let last: u8 = (n % 10) as u8 + 48;
    if n < 10 {
        let mut s = String::new();
        s.push(last as char);
        assert(s@ =~= seq![digit_of(n as nat)]);
        s
    } else {
        let mut s = write_u64(n / 10);
        s.push(last as char);
        s
    }
}

/// Writes a whole number in decimal.
pub fn write_i64(n: i64) -> (r: String)
    ensures
        r@ == decimal_signed(n as int),
{
    if n < 0 {
        let mut s = String::new();
        s.push('-');
        assert(s@ =~= seq!['-']);
        s.concat(write_u64((0 - n as i128) as u64).as_str())
    } else {
        write_u64(n as u64)
    }
}

/// Reading what was written gives back the number.
pub proof fn lemma_decimal_reads_back(n: nat, max: nat)
    requires
        n <= max,
    ensures
        unsigned_of(decimal(n), max) == Some(n),
        all_digits(decimal(n)),
        digits_value(decimal(n)) == n,
    decreases n,
{
    let s = decimal(n);
    if n >= 10 {
        lemma_decimal_reads_back(n / 10, max);
        assert(s.drop_last() =~= decimal(n / 10));
        assert(is_digit(s.last()));
        assert forall|i: int| 0 <= i < s.len() implies is_digit(#[trigger] s[i]) by {
            if i < s.len() - 1 {
                assert(s[i] == decimal(n / 10)[i]);
            }
        }
    } else {
        assert(s.drop_last() =~= Seq::<char>::empty());
        assert(digits_value(Seq::<char>::empty()) == 0);
    }
    assert(is_digit(s[0]));
}

/// Case aside, only the ASCII letters differ: a capital becomes the small letter
/// that is 32 places further, and nothing else changes.
pub proof fn lemma_ascii_lower(s: Seq<char>, i: int)
    requires
        0 <= i < s.len(),
    ensures
        ascii_lower(s).len() == s.len(),
        'A' <= s[i] <= 'Z' ==> ascii_lower(s)[i] as u32 == s[i] as u32 + 32,
        !('A' <= s[i] <= 'Z') ==> ascii_lower(s)[i] == s[i],
{
}

/// A text made of two parts with a separator between them comes apart there, if
/// the first part does not hold the separator.
pub proof fn lemma_split_once(a: Seq<char>, sep: char, b: Seq<char>)
    requires
        forall|k: int| 0 <= k < a.len() ==> a[k] != sep,
    ensures
        split_at_first(a.push(sep) + b, sep) == Some((a, b)),
{
    let s = a.push(sep) + b;
    lemma_first_is(s, sep, a.len() as int);
    assert(s.take(a.len() as int) =~= a);
    assert(s.skip(a.len() as int + 1) =~= b);
}

/// A part is in a text if it stands at some place of it, character by character.
pub proof fn lemma_part_is_found(before: Seq<char>, part: Seq<char>, after: Seq<char>)
    ensures
        has_part(before + part + after, part),
        has_prefix(part + after, part),
{
    let s = before + part + after;
    assert(s.subrange(before.len() as int, before.len() as int + part.len()) =~= part);
    assert(stands_at(s, part, before.len() as int));
    assert((part + after).subrange(0, part.len() as int) =~= part);
}

/// The place where a part that is found stands.
pub proof fn lemma_found_part(s: Seq<char>, part: Seq<char>) -> (at: int)
    requires
        has_part(s, part),
    ensures
        0 <= at,
        at + part.len() <= s.len(),
        forall|k: int| 0 <= k < part.len() ==> s[at + k] == #[trigger] part[k],
{
    let at = choose|i: int| stands_at(s, part, i);
    assert forall|k: int| 0 <= k < part.len() implies s[at + k] == #[trigger] part[k] by {
        assert(s.subrange(at, at + part.len())[k] == s[at + k]);
    }
    at
}

/// Trimming takes the spaces off both ends, and nothing else: how many are taken
/// in front.
pub proof fn lemma_trimmed(s: Seq<char>) -> (at: int)
    ensures
        ({
            let r = trim_end(trim_start(s));
            &&& 0 <= at && at + r.len() <= s.len()
            &&& r == s.subrange(at, at + r.len())
            &&& r.len() > 0 ==> !is_space(r[0]) && !is_space(r.last())
            &&& r.len() > 0 ==> forall|k: int| 0 <= k < at ==> is_space(#[trigger] s[k])
            &&& r.len() > 0 ==> forall|k: int| at + r.len() <= k < s.len() ==> is_space(#[trigger] s[k])
        }),
{
    let at = lemma_trimmed_start(s);
    let t = trim_start(s);
    lemma_trimmed_end(t);
    let r = trim_end(t);
    assert(r =~= s.subrange(at, at + r.len()));
    assert forall|k: int| at + r.len() <= k < s.len() implies is_space(#[trigger] s[k]) by {
        assert(t[k - at] == s[k]);
    }
    at
}

proof fn lemma_trimmed_start(s: Seq<char>) -> (at: int)
    ensures
        0 <= at <= s.len(),
        trim_start(s) == s.skip(at),
        forall|k: int| 0 <= k < at ==> is_space(#[trigger] s[k]),
        at < s.len() ==> !is_space(s[at]),
    decreases s.len(),
{
    if s.len() > 0 && is_space(s[0]) {
        let at = lemma_trimmed_start(s.skip(1));
        assert(s.skip(1).skip(at) =~= s.skip(at + 1));
        assert forall|k: int| 0 <= k < at + 1 implies is_space(#[trigger] s[k]) by {
            if k > 0 {
                assert(s.skip(1)[k - 1] == s[k]);
            }
        }
        at + 1
    } else {
        assert(s.skip(0) =~= s);
        0
    }
}

proof fn lemma_trimmed_end(s: Seq<char>)
    ensures
        trim_end(s).len() <= s.len(),
        trim_end(s) == s.take(trim_end(s).len() as int),
        forall|k: int| trim_end(s).len() <= k < s.len() ==> is_space(#[trigger] s[k]),
        trim_end(s).len() > 0 ==> !is_space(trim_end(s).last()),
    decreases s.len(),
{
    if s.len() > 0 && is_space(s.last()) {
        let front = s.drop_last();
        lemma_trimmed_end(front);
        let n = trim_end(front).len() as int;
        assert(front.take(n) =~= s.take(n));
        assert forall|k: int| n <= k < s.len() implies is_space(#[trigger] s[k]) by {
            if k < front.len() {
                assert(front[k] == s[k]);
            }
        }
    } else {
        assert(s.take(s.len() as int) =~= s);
    }
}

/// A whole number that is written out reads back.
pub proof fn lemma_signed_reads_back(n: int)
    requires
        -0x8000_0000_0000_0000 <= n <= 0x7fff_ffff_ffff_ffff,
    ensures
        signed_of(decimal_signed(n)) == Some(n),
{
    if n < 0 {
        let digits = decimal((-n) as nat);
        lemma_decimal_reads_back((-n) as nat, 0x8000_0000_0000_0000);
        assert((seq!['-'] + digits).skip(1) =~= digits);
    } else {
        lemma_decimal_reads_back(n as nat, 0x7fff_ffff_ffff_ffff);
        let digits = decimal(n as nat);
        assert(is_digit(digits[0]));
    }
}

/// A text begins with another if it is as long and has its characters first.
pub proof fn lemma_begins_with(s: Seq<char>, prefix: Seq<char>)
    ensures
        has_prefix(s, prefix) <==> s.len() >= prefix.len() && forall|i: int|
            0 <= i < prefix.len() ==> #[trigger] s[i] == prefix[i],
{
    let start = s.subrange(0, prefix.len() as int);
    if s.len() >= prefix.len() && forall|i: int| 0 <= i < prefix.len() ==> #[trigger] s[i] == prefix[i] {
        assert(start =~= prefix);
    }
    if has_prefix(s, prefix) {
        assert forall|i: int| 0 <= i < prefix.len() implies #[trigger] s[i] == prefix[i] by {
            assert(start[i] == s[i]);
        }
    }
}

/// A text without separators is one part, and each separator begins another.
pub proof fn lemma_split_parts(a: Seq<char>, sep: char, b: Seq<char>)
    requires
        forall|k: int| 0 <= k < a.len() ==> a[k] != sep,
    ensures
        split_at_each(a, sep) == seq![a],
        split_at_each(a.push(sep) + b, sep) == seq![a] + split_at_each(b, sep),
{
    lemma_first_is(a, sep, a.len() as int);
    let s = a.push(sep) + b;
    lemma_first_is(s, sep, a.len() as int);
    assert(s.take(a.len() as int) =~= a);
    assert(s.skip(a.len() as int + 1) =~= b);
}

/// A digit behind a number makes it ten times as large, and itself more. Any
/// other character makes it none, and so does a digit that makes it too large.
pub proof fn lemma_number_goes_on(s: Seq<char>, c: char, max: nat)
    requires
        unsigned_of(s, max) is Some,
    ensures
        '0' <= c <= '9' && 10 * unsigned_of(s, max)->Some_0 + (c as u32 - '0' as u32) <= max ==> unsigned_of(s.push(c), max)
            == Some((10 * unsigned_of(s, max)->Some_0 + (c as u32 - '0' as u32)) as nat),
        '0' <= c <= '9' && 10 * unsigned_of(s, max)->Some_0 + (c as u32 - '0' as u32) > max ==> unsigned_of(s.push(c), max)
            is None,
        !('0' <= c <= '9') ==> unsigned_of(s.push(c), max) is None,
{
    let body = if s.len() > 0 && s[0] == '+' { s.skip(1) } else { s };
    let next = if s.push(c)[0] == '+' { s.push(c).skip(1) } else { s.push(c) };
    assert(next =~= body.push(c));
    assert(next.drop_last() =~= body);
    assert(next.last() == c);
    if '0' <= c <= '9' {
        assert forall|i: int| 0 <= i < next.len() implies is_digit(#[trigger] next[i]) by {
            if i < body.len() {
                assert(next[i] == body[i]);
            }
        }
    } else {
        assert(!is_digit(next[next.len() - 1]));
    }
}

/// A single digit is its number, a sign in front changes only the sign, and
/// nothing is no number.
pub proof fn lemma_number_starts(c: char, s: Seq<char>, max: nat)
    requires
        max >= 9,
    ensures
        '0' <= c <= '9' ==> unsigned_of(seq![c], max) == Some((c as u32 - '0' as u32) as nat),
        unsigned_of(Seq::empty(), max) is None,
        s.len() > 0 && s[0] != '+' ==> unsigned_of(seq!['+'] + s, max) == unsigned_of(s, max),
        unsigned_of(seq!['-'] + s, max) is None,
{
    reveal_with_fuel(digits_value, 2);
    assert((seq!['+'] + s).skip(1) =~= s);
    assert(seq![c].drop_last() =~= Seq::<char>::empty());
    assert(!is_digit((seq!['-'] + s)[0]));
}

} // verus!
