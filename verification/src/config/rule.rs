//! Window rules as scripts ask for them.
use crate::geometry::Rect;
use crate::ieee::Float32;
use crate::rules::{regex_complaint, Regex, WindowMatch, WindowRule, WindowRuleActions};
use crate::text::{
    all_digits, decimal, is_digit, joined, lemma_decimal_reads_back, lemma_first_is, lemma_split_once, parse_u32, quoted,
    quoted_of, split_at_first, split_once, trim, trim_end, trim_start, unsigned_of,
};
use crate::workspace::WorkspaceId;
use vstd::prelude::*;

verus! {

/// What a script asks of a rule, as it gave it.
#[derive(Debug)]
pub struct RuleRequest {
    pub title: Option<String>,
    pub class: Option<String>,
    /// Stands for the class where that is not given.
    pub app_id: Option<String>,
    pub instance: Option<String>,
    pub title_regex: Option<String>,
    pub class_regex: Option<String>,
    pub floating: Option<bool>,
    pub maximized: Option<bool>,
    pub workspace: Option<WorkspaceId>,
    pub x: Option<i32>,
    pub y: Option<i32>,
    pub width: Option<u32>,
    pub height: Option<u32>,
    pub decorated: Option<bool>,
    pub border_color: Option<(u8, u8, u8)>,
    pub border_width: Option<u32>,
    pub corner_radius: Option<u32>,
    pub pinned: Option<bool>,
    pub opacity: Option<Float32>,
    pub resize_margin: Option<i32>,
    /// `W:H`, in whole numbers.
    pub aspect_ratio: Option<String>,
}

/// The ratio that a text is as `W:H`, both positive and with spaces around them
/// or not.
pub open spec fn ratio_of(s: Seq<char>) -> Option<(u32, u32)> {
    match split_at_first(s, ':') {
        Some((w, h)) => match (
            unsigned_of(trim_end(trim_start(w)), u32::MAX as nat),
            unsigned_of(trim_end(trim_start(h)), u32::MAX as nat),
        ) {
            (Some(w), Some(h)) => if w > 0 && h > 0 { Some((w as u32, h as u32)) } else { None },
            _ => None,
        },
        None => None,
    }
}

/// The ratio that a text is as `W:H`, if it is one.
pub fn parse_ratio(s: &str) -> (r: Option<(u32, u32)>)
    ensures
        r == ratio_of(s@),
{
    match split_once(s, ':') {
        Some((w, h)) => match (parse_u32(trim(w.as_str()).as_str()), parse_u32(trim(h.as_str()).as_str())) {
            (Some(w), Some(h)) => if w > 0 && h > 0 { Some((w, h)) } else { None },
            _ => None,
        },
        None => None,
    }
}

/// What a script is told of an expression that does not compile.
pub open spec fn regex_message(field: Seq<char>, pattern: Seq<char>, complaint: Seq<char>) -> Seq<char> {
    "srd.rule: invalid "@ + field + " '"@ + pattern + "': "@ + complaint
}

/// What a script is told of a text that is no ratio.
pub open spec fn ratio_message(s: Seq<char>) -> Seq<char> {
    "srd.rule: aspect_ratio must be \"W:H\" with positive integers, got "@ + quoted_of(s)
}

/// What to say of a text that is no ratio, by the text in quotes.
pub fn say_ratio(in_quotes: &str) -> (r: String)
    ensures
        r@ == "srd.rule: aspect_ratio must be \"W:H\" with positive integers, got "@ + in_quotes@,
{
    joined("srd.rule: aspect_ratio must be \"W:H\" with positive integers, got ", in_quotes)
}

fn say_regex(field: &str, pattern: &str, complaint: &str) -> (r: String)
    ensures
        r@ == regex_message(field@, pattern@, complaint@),
{
    let r = joined(joined("srd.rule: invalid ", field).as_str(), " '");
    let r = joined(joined(r.as_str(), pattern).as_str(), "': ");
    joined(r.as_str(), complaint)
}

/// An expression as it came out of the compiler: itself, or what is wrong.
pub enum Compiled {
    Absent,
    Good(Regex),
    /// The pattern, and what is wrong with it.
    Bad(String, String),
}

impl Compiled {
    /// Whether this is what the compiler makes of an optional pattern.
    pub open spec fn is_of(self, pattern: Option<String>) -> bool {
        match self {
            Compiled::Absent => pattern is None,
            Compiled::Good(re) => pattern matches Some(p) && regex_complaint(p@) is None && re.source() == p@,
            Compiled::Bad(p, e) => pattern matches Some(q) && p@ == q@ && regex_complaint(q@) == Some(e@),
        }
    }

    pub fn of(pattern: &Option<String>) -> (r: Self)
        ensures
            r.is_of(*pattern),
    {
        match pattern {
            Some(p) => match Regex::new(p.as_str()) {
                Ok(re) => Compiled::Good(re),
                Err(e) => Compiled::Bad(p.clone(), e),
            },
            None => Compiled::Absent,
        }
    }
}

/// An expression of a matcher, if a pattern was given for it.
pub open spec fn same_source(re: Option<Regex>, compiled: Compiled) -> bool {
    match (re, compiled) {
        (Some(re), Compiled::Good(c)) => re.source() == c.source(),
        (None, Compiled::Absent) => true,
        _ => false,
    }
}

impl RuleRequest {
    /// The geometry asked for, if all of it was.
    pub open spec fn geometry(self) -> Option<Rect> {
        match (self.x, self.y, self.width, self.height) {
            (Some(x), Some(y), Some(width), Some(height)) => Some(Rect { x, y, width, height }),
            _ => None,
        }
    }

    /// What the script is told, if the rule cannot be made: of the first
    /// expression that does not compile, or else of the ratio.
    pub open spec fn complaint(self, title: Compiled, class: Compiled) -> Option<Seq<char>> {
        if let Compiled::Bad(p, e) = title {
            Some(regex_message("title_regex"@, p@, e@))
        } else if let Compiled::Bad(p, e) = class {
            Some(regex_message("class_regex"@, p@, e@))
        } else {
            match self.aspect_ratio {
                Some(s) => if ratio_of(s@) is None { Some(ratio_message(s@)) } else { None },
                None => None,
            }
        }
    }

    /// Whether a rule is the one asked for.
    pub open spec fn is_made(self, title: Compiled, class: Compiled, rule: WindowRule) -> bool {
        let m = rule.matcher;
        let a = rule.actions;
        &&& m.title_contains == self.title
        &&& m.class == (if self.class is Some { self.class } else { self.app_id })
        &&& m.instance == self.instance
        &&& same_source(m.title_regex, title)
        &&& same_source(m.class_regex, class)
        &&& a == WindowRuleActions {
            floating: self.floating,
            maximized: self.maximized,
            workspace: self.workspace,
            geometry: self.geometry(),
            decorated: self.decorated,
            border_color: self.border_color,
            border_width: self.border_width,
            corner_radius: self.corner_radius,
            pinned: self.pinned,
            opacity: self.opacity,
            resize_margin: self.resize_margin,
            aspect_ratio: match self.aspect_ratio {
                Some(s) => ratio_of(s@),
                None => None,
            },
        }
    }

    /// The rule asked for, given what its expressions compiled to, or what the
    /// script is to be told.
    pub fn build_with(self, title: Compiled, class: Compiled) -> (r: Result<WindowRule, String>)
        ensures
            match r {
                Ok(rule) => self.complaint(title, class) is None && self.is_made(title, class, rule),
                Err(message) => self.complaint(title, class) == Some(message@),
            },
    {
        let title_regex: Option<Regex> = match title {
            Compiled::Absent => None,
            Compiled::Good(re) => Some(re),
            Compiled::Bad(p, e) => {
                return Err(say_regex("title_regex", p.as_str(), e.as_str()));
            },
        };
        let class_regex: Option<Regex> = match class {
            Compiled::Absent => None,
            Compiled::Good(re) => Some(re),
            Compiled::Bad(p, e) => {
                return Err(say_regex("class_regex", p.as_str(), e.as_str()));
            },
        };
        let aspect_ratio: Option<(u32, u32)> = match &self.aspect_ratio {
            Some(s) => {
                let ratio = parse_ratio(s.as_str());
                if ratio.is_none() {
                    return Err(say_ratio(quoted(s.as_str()).as_str()));
                }
                ratio
            },
            None => None,
        };
        let geometry: Option<Rect> = match (self.x, self.y, self.width, self.height) {
            (Some(x), Some(y), Some(width), Some(height)) => Some(Rect::new(x, y, width, height)),
            _ => None,
        };
        let actions = WindowRuleActions {
            floating: self.floating,
            maximized: self.maximized,
            workspace: self.workspace,
            geometry,
            decorated: self.decorated,
            border_color: self.border_color,
            border_width: self.border_width,
            corner_radius: self.corner_radius,
            pinned: self.pinned,
            opacity: self.opacity,
            resize_margin: self.resize_margin,
            aspect_ratio,
        };
        let named: Option<String> = match self.class {
            Some(c) => Some(c),
            None => self.app_id,
        };
        let matcher = WindowMatch {
            title_contains: self.title,
            class: named,
            title_regex,
            class_regex,
            instance: self.instance,
        };
        Ok(WindowRule { matcher, actions })
    }

    /// The rule asked for, or what the script is to be told.
    pub fn build(self) -> (r: Result<WindowRule, String>)
        ensures
            exists|title: Compiled, class: Compiled|
                #![trigger self.complaint(title, class)]
                title.is_of(self.title_regex) && class.is_of(self.class_regex) && match r {
                    Ok(rule) => self.complaint(title, class) is None && self.is_made(title, class, rule),
                    Err(message) => self.complaint(title, class) == Some(message@),
                },
    {
        let title = Compiled::of(&self.title_regex);
        let class = Compiled::of(&self.class_regex);
        let ghost both = (title, class);
        let r = self.build_with(title, class);
        assert(self.complaint(both.0, both.1) is None || self.complaint(both.0, both.1) is Some);
        r
    }
}

/// A rule that is made has each criterion and each action that was asked for, and
/// no other. A class can be given as `class` or, without that, as `app_id`. A
/// geometry needs all of its four numbers.
pub proof fn lemma_rule_made(asked: RuleRequest, title: Compiled, class: Compiled, rule: WindowRule)
    requires
        asked.is_made(title, class, rule),
    ensures
        rule.matcher.title_contains == asked.title,
        asked.class is Some ==> rule.matcher.class == asked.class,
        asked.class is None ==> rule.matcher.class == asked.app_id,
        rule.matcher.instance == asked.instance,
        rule.matcher.title_regex is Some <==> title is Good,
        rule.matcher.class_regex is Some <==> class is Good,
        rule.matcher.title_regex matches Some(re) ==> (title matches Compiled::Good(c) && re.source() == c.source()),
        rule.matcher.class_regex matches Some(re) ==> (class matches Compiled::Good(c) && re.source() == c.source()),
        rule.actions.floating == asked.floating,
        rule.actions.maximized == asked.maximized,
        rule.actions.workspace == asked.workspace,
        rule.actions.decorated == asked.decorated,
        rule.actions.border_color == asked.border_color,
        rule.actions.border_width == asked.border_width,
        rule.actions.corner_radius == asked.corner_radius,
        rule.actions.pinned == asked.pinned,
        rule.actions.opacity == asked.opacity,
        rule.actions.resize_margin == asked.resize_margin,
        rule.actions.geometry is Some <==> asked.x is Some && asked.y is Some && asked.width is Some && asked.height is Some,
        rule.actions.geometry matches Some(g) ==> Some(g.x) == asked.x && Some(g.y) == asked.y && Some(g.width)
            == asked.width && Some(g.height) == asked.height,
        asked.aspect_ratio is None ==> rule.actions.aspect_ratio is None,
        asked.aspect_ratio matches Some(s) ==> rule.actions.aspect_ratio == ratio_of(s@),
{
}

/// A rule is refused only for what is wrong with it: a pattern that does not
/// compile, or a ratio that is none.
pub proof fn lemma_rule_refused(asked: RuleRequest, title: Compiled, class: Compiled)
    ensures
        asked.complaint(title, class) is None <==> !(title is Bad) && !(class is Bad) && (asked.aspect_ratio matches Some(s)
            ==> ratio_of(s@) is Some),
{
}

/// Two positive numbers with a colon between them are that ratio.
pub proof fn lemma_ratio_reads_back(w: u32, h: u32)
    requires
        w > 0,
        h > 0,
    ensures
        ratio_of(decimal(w as nat).push(':') + decimal(h as nat)) == Some((w, h)),
{
    let a = decimal(w as nat);
    let b = decimal(h as nat);
    lemma_decimal_reads_back(w as nat, u32::MAX as nat);
    lemma_decimal_reads_back(h as nat, u32::MAX as nat);
    assert forall|k: int| 0 <= k < a.len() implies a[k] != ':' by {
        assert(is_digit(a[k]));
    }
    lemma_split_once(a, ':', b);
    lemma_digits_stay(a);
    lemma_digits_stay(b);
}

/// Digits are not trimmed.
proof fn lemma_digits_stay(s: Seq<char>)
    requires
        all_digits(s),
    ensures
        trim_end(trim_start(s)) == s,
{
    assert(is_digit(s[0]) && is_digit(s[s.len() - 1]));
}

/// A ratio has two sides, and neither is nothing.
pub proof fn lemma_ratio_has_sides(s: Seq<char>)
    ensures
        ratio_of(s) matches Some(r) ==> r.0 > 0 && r.1 > 0,
        (forall|k: int| 0 <= k < s.len() ==> s[k] != ':') ==> ratio_of(s) is None,
{
    if forall|k: int| 0 <= k < s.len() ==> s[k] != ':' {
        lemma_first_is(s, ':', s.len() as int);
    }
}

} // verus!
