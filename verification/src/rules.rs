//! Window rules: which windows they match and what they do.
use crate::geometry::Rect;
use crate::ieee::Float32;
use crate::text::{
    ascii_lower, contains, has_part, lowercase, lowercase_of, same_ignoring_ascii_case,
};
use crate::window::{copy_text, Window};
use crate::workspace::WorkspaceId;
use vstd::prelude::*;

verus! {

/// Why `regex::Regex::new` refuses a pattern; `None` for one that it compiles.
pub uninterp spec fn regex_complaint(pattern: Seq<char>) -> Option<Seq<char>>;

/// Whether a compiled pattern matches somewhere in a text, by
/// `regex::Regex::is_match`.
pub uninterp spec fn regex_finds(pattern: Seq<char>, text: Seq<char>) -> bool;

/// `regex::Regex::new`: compiles the pattern, or says what is wrong with it.
/// Both are functions of the pattern alone.
#[verifier::external_body]
fn regex_compile(pattern: &str) -> (r: Result<(), String>)
    ensures
        (match r {
            Ok(()) => None,
            Err(message) => Some(message@),
        }) == regex_complaint(pattern@),
{
    match regex::Regex::new(pattern) {
        Ok(_) => Ok(()),
        Err(e) => Err(e.to_string()),
    }
}

/// `regex::Regex::is_match`: whether the pattern, which compiles, matches
/// somewhere in the text. A function of the two alone.
#[verifier::external_body]
fn regex_search(pattern: &str, text: &str) -> (r: bool)
    requires
        regex_complaint(pattern@) is None,
    ensures
        r == regex_finds(pattern@, text@),
{
    regex::Regex::new(pattern).expect("the pattern compiled before").is_match(text)
}

/// A regular expression that compiles.
#[derive(Debug)]
pub struct Regex {
    pattern: String,
}

impl Regex {
    #[verifier::type_invariant]
    spec fn compiles(self) -> bool {
        regex_complaint(self.pattern@) is None
    }

    /// The text of the expression.
    pub closed spec fn source(self) -> Seq<char> {
        self.pattern@
    }

    /// Compiles a regular expression. The error is what is wrong with it.
    pub fn new(pattern: &str) -> (r: Result<Regex, String>)
        ensures
            match r {
                Ok(re) => regex_complaint(pattern@) is None && re.source() == pattern@,
                Err(message) => regex_complaint(pattern@) == Some(message@),
            },
    {
        match regex_compile(pattern) {
            Ok(()) => Ok(Regex { pattern: pattern.to_string() }),
            Err(message) => Err(message),
        }
    }

    pub fn as_str(&self) -> (r: &str)
        ensures
            r@ == self.source(),
    {
        self.pattern.as_str()
    }

    /// Whether the expression matches somewhere in `text`.
    pub fn is_match(&self, text: &str) -> (r: bool)
        ensures
            r == regex_finds(self.source(), text@),
    {
        proof {
            use_type_invariant(self);
        }
        regex_search(self.pattern.as_str(), text)
    }
}

impl Clone for Regex {
    fn clone(&self) -> (r: Self)
        ensures
            r == *self,
    {
        proof {
            use_type_invariant(self);
        }
        Regex { pattern: self.pattern.clone() }
    }
}

/// Match criteria for a [`WindowRule`]. Every criterion that is given must
/// match; a matcher without any matches nothing.
#[derive(Debug)]
pub struct WindowMatch {
    /// Case-insensitive substring of the title.
    pub title_contains: Option<String>,
    /// The `app_id`, ASCII case aside.
    pub class: Option<String>,
    /// Expression to find in the title.
    pub title_regex: Option<Regex>,
    /// Expression to find in the `app_id`.
    pub class_regex: Option<Regex>,
    /// The instance, ASCII case aside. Empty on Wayland.
    pub instance: Option<String>,
}

impl Default for WindowMatch {
    fn default() -> (r: Self)
        ensures
            r.empty(),
    {
        WindowMatch { title_contains: None, class: None, title_regex: None, class_regex: None, instance: None }
    }
}

impl Clone for WindowMatch {
    fn clone(&self) -> (r: Self)
        ensures
            r == *self,
    {
        WindowMatch {
            title_contains: copy_text(&self.title_contains),
            class: copy_text(&self.class),
            title_regex: match &self.title_regex {
                Some(re) => Some(re.clone()),
                None => None,
            },
            class_regex: match &self.class_regex {
                Some(re) => Some(re.clone()),
                None => None,
            },
            instance: copy_text(&self.instance),
        }
    }
}

/// What the Unicode and regular-expression criteria of a matcher came to.
#[derive(Debug, Clone, Copy, PartialEq, Eq, Structural)]
pub struct OutsideVerdicts {
    /// Whether the lower-case title holds the lower-case wanted part.
    pub title_part: bool,
    pub title_regex: bool,
    pub class_regex: bool,
}

impl WindowMatch {
    pub open spec fn empty(self) -> bool {
        self.title_contains is None && self.class is None && self.title_regex is None && self.class_regex is None
            && self.instance is None
    }

    /// The criteria together, given what the outside ones came to.
    pub open spec fn accepts(self, window: Window, verdicts: OutsideVerdicts) -> bool {
        &&& !self.empty()
        &&& self.title_contains is Some ==> verdicts.title_part
        &&& self.class matches Some(c) ==> ascii_lower(window.app_id@) == ascii_lower(c@)
        &&& self.title_regex is Some ==> verdicts.title_regex
        &&& self.class_regex is Some ==> verdicts.class_regex
        &&& self.instance matches Some(i) ==> ascii_lower(window.instance@) == ascii_lower(i@)
    }

    /// What the outside criteria come to for a window; true where not given.
    pub open spec fn verdicts(self, window: Window) -> OutsideVerdicts {
        OutsideVerdicts {
            title_part: match self.title_contains {
                Some(t) => has_part(lowercase_of(window.title@), lowercase_of(t@)),
                None => true,
            },
            title_regex: match self.title_regex {
                Some(re) => regex_finds(re.source(), window.title@),
                None => true,
            },
            class_regex: match self.class_regex {
                Some(re) => regex_finds(re.source(), window.app_id@),
                None => true,
            },
        }
    }

    /// Whether the matcher matches the window.
    pub open spec fn covers(self, window: Window) -> bool {
        self.accepts(window, self.verdicts(window))
    }

    pub fn is_empty(&self) -> (r: bool)
        ensures
            r == self.empty(),
    {
        self.title_contains.is_none() && self.class.is_none() && self.title_regex.is_none()
            && self.class_regex.is_none() && self.instance.is_none()
    }

    /// Whether every criterion given matches `window`, where `verdicts` says
    /// what the case-insensitive title and the expressions came to.
    pub fn matches_with(&self, window: &Window, verdicts: OutsideVerdicts) -> (r: bool)
        ensures
            r == self.accepts(*window, verdicts),
    {
        if self.is_empty() {
            return false;
        }
        if self.title_contains.is_some() && !verdicts.title_part {
            return false;
        }
        if let Some(c) = &self.class {
            if !same_ignoring_ascii_case(window.app_id.as_str(), c.as_str()) {
                return false;
            }
        }
        if self.title_regex.is_some() && !verdicts.title_regex {
            return false;
        }
        if self.class_regex.is_some() && !verdicts.class_regex {
            return false;
        }
        if let Some(i) = &self.instance {
            if !same_ignoring_ascii_case(window.instance.as_str(), i.as_str()) {
                return false;
            }
        }
        true
    }

    /// Whether `window` meets every criterion given, and there is one.
    pub fn matches(&self, window: &Window) -> (r: bool)
        ensures
            r == self.covers(*window),
    {
        let title_part: bool = match &self.title_contains {
            Some(t) => title_holds(lowercase(window.title.as_str()).as_str(), lowercase(t.as_str()).as_str()),
            None => true,
        };
        let title_regex: bool = match &self.title_regex {
            Some(re) => re.is_match(window.title.as_str()),
            None => true,
        };
        let class_regex: bool = match &self.class_regex {
            Some(re) => re.is_match(window.app_id.as_str()),
            None => true,
        };
        self.matches_with(window, OutsideVerdicts { title_part, title_regex, class_regex })
    }
}

/// Whether a title in lower case holds a part in lower case.
pub fn title_holds(lower_title: &str, lower_part: &str) -> (r: bool)
    ensures
        r == has_part(lower_title@, lower_part@),
{
    contains(lower_title, lower_part)
}

/// Actions applied once, when a matching window is first added.
#[derive(Debug, Clone, Copy, PartialEq)]
pub struct WindowRuleActions {
    pub floating: Option<bool>,
    pub maximized: Option<bool>,
    pub workspace: Option<WorkspaceId>,
    pub geometry: Option<Rect>,
    pub decorated: Option<bool>,
    pub border_color: Option<(u8, u8, u8)>,
    pub border_width: Option<u32>,
    pub corner_radius: Option<u32>,
    /// Always on top.
    pub pinned: Option<bool>,
    pub opacity: Option<Float32>,
    pub resize_margin: Option<i32>,
    pub aspect_ratio: Option<(u32, u32)>,
}

impl WindowRuleActions {
    /// Whether nothing is asked for.
    pub open spec fn nothing(self) -> bool {
        &&& self.floating is None && self.maximized is None && self.workspace is None && self.geometry is None
        &&& self.decorated is None && self.border_color is None && self.border_width is None
        &&& self.corner_radius is None && self.pinned is None && self.opacity is None
        &&& self.resize_margin is None && self.aspect_ratio is None
    }
}

impl Default for WindowRuleActions {
    fn default() -> (r: Self)
        ensures
            r.nothing(),
    {
        WindowRuleActions {
            floating: None,
            maximized: None,
            workspace: None,
            geometry: None,
            decorated: None,
            border_color: None,
            border_width: None,
            corner_radius: None,
            pinned: None,
            opacity: None,
            resize_margin: None,
            aspect_ratio: None,
        }
    }
}

#[derive(Debug)]
pub struct WindowRule {
    pub matcher: WindowMatch,
    pub actions: WindowRuleActions,
}

impl Default for WindowRule {
    fn default() -> (r: Self)
        ensures
            r.matcher.empty(),
            r.actions.nothing(),
    {
        WindowRule { matcher: WindowMatch::default(), actions: WindowRuleActions::default() }
    }
}

impl Clone for WindowRule {
    fn clone(&self) -> (r: Self)
        ensures
            r == *self,
    {
        WindowRule { matcher: self.matcher.clone(), actions: self.actions }
    }
}

/// A matcher without criteria matches no window.
pub proof fn lemma_empty_matches_nothing(m: WindowMatch, window: Window)
    requires
        m.empty(),
    ensures
        !m.covers(window),
{
}

/// A matcher with several criteria matches a window only if each of them alone
/// would.
pub proof fn lemma_criteria_are_joined(m: WindowMatch, window: Window)
    requires
        m.covers(window),
    ensures
        m.class is Some ==> (WindowMatch {
            title_contains: None,
            title_regex: None,
            class_regex: None,
            instance: None,
            ..m
        }).covers(window),
        m.title_contains is Some ==> (WindowMatch {
            class: None,
            title_regex: None,
            class_regex: None,
            instance: None,
            ..m
        }).covers(window),
        m.title_regex is Some ==> (WindowMatch {
            title_contains: None,
            class: None,
            class_regex: None,
            instance: None,
            ..m
        }).covers(window),
        m.class_regex is Some ==> (WindowMatch {
            title_contains: None,
            class: None,
            title_regex: None,
            instance: None,
            ..m
        }).covers(window),
        m.instance is Some ==> (WindowMatch {
            title_contains: None,
            class: None,
            title_regex: None,
            class_regex: None,
            ..m
        }).covers(window),
{
}

/// A matcher matches a window that meets each criterion that it has: the title
/// holds the wanted part in any case, the class and the instance are the wanted
/// ones but for the case of ASCII letters, and the patterns are found in the
/// title and in the class.
pub proof fn lemma_matcher_said(m: WindowMatch, window: Window)
    ensures
        m.covers(window) <==> {
            &&& m.title_contains is Some || m.class is Some || m.title_regex is Some || m.class_regex is Some
                || m.instance is Some
            &&& m.title_contains matches Some(part) ==> has_part(lowercase_of(window.title@), lowercase_of(part@))
            &&& m.class matches Some(class) ==> ascii_lower(window.app_id@) == ascii_lower(class@)
            &&& m.instance matches Some(instance) ==> ascii_lower(window.instance@) == ascii_lower(instance@)
            &&& m.title_regex matches Some(re) ==> regex_finds(re.source(), window.title@)
            &&& m.class_regex matches Some(re) ==> regex_finds(re.source(), window.app_id@)
        },
{
}

} // verus!
