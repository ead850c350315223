//! Which settings are out of bounds.
use super::engine::{Engine, EngineView};
use super::value::{ConfigValue, ConfigView};
use crate::ieee::Float64;
use crate::text::{decimal, joined, quoted, quoted_of, same, views, write_u64};
use crate::theme::{is_hex_color, is_valid_hex_color};
use vstd::prelude::*;

verus! {

/// A setting that is out of bounds.
#[derive(Debug)]
pub enum Violation {
    OutOfRange { key: String, value: Float64, min: u32, max: u32 },
    UnknownLayout { key: String, name: String, layouts: Vec<String> },
    NotAColor { key: String, value: String },
}

/// A [`Violation`] as its contracts see it.
pub enum ViolationView {
    OutOfRange { key: Seq<char>, value: Float64, min: u32, max: u32 },
    UnknownLayout { key: Seq<char>, name: Seq<char>, layouts: Seq<Seq<char>> },
    NotAColor { key: Seq<char>, value: Seq<char> },
}

/// The texts of a list.
pub open spec fn texts(list: Seq<&str>) -> Seq<Seq<char>> {
    list.map_values(|s: &str| s@)
}

impl Violation {
    pub open spec fn view(&self) -> ViolationView {
        match self {
            Violation::OutOfRange { key, value, min, max } => ViolationView::OutOfRange {
                key: key@,
                value: *value,
                min: *min,
                max: *max,
            },
            Violation::UnknownLayout { key, name, layouts } => ViolationView::UnknownLayout {
                key: key@,
                name: name@,
                layouts: views(layouts@),
            },
            Violation::NotAColor { key, value } => ViolationView::NotAColor { key: key@, value: value@ },
        }
    }

    /// The violation in words. `shown` is the number that is out of range, as
    /// it is to be shown.
    pub fn message(&self, shown: &str) -> (r: String)
        ensures
            r@ == self@.text(shown@),
    {
        match self {
            Violation::OutOfRange { key, value: _, min, max } => {
                let r = joined(joined(key.as_str(), " = ").as_str(), shown);
                let r = joined(joined(r.as_str(), " is out of range [").as_str(), write_u64(*min as u64).as_str());
                let r = joined(joined(r.as_str(), ", ").as_str(), write_u64(*max as u64).as_str());
                joined(r.as_str(), "]")
            },
            Violation::UnknownLayout { key, name, layouts } => {
                unknown_layout_message(key.as_str(), name.as_str(), listing(layouts).as_str())
            },
            Violation::NotAColor { key, value } => {
                let r = joined(joined(key.as_str(), " = '").as_str(), value.as_str());
                joined(r.as_str(), "' is not a valid hex color (expected '#rrggbb')")
            },
        }
    }
}

/// What to say of a name that no layout has, by the list of the names that
/// there are.
pub fn unknown_layout_message(key: &str, name: &str, names: &str) -> (r: String)
    ensures
        r@ == key@ + " = '"@ + name@ + "' is not a registered layout ["@ + names@ + "]"@,
{
    let r = joined(joined(key, " = '").as_str(), name);
    let r = joined(r.as_str(), "' is not a registered layout [");
    joined(joined(r.as_str(), names).as_str(), "]")
}

/// Texts in quotes, with commas between them.
pub open spec fn listed(list: Seq<Seq<char>>) -> Seq<char>
    decreases list.len(),
{
    if list.len() == 0 {
        Seq::empty()
    } else if list.len() == 1 {
        quoted_of(list[0])
    } else {
        listed(list.drop_last()) + ", "@ + quoted_of(list.last())
    }
}

fn listing(list: &Vec<String>) -> (r: String)
    ensures
        r@ == listed(views(list@)),
{
    let ghost all = views(list@);
    let mut r = String::new();
    let mut i: usize = 0;
    assert(all.take(0) =~= Seq::empty());
    while i < list.len()
        invariant
            i <= list.len(),
            all == views(list@),
            r@ == listed(all.take(i as int)),
        decreases list.len() - i,
    {
        let next = quoted(list[i].as_str());
        proof {
            assert(all[i as int] == list@[i as int]@);
            assert(all.take(i + 1).drop_last() =~= all.take(i as int));
            assert(all.take(i + 1).last() == all[i as int]);
        }
        if i == 0 {
            r = next;
        } else {
            r = joined(joined(r.as_str(), ", ").as_str(), next.as_str());
        }
        i = i + 1;
    }
    assert(all.take(i as int) =~= all);
    r
}

impl ViolationView {
    pub open spec fn text(self, shown: Seq<char>) -> Seq<char> {
        match self {
            ViolationView::OutOfRange { key, value, min, max } => key + " = "@ + shown + " is out of range ["@
                + decimal(min as nat) + ", "@ + decimal(max as nat) + "]"@,
            ViolationView::UnknownLayout { key, name, layouts } => key + " = '"@ + name
                + "' is not a registered layout ["@ + listed(layouts) + "]"@,
            ViolationView::NotAColor { key, value } => key + " = '"@ + value
                + "' is not a valid hex color (expected '#rrggbb')"@,
        }
    }
}

impl EngineView {
    /// The violation of a range, if the key is set to a number outside of it.
    pub open spec fn range_violation(self, key: Seq<char>, min: u32, max: u32) -> Seq<ViolationView> {
        match self.at(key) {
            Some(ConfigView::Number(value)) => if value.less(Float64::of_whole(min as int)) || Float64::of_whole(
                max as int,
            ).less(value) {
                seq![ViolationView::OutOfRange { key, value, min, max }]
            } else {
                Seq::empty()
            },
            _ => Seq::empty(),
        }
    }

    /// The violation of a key that is set to the name of no layout.
    pub open spec fn layout_violation(self, key: Seq<char>, layouts: Seq<Seq<char>>) -> Seq<ViolationView> {
        match self.at(key) {
            Some(ConfigView::Text(name)) => if !layouts.contains(name) {
                seq![ViolationView::UnknownLayout { key, name, layouts }]
            } else {
                Seq::empty()
            },
            _ => Seq::empty(),
        }
    }

    /// The violation of a key that is set to a text that is no colour.
    pub open spec fn color_violation(self, key: Seq<char>) -> Seq<ViolationView> {
        match self.at(key) {
            Some(ConfigView::Text(value)) => if !is_hex_color(value) {
                seq![ViolationView::NotAColor { key, value }]
            } else {
                Seq::empty()
            },
            _ => Seq::empty(),
        }
    }

    pub open spec fn range_violations(self) -> Seq<ViolationView> {
        Seq::<ViolationView>::empty()
            + self.range_violation("general.window_gap"@, 0, 100)
            + self.range_violation("layout.tiling.gaps.inner"@, 0, 100)
            + self.range_violation("layout.tiling.gaps.outer"@, 0, 100)
            + self.range_violation("layout.dynamic.gaps.inner"@, 0, 100)
            + self.range_violation("layout.dynamic.gaps.outer"@, 0, 100)
            + self.range_violation("layout.floating.gaps.inner"@, 0, 100)
            + self.range_violation("layout.floating.gaps.outer"@, 0, 100)
            + self.range_violation("theme.decorations.border.width"@, 0, 20)
            + self.range_violation("theme.decorations.border.radius"@, 0, 100)
            + self.range_violation("general.animation_duration"@, 0, 1000)
            + self.range_violation("general.resize_margin"@, 1, 50)
            + self.range_violation("performance.max_fps"@, 30, 240)
            + self.range_violation("performance.window_cache_size"@, 10, 10000)
            + self.range_violation("theme.decorations.border.inactive_dim"@, 0, 1)
    }

    pub open spec fn layout_violations(self, layouts: Seq<Seq<char>>) -> Seq<ViolationView> {
        Seq::<ViolationView>::empty()
            + self.layout_violation("general.default_layout"@, layouts)
            + self.layout_violation("monitor.primary_layout"@, layouts)
            + self.layout_violation("monitor.secondary_layout"@, layouts)
    }

    pub open spec fn color_violations(self) -> Seq<ViolationView> {
        Seq::<ViolationView>::empty()
            + self.color_violation("theme.colors.background"@)
            + self.color_violation("theme.colors.foreground"@)
            + self.color_violation("theme.colors.primary"@)
            + self.color_violation("theme.colors.secondary"@)
            + self.color_violation("theme.colors.accent"@)
            + self.color_violation("theme.colors.error"@)
            + self.color_violation("theme.colors.warning"@)
            + self.color_violation("theme.colors.success"@)
            + self.color_violation("theme.decorations.border.active_color"@)
            + self.color_violation("theme.decorations.border.inactive_color"@)
            + self.color_violation("theme.decorations.title_bar.background"@)
            + self.color_violation("theme.decorations.title_bar.foreground"@)
            + self.color_violation("theme.decorations.title_bar.foreground_focused"@)
            + self.color_violation("theme.decorations.title_bar.foreground_unfocused"@)
    }

    /// Every setting that is out of bounds, if these are the layouts.
    pub open spec fn violations(self, layouts: Seq<Seq<char>>) -> Seq<ViolationView> {
        self.range_violations() + self.layout_violations(layouts) + self.color_violations()
    }
}

/// What violations are to the contracts.
pub open spec fn violation_views(v: Seq<Violation>) -> Seq<ViolationView> {
    v.map_values(|v: Violation| v@)
}

fn add_violation(found: &mut Vec<Violation>, v: Violation)
    ensures
        violation_views(final(found)@) == violation_views(old(found)@) + seq![v@],
{
    let ghost before = found@;
    let ghost seen = v;
    found.push(v);
    assert(violation_views(found@) =~= violation_views(before) + seq![seen@]);
}

fn layout_names(layouts: &Vec<&str>) -> (r: Vec<String>)
    ensures
        views(r@) == texts(layouts@),
{
    let mut r: Vec<String> = Vec::new();
    let mut i: usize = 0;
    while i < layouts.len()
        invariant
            i <= layouts.len(),
            r.len() == i,
            forall|k: int| 0 <= k < i ==> (#[trigger] r@[k])@ == layouts@[k]@,
        decreases layouts.len() - i,
    {
        r.push(layouts[i].to_string());
        i = i + 1;
    }
    assert(views(r@) =~= texts(layouts@));
    r
}

/// Whether a name is among others.
fn is_among(layouts: &Vec<&str>, name: &str) -> (r: bool)
    ensures
        r == texts(layouts@).contains(name@),
{
    let mut i: usize = 0;
    while i < layouts.len()
        invariant
            i <= layouts.len(),
            forall|k: int| 0 <= k < i ==> (#[trigger] layouts@[k])@ != name@,
        decreases layouts.len() - i,
    {
        if same(layouts[i], name) {
            assert(texts(layouts@)[i as int] == name@);
            return true;
        }
        i = i + 1;
    }
    assert forall|k: int| 0 <= k < texts(layouts@).len() implies texts(layouts@)[k] != name@ by {
        assert(layouts@[k]@ != name@);
    }
    false
}

impl Engine {
    fn check_range(&self, found: &mut Vec<Violation>, key: &str, min: u32, max: u32)
        requires
            self.wf(),
        ensures
            violation_views(final(found)@) == violation_views(old(found)@) + self@.range_violation(key@, min, max),
    {
        if let Some(ConfigValue::Number(value)) = self.get(key) {
            if value.is_less(&Float64::of_i64(min as i64)) || Float64::of_i64(max as i64).is_less(&value) {
                add_violation(found, Violation::OutOfRange { key: key.to_string(), value, min, max });
                return;
            }
        }
        assert(violation_views(found@) + Seq::<ViolationView>::empty() =~= violation_views(found@));
    }

    fn check_layout(&self, found: &mut Vec<Violation>, key: &str, layouts: &Vec<&str>)
        requires
            self.wf(),
        ensures
            violation_views(final(found)@) == violation_views(old(found)@) + self@.layout_violation(
                key@,
                texts(layouts@),
            ),
    {
        if let Some(ConfigValue::String(name)) = self.get(key) {
            if !is_among(layouts, name.as_str()) {
                let layouts = layout_names(layouts);
                add_violation(found, Violation::UnknownLayout { key: key.to_string(), name, layouts });
                return;
            }
        }
        assert(violation_views(found@) + Seq::<ViolationView>::empty() =~= violation_views(found@));
    }

    fn check_color(&self, found: &mut Vec<Violation>, key: &str)
        requires
            self.wf(),
        ensures
            violation_views(final(found)@) == violation_views(old(found)@) + self@.color_violation(key@),
    {
        if let Some(ConfigValue::String(value)) = self.get(key) {
            if !is_valid_hex_color(value.as_str()) {
                add_violation(found, Violation::NotAColor { key: key.to_string(), value });
                return;
            }
        }
        assert(violation_views(found@) + Seq::<ViolationView>::empty() =~= violation_views(found@));
    }

    fn range_problems(&self) -> (found: Vec<Violation>)
        requires
            self.wf(),
        ensures
            violation_views(found@) == self@.range_violations(),
    {
        let mut found: Vec<Violation> = Vec::new();
        assert(violation_views(found@) =~= Seq::<ViolationView>::empty());
        self.check_range(&mut found, "general.window_gap", 0, 100);
        self.check_range(&mut found, "layout.tiling.gaps.inner", 0, 100);
        self.check_range(&mut found, "layout.tiling.gaps.outer", 0, 100);
        self.check_range(&mut found, "layout.dynamic.gaps.inner", 0, 100);
        self.check_range(&mut found, "layout.dynamic.gaps.outer", 0, 100);
        self.check_range(&mut found, "layout.floating.gaps.inner", 0, 100);
        self.check_range(&mut found, "layout.floating.gaps.outer", 0, 100);
        self.check_range(&mut found, "theme.decorations.border.width", 0, 20);
        self.check_range(&mut found, "theme.decorations.border.radius", 0, 100);
        self.check_range(&mut found, "general.animation_duration", 0, 1000);
        self.check_range(&mut found, "general.resize_margin", 1, 50);
        self.check_range(&mut found, "performance.max_fps", 30, 240);
        self.check_range(&mut found, "performance.window_cache_size", 10, 10000);
        self.check_range(&mut found, "theme.decorations.border.inactive_dim", 0, 1);
        found
    }

    fn layout_problems(&self, layouts: &Vec<&str>) -> (found: Vec<Violation>)
        requires
            self.wf(),
        ensures
            violation_views(found@) == self@.layout_violations(texts(layouts@)),
    {
        let mut found: Vec<Violation> = Vec::new();
        assert(violation_views(found@) =~= Seq::<ViolationView>::empty());
        self.check_layout(&mut found, "general.default_layout", layouts);
        self.check_layout(&mut found, "monitor.primary_layout", layouts);
        self.check_layout(&mut found, "monitor.secondary_layout", layouts);
        found
    }

    fn color_problems(&self) -> (found: Vec<Violation>)
        requires
            self.wf(),
        ensures
            violation_views(found@) == self@.color_violations(),
    {
        let mut found: Vec<Violation> = Vec::new();
        assert(violation_views(found@) =~= Seq::<ViolationView>::empty());
        self.check_color(&mut found, "theme.colors.background");
        self.check_color(&mut found, "theme.colors.foreground");
        self.check_color(&mut found, "theme.colors.primary");
        self.check_color(&mut found, "theme.colors.secondary");
        self.check_color(&mut found, "theme.colors.accent");
        self.check_color(&mut found, "theme.colors.error");
        self.check_color(&mut found, "theme.colors.warning");
        self.check_color(&mut found, "theme.colors.success");
        self.check_color(&mut found, "theme.decorations.border.active_color");
        self.check_color(&mut found, "theme.decorations.border.inactive_color");
        self.check_color(&mut found, "theme.decorations.title_bar.background");
        self.check_color(&mut found, "theme.decorations.title_bar.foreground");
        self.check_color(&mut found, "theme.decorations.title_bar.foreground_focused");
        self.check_color(&mut found, "theme.decorations.title_bar.foreground_unfocused");
        found
    }

    /// Every setting that is out of bounds: numbers outside of their range,
    /// names of layouts that do not exist, and texts that are no colours.
    pub fn validate(&self, layouts: &Vec<&str>) -> (r: Vec<Violation>)
        requires
            self.wf(),
        ensures
            violation_views(r@) == self@.violations(texts(layouts@)),
    {
        let mut found = self.range_problems();
        let mut more = self.layout_problems(layouts);
        let mut last = self.color_problems();
        let ghost parts = (found@, more@, last@);
        found.append(&mut more);
        found.append(&mut last);
        assert(violation_views(found@) =~= violation_views(parts.0) + violation_views(parts.1) + violation_views(
            parts.2,
        ));
        found
    }
}

// ---- What is reported --------------------------------------------------------------

/// What two lists hold together.
proof fn lemma_in_either(a: Seq<ViolationView>, b: Seq<ViolationView>)
    ensures
        forall|x: ViolationView| #[trigger] (a + b).contains(x) <==> a.contains(x) || b.contains(x),
{
    let c = a + b;
    assert forall|x: ViolationView| #[trigger] c.contains(x) <==> a.contains(x) || b.contains(x) by {
        if a.contains(x) {
            let i = choose|i: int| 0 <= i < a.len() && a[i] == x;
            assert(c[i] == x);
        }
        if b.contains(x) {
            let i = choose|i: int| 0 <= i < b.len() && b[i] == x;
            assert(c[a.len() + i] == x);
        }
        if c.contains(x) {
            let i = choose|i: int| 0 <= i < c.len() && c[i] == x;
            if i < a.len() {
                assert(a[i] == x);
            } else {
                assert(b[i - a.len()] == x);
            }
        }
    }
}

/// What a list of one holds.
proof fn lemma_only(x: ViolationView)
    ensures
        seq![x].contains(x),
        forall|y: ViolationView| #[trigger] seq![x].contains(y) ==> y == x,
{
    assert(seq![x][0] == x);
}

proof fn lemma_in_ranges(v: EngineView, key: Seq<char>, min: u32, max: u32, x: ViolationView)
    requires
        (key == "general.window_gap"@ && min == 0 && max == 100)
            || (key == "layout.tiling.gaps.inner"@ && min == 0 && max == 100)
            || (key == "layout.tiling.gaps.outer"@ && min == 0 && max == 100)
            || (key == "layout.dynamic.gaps.inner"@ && min == 0 && max == 100)
            || (key == "layout.dynamic.gaps.outer"@ && min == 0 && max == 100)
            || (key == "layout.floating.gaps.inner"@ && min == 0 && max == 100)
            || (key == "layout.floating.gaps.outer"@ && min == 0 && max == 100)
            || (key == "theme.decorations.border.width"@ && min == 0 && max == 20)
            || (key == "theme.decorations.border.radius"@ && min == 0 && max == 100)
            || (key == "general.animation_duration"@ && min == 0 && max == 1000)
            || (key == "general.resize_margin"@ && min == 1 && max == 50)
            || (key == "performance.max_fps"@ && min == 30 && max == 240)
            || (key == "performance.window_cache_size"@ && min == 10 && max == 10000)
            || (key == "theme.decorations.border.inactive_dim"@ && min == 0 && max == 1),
    ensures
        v.range_violation(key, min, max).contains(x) ==> v.range_violations().contains(x),
{
    let none = Seq::<ViolationView>::empty();
    let c0 = v.range_violation("general.window_gap"@, 0, 100);
    lemma_in_either(none, c0);
    let r0 = none + c0;
    let c1 = v.range_violation("layout.tiling.gaps.inner"@, 0, 100);
    lemma_in_either(r0, c1);
    let r1 = r0 + c1;
    let c2 = v.range_violation("layout.tiling.gaps.outer"@, 0, 100);
    lemma_in_either(r1, c2);
    let r2 = r1 + c2;
    let c3 = v.range_violation("layout.dynamic.gaps.inner"@, 0, 100);
    lemma_in_either(r2, c3);
    let r3 = r2 + c3;
    let c4 = v.range_violation("layout.dynamic.gaps.outer"@, 0, 100);
    lemma_in_either(r3, c4);
    let r4 = r3 + c4;
    let c5 = v.range_violation("layout.floating.gaps.inner"@, 0, 100);
    lemma_in_either(r4, c5);
    let r5 = r4 + c5;
    let c6 = v.range_violation("layout.floating.gaps.outer"@, 0, 100);
    lemma_in_either(r5, c6);
    let r6 = r5 + c6;
    let c7 = v.range_violation("theme.decorations.border.width"@, 0, 20);
    lemma_in_either(r6, c7);
    let r7 = r6 + c7;
    let c8 = v.range_violation("theme.decorations.border.radius"@, 0, 100);
    lemma_in_either(r7, c8);
    let r8 = r7 + c8;
    let c9 = v.range_violation("general.animation_duration"@, 0, 1000);
    lemma_in_either(r8, c9);
    let r9 = r8 + c9;
    let c10 = v.range_violation("general.resize_margin"@, 1, 50);
    lemma_in_either(r9, c10);
    let r10 = r9 + c10;
    let c11 = v.range_violation("performance.max_fps"@, 30, 240);
    lemma_in_either(r10, c11);
    let r11 = r10 + c11;
    let c12 = v.range_violation("performance.window_cache_size"@, 10, 10000);
    lemma_in_either(r11, c12);
    let r12 = r11 + c12;
    let c13 = v.range_violation("theme.decorations.border.inactive_dim"@, 0, 1);
    lemma_in_either(r12, c13);
    let r13 = r12 + c13;
    assert(v.range_violations() == r13);
}

proof fn lemma_in_layouts(v: EngineView, key: Seq<char>, layouts: Seq<Seq<char>>, x: ViolationView)
    requires
        key == "general.default_layout"@
            || key == "monitor.primary_layout"@
            || key == "monitor.secondary_layout"@,
    ensures
        v.layout_violation(key, layouts).contains(x) ==> v.layout_violations(layouts).contains(x),
{
    let none = Seq::<ViolationView>::empty();
    let c0 = v.layout_violation("general.default_layout"@, layouts);
    lemma_in_either(none, c0);
    let r0 = none + c0;
    let c1 = v.layout_violation("monitor.primary_layout"@, layouts);
    lemma_in_either(r0, c1);
    let r1 = r0 + c1;
    let c2 = v.layout_violation("monitor.secondary_layout"@, layouts);
    lemma_in_either(r1, c2);
    let r2 = r1 + c2;
    assert(v.layout_violations(layouts) == r2);
}

proof fn lemma_in_colors(v: EngineView, key: Seq<char>, x: ViolationView)
    requires
        key == "theme.colors.background"@
            || key == "theme.colors.foreground"@
            || key == "theme.colors.primary"@
            || key == "theme.colors.secondary"@
            || key == "theme.colors.accent"@
            || key == "theme.colors.error"@
            || key == "theme.colors.warning"@
            || key == "theme.colors.success"@
            || key == "theme.decorations.border.active_color"@
            || key == "theme.decorations.border.inactive_color"@
            || key == "theme.decorations.title_bar.background"@
            || key == "theme.decorations.title_bar.foreground"@
            || key == "theme.decorations.title_bar.foreground_focused"@
            || key == "theme.decorations.title_bar.foreground_unfocused"@,
    ensures
        v.color_violation(key).contains(x) ==> v.color_violations().contains(x),
{
    let none = Seq::<ViolationView>::empty();
    let c0 = v.color_violation("theme.colors.background"@);
    lemma_in_either(none, c0);
    let r0 = none + c0;
    let c1 = v.color_violation("theme.colors.foreground"@);
    lemma_in_either(r0, c1);
    let r1 = r0 + c1;
    let c2 = v.color_violation("theme.colors.primary"@);
    lemma_in_either(r1, c2);
    let r2 = r1 + c2;
    let c3 = v.color_violation("theme.colors.secondary"@);
    lemma_in_either(r2, c3);
    let r3 = r2 + c3;
    let c4 = v.color_violation("theme.colors.accent"@);
    lemma_in_either(r3, c4);
    let r4 = r3 + c4;
    let c5 = v.color_violation("theme.colors.error"@);
    lemma_in_either(r4, c5);
    let r5 = r4 + c5;
    let c6 = v.color_violation("theme.colors.warning"@);
    lemma_in_either(r5, c6);
    let r6 = r5 + c6;
    let c7 = v.color_violation("theme.colors.success"@);
    lemma_in_either(r6, c7);
    let r7 = r6 + c7;
    let c8 = v.color_violation("theme.decorations.border.active_color"@);
    lemma_in_either(r7, c8);
    let r8 = r7 + c8;
    let c9 = v.color_violation("theme.decorations.border.inactive_color"@);
    lemma_in_either(r8, c9);
    let r9 = r8 + c9;
    let c10 = v.color_violation("theme.decorations.title_bar.background"@);
    lemma_in_either(r9, c10);
    let r10 = r9 + c10;
    let c11 = v.color_violation("theme.decorations.title_bar.foreground"@);
    lemma_in_either(r10, c11);
    let r11 = r10 + c11;
    let c12 = v.color_violation("theme.decorations.title_bar.foreground_focused"@);
    lemma_in_either(r11, c12);
    let r12 = r11 + c12;
    let c13 = v.color_violation("theme.decorations.title_bar.foreground_unfocused"@);
    lemma_in_either(r12, c13);
    let r13 = r12 + c13;
    assert(v.color_violations() == r13);
}

proof fn lemma_among_all(v: EngineView, layouts: Seq<Seq<char>>, x: ViolationView)
    ensures
        v.violations(layouts).contains(x) <==> v.range_violations().contains(x) || v.layout_violations(layouts).contains(x)
            || v.color_violations().contains(x),
{
    lemma_in_either(v.range_violations(), v.layout_violations(layouts));
    lemma_in_either(v.range_violations() + v.layout_violations(layouts), v.color_violations());
}

/// A number outside of the range of its key is reported, with the range.
pub proof fn lemma_range_is_reported(
    v: EngineView,
    layouts: Seq<Seq<char>>,
    key: Seq<char>,
    value: Float64,
    min: u32,
    max: u32,
)
    requires
        (key == "general.window_gap"@ && min == 0 && max == 100)
            || (key == "layout.tiling.gaps.inner"@ && min == 0 && max == 100)
            || (key == "layout.tiling.gaps.outer"@ && min == 0 && max == 100)
            || (key == "layout.dynamic.gaps.inner"@ && min == 0 && max == 100)
            || (key == "layout.dynamic.gaps.outer"@ && min == 0 && max == 100)
            || (key == "layout.floating.gaps.inner"@ && min == 0 && max == 100)
            || (key == "layout.floating.gaps.outer"@ && min == 0 && max == 100)
            || (key == "theme.decorations.border.width"@ && min == 0 && max == 20)
            || (key == "theme.decorations.border.radius"@ && min == 0 && max == 100)
            || (key == "general.animation_duration"@ && min == 0 && max == 1000)
            || (key == "general.resize_margin"@ && min == 1 && max == 50)
            || (key == "performance.max_fps"@ && min == 30 && max == 240)
            || (key == "performance.window_cache_size"@ && min == 10 && max == 10000)
            || (key == "theme.decorations.border.inactive_dim"@ && min == 0 && max == 1),
        v.at(key) == Some(ConfigView::Number(value)),
        value.less(Float64::of_whole(min as int)) || Float64::of_whole(max as int).less(value),
    ensures
        v.violations(layouts).contains(ViolationView::OutOfRange { key, value, min, max }),
{
    let x = ViolationView::OutOfRange { key, value, min, max };
    lemma_only(x);
    lemma_in_ranges(v, key, min, max, x);
    lemma_among_all(v, layouts, x);
}

/// A layout that is not registered is reported.
pub proof fn lemma_layout_is_reported(v: EngineView, layouts: Seq<Seq<char>>, key: Seq<char>, name: Seq<char>)
    requires
        key == "general.default_layout"@
            || key == "monitor.primary_layout"@
            || key == "monitor.secondary_layout"@,
        v.at(key) == Some(ConfigView::Text(name)),
        !layouts.contains(name),
    ensures
        v.violations(layouts).contains(ViolationView::UnknownLayout { key, name, layouts }),
{
    let x = ViolationView::UnknownLayout { key, name, layouts };
    lemma_only(x);
    lemma_in_layouts(v, key, layouts, x);
    lemma_among_all(v, layouts, x);
}

/// A colour that is not of the form `#rrggbb` is reported.
pub proof fn lemma_color_is_reported(v: EngineView, layouts: Seq<Seq<char>>, key: Seq<char>, value: Seq<char>)
    requires
        key == "theme.colors.background"@
            || key == "theme.colors.foreground"@
            || key == "theme.colors.primary"@
            || key == "theme.colors.secondary"@
            || key == "theme.colors.accent"@
            || key == "theme.colors.error"@
            || key == "theme.colors.warning"@
            || key == "theme.colors.success"@
            || key == "theme.decorations.border.active_color"@
            || key == "theme.decorations.border.inactive_color"@
            || key == "theme.decorations.title_bar.background"@
            || key == "theme.decorations.title_bar.foreground"@
            || key == "theme.decorations.title_bar.foreground_focused"@
            || key == "theme.decorations.title_bar.foreground_unfocused"@,
        v.at(key) == Some(ConfigView::Text(value)),
        !is_hex_color(value),
    ensures
        v.violations(layouts).contains(ViolationView::NotAColor { key, value }),
{
    let x = ViolationView::NotAColor { key, value };
    lemma_only(x);
    lemma_in_colors(v, key, x);
    lemma_among_all(v, layouts, x);
}

/// Whether a report of a number out of its range is true.
#[verifier::opaque]
spec fn range_wrong(v: EngineView, x: ViolationView) -> bool {
    x matches ViolationView::OutOfRange { key, value, min, max } && v.at(key) == Some(ConfigView::Number(value)) && (
    value.less(Float64::of_whole(min as int)) || Float64::of_whole(max as int).less(value))
}

proof fn lemma_range_true(v: EngineView, key: Seq<char>, min: u32, max: u32, x: ViolationView)
    ensures
        v.range_violation(key, min, max).contains(x) ==> range_wrong(v, x),
{
    reveal(range_wrong);
}

proof fn lemma_ranges_parted(v: EngineView, x: ViolationView)
    requires
        v.range_violations().contains(x),
    ensures
        v.range_violation("general.window_gap"@, 0, 100).contains(x)
            || v.range_violation("layout.tiling.gaps.inner"@, 0, 100).contains(x)
            || v.range_violation("layout.tiling.gaps.outer"@, 0, 100).contains(x)
            || v.range_violation("layout.dynamic.gaps.inner"@, 0, 100).contains(x)
            || v.range_violation("layout.dynamic.gaps.outer"@, 0, 100).contains(x)
            || v.range_violation("layout.floating.gaps.inner"@, 0, 100).contains(x)
            || v.range_violation("layout.floating.gaps.outer"@, 0, 100).contains(x)
            || v.range_violation("theme.decorations.border.width"@, 0, 20).contains(x)
            || v.range_violation("theme.decorations.border.radius"@, 0, 100).contains(x)
            || v.range_violation("general.animation_duration"@, 0, 1000).contains(x)
            || v.range_violation("general.resize_margin"@, 1, 50).contains(x)
            || v.range_violation("performance.max_fps"@, 30, 240).contains(x)
            || v.range_violation("performance.window_cache_size"@, 10, 10000).contains(x)
            || v.range_violation("theme.decorations.border.inactive_dim"@, 0, 1).contains(x),
{
    let none = Seq::<ViolationView>::empty();
    let c0 = v.range_violation("general.window_gap"@, 0, 100);
    lemma_in_either(none, c0);
    let r0 = none + c0;
    let c1 = v.range_violation("layout.tiling.gaps.inner"@, 0, 100);
    lemma_in_either(r0, c1);
    let r1 = r0 + c1;
    let c2 = v.range_violation("layout.tiling.gaps.outer"@, 0, 100);
    lemma_in_either(r1, c2);
    let r2 = r1 + c2;
    let c3 = v.range_violation("layout.dynamic.gaps.inner"@, 0, 100);
    lemma_in_either(r2, c3);
    let r3 = r2 + c3;
    let c4 = v.range_violation("layout.dynamic.gaps.outer"@, 0, 100);
    lemma_in_either(r3, c4);
    let r4 = r3 + c4;
    let c5 = v.range_violation("layout.floating.gaps.inner"@, 0, 100);
    lemma_in_either(r4, c5);
    let r5 = r4 + c5;
    let c6 = v.range_violation("layout.floating.gaps.outer"@, 0, 100);
    lemma_in_either(r5, c6);
    let r6 = r5 + c6;
    let c7 = v.range_violation("theme.decorations.border.width"@, 0, 20);
    lemma_in_either(r6, c7);
    let r7 = r6 + c7;
    let c8 = v.range_violation("theme.decorations.border.radius"@, 0, 100);
    lemma_in_either(r7, c8);
    let r8 = r7 + c8;
    let c9 = v.range_violation("general.animation_duration"@, 0, 1000);
    lemma_in_either(r8, c9);
    let r9 = r8 + c9;
    let c10 = v.range_violation("general.resize_margin"@, 1, 50);
    lemma_in_either(r9, c10);
    let r10 = r9 + c10;
    let c11 = v.range_violation("performance.max_fps"@, 30, 240);
    lemma_in_either(r10, c11);
    let r11 = r10 + c11;
    let c12 = v.range_violation("performance.window_cache_size"@, 10, 10000);
    lemma_in_either(r11, c12);
    let r12 = r11 + c12;
    let c13 = v.range_violation("theme.decorations.border.inactive_dim"@, 0, 1);
    lemma_in_either(r12, c13);
    let r13 = r12 + c13;
    assert(v.range_violations() == r13);
}

proof fn lemma_ranges_true(v: EngineView, x: ViolationView)
    requires
        v.range_violations().contains(x),
    ensures
        range_wrong(v, x),
{
    lemma_ranges_parted(v, x);
    lemma_range_true(v, "general.window_gap"@, 0, 100, x);
    lemma_range_true(v, "layout.tiling.gaps.inner"@, 0, 100, x);
    lemma_range_true(v, "layout.tiling.gaps.outer"@, 0, 100, x);
    lemma_range_true(v, "layout.dynamic.gaps.inner"@, 0, 100, x);
    lemma_range_true(v, "layout.dynamic.gaps.outer"@, 0, 100, x);
    lemma_range_true(v, "layout.floating.gaps.inner"@, 0, 100, x);
    lemma_range_true(v, "layout.floating.gaps.outer"@, 0, 100, x);
    lemma_range_true(v, "theme.decorations.border.width"@, 0, 20, x);
    lemma_range_true(v, "theme.decorations.border.radius"@, 0, 100, x);
    lemma_range_true(v, "general.animation_duration"@, 0, 1000, x);
    lemma_range_true(v, "general.resize_margin"@, 1, 50, x);
    lemma_range_true(v, "performance.max_fps"@, 30, 240, x);
    lemma_range_true(v, "performance.window_cache_size"@, 10, 10000, x);
    lemma_range_true(v, "theme.decorations.border.inactive_dim"@, 0, 1, x);
}

proof fn lemma_layouts_true(v: EngineView, all: Seq<Seq<char>>, x: ViolationView)
    requires
        v.layout_violations(all).contains(x),
    ensures
        x matches ViolationView::UnknownLayout { key, name, layouts } && v.at(key) == Some(ConfigView::Text(name))
            && layouts == all && !all.contains(name),
{
    let layouts = all;
    let none = Seq::<ViolationView>::empty();
    let c0 = v.layout_violation("general.default_layout"@, layouts);
    lemma_in_either(none, c0);
    let r0 = none + c0;
    let c1 = v.layout_violation("monitor.primary_layout"@, layouts);
    lemma_in_either(r0, c1);
    let r1 = r0 + c1;
    let c2 = v.layout_violation("monitor.secondary_layout"@, layouts);
    lemma_in_either(r1, c2);
    let r2 = r1 + c2;
    assert(v.layout_violations(layouts) == r2);
}

proof fn lemma_colors_true(v: EngineView, x: ViolationView)
    requires
        v.color_violations().contains(x),
    ensures
        x matches ViolationView::NotAColor { key, value } && v.at(key) == Some(ConfigView::Text(value)) && !is_hex_color(
            value,
        ),
{
    let none = Seq::<ViolationView>::empty();
    let c0 = v.color_violation("theme.colors.background"@);
    lemma_in_either(none, c0);
    let r0 = none + c0;
    let c1 = v.color_violation("theme.colors.foreground"@);
    lemma_in_either(r0, c1);
    let r1 = r0 + c1;
    let c2 = v.color_violation("theme.colors.primary"@);
    lemma_in_either(r1, c2);
    let r2 = r1 + c2;
    let c3 = v.color_violation("theme.colors.secondary"@);
    lemma_in_either(r2, c3);
    let r3 = r2 + c3;
    let c4 = v.color_violation("theme.colors.accent"@);
    lemma_in_either(r3, c4);
    let r4 = r3 + c4;
    let c5 = v.color_violation("theme.colors.error"@);
    lemma_in_either(r4, c5);
    let r5 = r4 + c5;
    let c6 = v.color_violation("theme.colors.warning"@);
    lemma_in_either(r5, c6);
    let r6 = r5 + c6;
    let c7 = v.color_violation("theme.colors.success"@);
    lemma_in_either(r6, c7);
    let r7 = r6 + c7;
    let c8 = v.color_violation("theme.decorations.border.active_color"@);
    lemma_in_either(r7, c8);
    let r8 = r7 + c8;
    let c9 = v.color_violation("theme.decorations.border.inactive_color"@);
    lemma_in_either(r8, c9);
    let r9 = r8 + c9;
    let c10 = v.color_violation("theme.decorations.title_bar.background"@);
    lemma_in_either(r9, c10);
    let r10 = r9 + c10;
    let c11 = v.color_violation("theme.decorations.title_bar.foreground"@);
    lemma_in_either(r10, c11);
    let r11 = r10 + c11;
    let c12 = v.color_violation("theme.decorations.title_bar.foreground_focused"@);
    lemma_in_either(r11, c12);
    let r12 = r11 + c12;
    let c13 = v.color_violation("theme.decorations.title_bar.foreground_unfocused"@);
    lemma_in_either(r12, c13);
    let r13 = r12 + c13;
    assert(v.color_violations() == r13);
}

/// Nothing is reported but what is wrong with a value that is set.
pub proof fn lemma_reports_are_true(v: EngineView, all: Seq<Seq<char>>, x: ViolationView)
    requires
        v.violations(all).contains(x),
    ensures
        match x {
            ViolationView::OutOfRange { key, value, min, max } => v.at(key) == Some(ConfigView::Number(value)) && (
            value.less(Float64::of_whole(min as int)) || Float64::of_whole(max as int).less(value)),
            ViolationView::UnknownLayout { key, name, layouts } => v.at(key) == Some(ConfigView::Text(name)) && layouts
                == all && !all.contains(name),
            ViolationView::NotAColor { key, value } => v.at(key) == Some(ConfigView::Text(value)) && !is_hex_color(value),
        },
{
    reveal(range_wrong);
    lemma_among_all(v, all, x);
    if v.range_violations().contains(x) {
        lemma_ranges_true(v, x);
    } else if v.layout_violations(all).contains(x) {
        lemma_layouts_true(v, all, x);
    } else {
        lemma_colors_true(v, x);
    }
}

} // verus!
