//! The already-validated configuration tree: named dashboards, each a
//! nested layout of widget slots, and its translation into the layout
//! engine's tree. Reading and parsing the on-disk file is an external
//! collaborator's job; this module consumes the tree it produces.

use vstd::prelude::*;

use crate::layout::{Constraint, Layout, LayoutItem};
use crate::text::str_eq;

verus! {

/// Direction of a configured layout node.
#[derive(Debug, Clone, Copy, PartialEq, Eq, Structural)]
pub enum Direction {
    Horizontal,
    Vertical,
}

/// The sizing constraint of one configured widget slot; the first field set
/// wins, and a slot with none set defaults to `Flex(1)`.
#[derive(Debug, Clone, Copy, PartialEq, Eq)]
pub struct ConfigConstraint {
    pub flex: Option<u16>,
    pub fixed: Option<u16>,
    pub percentage: Option<u16>,
}

/// One item of a configured layout: a named widget slot or a nested layout.
#[derive(Debug)]
pub enum ConfigLayoutItem {
    Widget { name: String, constraint: ConfigConstraint },
    Layout { direction: Direction, items: Vec<ConfigLayoutItem> },
}

/// A configured layout tree: one directed node of items.
#[derive(Debug)]
pub enum ConfigLayout {
    Layout { direction: Direction, items: Vec<ConfigLayoutItem> },
}

/// One widget entry of a dashboard.
#[derive(Debug)]
pub struct WidgetConfig {
    pub name: String,
}

/// A named dashboard: its layout and its widget entries.
#[derive(Debug)]
pub struct Dashboard {
    pub name: String,
    pub layout: ConfigLayout,
    pub widgets: Vec<WidgetConfig>,
}

/// The whole configuration: every dashboard it declares.
#[derive(Debug)]
pub struct ConfigFile {
    pub dashboard: Vec<Dashboard>,
}

/// The layout constraint a configured slot stands for.
pub open spec fn spec_to_constraint(c: ConfigConstraint) -> Constraint {
    if c.flex is Some {
        Constraint::Flex(c.flex->0)
    } else if c.fixed is Some {
        Constraint::Fixed(c.fixed->0)
    } else if c.percentage is Some {
        Constraint::Percentage(c.percentage->0)
    } else {
        Constraint::Flex(1)
    }
}

/// Whether `l` is the layout-engine node a configured node of this
/// direction and these items stands for.
pub open spec fn dir_items_convert(
    direction: Direction,
    items: Vec<ConfigLayoutItem>,
    l: Layout,
) -> bool
    decreases items, 1int,
{
    match l {
        Layout::Horizontal(lis) => direction == Direction::Horizontal && items_convert(items, lis),
        Layout::Vertical(lis) => direction == Direction::Vertical && items_convert(items, lis),
    }
}

/// Whether `lis` converts `items` element by element.
pub open spec fn items_convert(items: Vec<ConfigLayoutItem>, lis: Vec<LayoutItem>) -> bool
    decreases items, 0int,
{
    &&& lis@.len() == items@.len()
    &&& (forall|i: int|
        0 <= i < items@.len() ==> item_converts(items[i], #[trigger] lis@[i]))
}

/// Whether `li` is the layout item a configured item stands for: a widget
/// slot becomes its constraint leaf, a nested node converts recursively.
pub open spec fn item_converts(it: ConfigLayoutItem, li: LayoutItem) -> bool
    decreases it, 2int,
{
    match it {
        ConfigLayoutItem::Widget { name, constraint } => li == LayoutItem::Constraint(
            spec_to_constraint(constraint),
        ),
        ConfigLayoutItem::Layout { direction, items } => match li {
            LayoutItem::Nested(l) => dir_items_convert(direction, items, l),
            LayoutItem::Constraint(_) => false,
        },
    }
}

/// Whether `l` is the layout-engine tree a configured layout stands for.
pub open spec fn layout_converts(cfg: ConfigLayout, l: Layout) -> bool {
    match cfg {
        ConfigLayout::Layout { direction, items } => dir_items_convert(direction, items, l),
    }
}

/// Nesting depth of a configured item, the conversion's termination
/// measure.
pub open spec fn cfg_item_height(it: ConfigLayoutItem) -> nat
    decreases it, 0int,
{
    match it {
        ConfigLayoutItem::Widget { .. } => 0,
        ConfigLayoutItem::Layout { items, .. } => cfg_items_height(items, items.len() as int) + 1,
    }
}

/// Largest nesting depth among the first `n` configured items.
pub open spec fn cfg_items_height(items: Vec<ConfigLayoutItem>, n: int) -> nat
    decreases items, n,
{
    if n <= 0 || n > items.len() {
        0
    } else {
        let rest = cfg_items_height(items, n - 1);
        let here = cfg_item_height(items[n - 1]);
        if rest > here {
            rest
        } else {
            here
        }
    }
}

/// The height of a configured node covers the height of each item.
pub proof fn lemma_cfg_items_height_ge(items: Vec<ConfigLayoutItem>, n: int, j: int)
    requires
        0 <= j < n <= items.len(),
    ensures
        cfg_items_height(items, n) >= cfg_item_height(items[j]),
    decreases n,
{
    if j < n - 1 {
        lemma_cfg_items_height_ge(items, n - 1, j);
    }
}

impl ConfigConstraint {
    /// The layout constraint this slot stands for.
    pub fn to_constraint(&self) -> (r: Constraint)
        ensures
            r == spec_to_constraint(*self),
    {
        if let Some(flex) = self.flex {
            Constraint::Flex(flex)
        } else if let Some(fixed) = self.fixed {
            Constraint::Fixed(fixed)
        } else if let Some(pct) = self.percentage {
            Constraint::Percentage(pct)
        } else {
            Constraint::Flex(1)
        }
    }
}

/// Convert a configured node's items, in order.
fn convert_items(items: &Vec<ConfigLayoutItem>) -> (r: Vec<LayoutItem>)
    ensures
        items_convert(*items, r),
    decreases cfg_items_height(*items, items@.len() as int), 1int,
{
    let n = items.len();
    let mut lis: Vec<LayoutItem> = Vec::new();
    let mut i: usize = 0;
    while i < n
        invariant
            n == items@.len(),
            i <= n,
            lis@.len() == i,
            forall|j: int| 0 <= j < i ==> item_converts(items@[j], #[trigger] lis@[j]),
        decreases n - i,
    {
        proof {
            lemma_cfg_items_height_ge(*items, n as int, i as int);
        }
        let li = items[i].to_layout_item();
        lis.push(li);
        i = i + 1;
    }
    lis
}

impl ConfigLayoutItem {
    /// The layout item this configured item stands for.
    pub fn to_layout_item(&self) -> (r: LayoutItem)
        ensures
            item_converts(*self, r),
        decreases cfg_item_height(*self), 0int,
    {
        match self {
            ConfigLayoutItem::Widget { name: _, constraint } => LayoutItem::Constraint(
                constraint.to_constraint(),
            ),
            ConfigLayoutItem::Layout { direction, items } => {
                let lis = convert_items(items);
                match direction {
                    Direction::Horizontal => LayoutItem::Nested(Layout::Horizontal(lis)),
                    Direction::Vertical => LayoutItem::Nested(Layout::Vertical(lis)),
                }
            },
        }
    }
}

impl ConfigLayout {
    /// The layout-engine tree this configured layout stands for.
    pub fn to_layout(&self) -> (r: Layout)
        ensures
            layout_converts(*self, r),
    {
        match self {
            ConfigLayout::Layout { direction, items } => {
                let lis = convert_items(items);
                match direction {
                    Direction::Horizontal => Layout::Horizontal(lis),
                    Direction::Vertical => Layout::Vertical(lis),
                }
            },
        }
    }
}

/// The widget slots one configured item contributes, depth first, in order.
pub open spec fn spec_flatten_item(it: ConfigLayoutItem) -> Seq<ConfigLayoutItem>
    decreases it, 1int,
{
    match it {
        ConfigLayoutItem::Widget { .. } => seq![it],
        ConfigLayoutItem::Layout { items, .. } => spec_flatten_items(items, items.len() as int),
    }
}

/// The widget slots the first `n` items contribute.
pub open spec fn spec_flatten_items(items: Vec<ConfigLayoutItem>, n: int) -> Seq<ConfigLayoutItem>
    decreases items, n,
{
    if n <= 0 || n > items.len() {
        Seq::empty()
    } else {
        spec_flatten_items(items, n - 1) + spec_flatten_item(items[n - 1])
    }
}

/// The widget slots of a whole configured layout, depth first, left to
/// right: the order the live widget list is built in, which by the layout
/// engine's leaf order is also the order of the rectangles.
pub open spec fn spec_flatten_layout(cfg: ConfigLayout) -> Seq<ConfigLayoutItem> {
    match cfg {
        ConfigLayout::Layout { items, .. } => spec_flatten_items(items, items.len() as int),
    }
}

/// Append the widget slots under `items`, depth first, to `result`.
pub fn flatten_items_recursive<'a>(
    items: &'a Vec<ConfigLayoutItem>,
    result: &mut Vec<&'a ConfigLayoutItem>,
)
    ensures
        final(result)@.len() == old(result)@.len() + spec_flatten_items(
            *items,
            items@.len() as int,
        ).len(),
        forall|j: int|
            0 <= j < old(result)@.len() ==> final(result)@[j] == (#[trigger] old(result)@[j]),
        forall|j: int|
            0 <= j < spec_flatten_items(*items, items@.len() as int).len() ==> *(
            final(result)@[old(result)@.len() + j]) == (#[trigger] spec_flatten_items(
                *items,
                items@.len() as int,
            )[j]),
    decreases cfg_items_height(*items, items@.len() as int), 1int,
{
    let n = items.len();
    let mut i: usize = 0;
    while i < n
        invariant
            n == items@.len(),
            i <= n,
            result@.len() == old(result)@.len() + spec_flatten_items(*items, i as int).len(),
            forall|j: int|
                0 <= j < old(result)@.len() ==> result@[j] == (#[trigger] old(result)@[j]),
            forall|j: int|
                0 <= j < spec_flatten_items(*items, i as int).len() ==> *(
                result@[old(result)@.len() + j]) == (#[trigger] spec_flatten_items(
                    *items,
                    i as int,
                )[j]),
        decreases n - i,
    {
        match &items[i] {
            ConfigLayoutItem::Widget { .. } => {
                result.push(&items[i]);
                proof {
                    reveal_with_fuel(spec_flatten_items, 2);
                    assert(spec_flatten_item(items@[i as int]) =~= seq![items@[i as int]]);
                    assert(spec_flatten_items(*items, i as int + 1) =~= spec_flatten_items(
                        *items,
                        i as int,
                    ) + spec_flatten_item(items@[i as int]));
                }
            },
            ConfigLayoutItem::Layout { direction: d, items: nested } => {
                proof {
                    lemma_cfg_items_height_ge(*items, n as int, i as int);
                }
                flatten_items_recursive(nested, result);
                proof {
                    reveal_with_fuel(spec_flatten_items, 2);
                    assert(items@[i as int] == (ConfigLayoutItem::Layout {
                        direction: *d,
                        items: *nested,
                    }));
                    assert(spec_flatten_item(items@[i as int]) == spec_flatten_items(
                        *nested,
                        nested@.len() as int,
                    ));
                    assert(spec_flatten_items(*items, i as int + 1) =~= spec_flatten_items(
                        *items,
                        i as int,
                    ) + spec_flatten_item(items@[i as int]));
                }
            },
        }
        i = i + 1;
    }
}

/// The widget slots of a configured layout, depth first, left to right.
pub fn flatten_layout_items<'a>(layout: &'a ConfigLayout) -> (r: Vec<&'a ConfigLayoutItem>)
    ensures
        r@.len() == spec_flatten_layout(*layout).len(),
        forall|j: int|
            0 <= j < r@.len() ==> *(r@[j]) == (#[trigger] spec_flatten_layout(*layout)[j]),
{
    let mut result: Vec<&ConfigLayoutItem> = Vec::new();
    match layout {
        ConfigLayout::Layout { direction: _, items } => {
            flatten_items_recursive(items, &mut result);
        },
    }
    result
}

impl ConfigFile {
    /// The dashboard declared under `name`, or `None` when the
    /// configuration has no dashboard of that name.
    pub fn get_dashboard(&self, name: &str) -> (r: Option<&Dashboard>)
        ensures
            match r {
                Some(d) => d.name@ == name@ && (exists|i: int|
                    0 <= i < self.dashboard@.len() && *d == self.dashboard@[i]),
                None => forall|i: int|
                    0 <= i < self.dashboard@.len() ==> (#[trigger] self.dashboard@[i].name@)
                        != name@,
            },
    {
        let n = self.dashboard.len();
        let mut i: usize = 0;
        while i < n
            invariant
                n == self.dashboard@.len(),
                i <= n,
                forall|j: int| 0 <= j < i ==> (#[trigger] self.dashboard@[j].name@) != name@,
            decreases n - i,
        {
            if str_eq(self.dashboard[i].name.as_str(), name) {
                return Some(&self.dashboard[i]);
            }
            i = i + 1;
        }
        None
    }
}

/// A widget slot named `name` with the default one-share flex constraint.
pub open spec fn is_flex1_widget(it: ConfigLayoutItem, name: Seq<char>) -> bool {
    match it {
        ConfigLayoutItem::Widget { name: n, constraint } => n@ == name && constraint
            == (ConfigConstraint { flex: Some(1u16), fixed: None, percentage: None }),
        ConfigLayoutItem::Layout { .. } => false,
    }
}

/// The built-in fallback configuration: one dashboard named `default`,
/// splitting the screen horizontally between a process list and a vertical
/// stack of cpu, memory and disk widgets, every slot an equal flex share.
pub open spec fn is_default_config(c: ConfigFile) -> bool {
    &&& c.dashboard@.len() == 1
    &&& c.dashboard@[0].name@ == "default"@
    &&& c.dashboard@[0].widgets@.len() == 0
    &&& match c.dashboard@[0].layout {
        ConfigLayout::Layout { direction, items } => {
            &&& direction == Direction::Horizontal
            &&& items@.len() == 2
            &&& is_flex1_widget(items@[0], "process"@)
            &&& match items@[1] {
                ConfigLayoutItem::Layout { direction: d2, items: inner } => {
                    &&& d2 == Direction::Vertical
                    &&& inner@.len() == 3
                    &&& is_flex1_widget(inner@[0], "cpu"@)
                    &&& is_flex1_widget(inner@[1], "memory"@)
                    &&& is_flex1_widget(inner@[2], "disk"@)
                },
                ConfigLayoutItem::Widget { .. } => false,
            }
        },
    }
}

/// A widget slot with the default one-share flex constraint.
fn flex1_slot(name: &str) -> (r: ConfigLayoutItem)
    ensures
        is_flex1_widget(r, name@),
{
    ConfigLayoutItem::Widget {
        name: name.to_owned(),
        constraint: ConfigConstraint { flex: Some(1), fixed: None, percentage: None },
    }
}

impl Default for ConfigFile {
    /// The fallback configuration used when no file is found.
    fn default() -> (r: Self)
        ensures
            is_default_config(r),
    {
        let mut inner: Vec<ConfigLayoutItem> = Vec::new();
        inner.push(flex1_slot("cpu"));
        inner.push(flex1_slot("memory"));
        inner.push(flex1_slot("disk"));
        let mut items: Vec<ConfigLayoutItem> = Vec::new();
        items.push(flex1_slot("process"));
        items.push(ConfigLayoutItem::Layout { direction: Direction::Vertical, items: inner });
        let layout = ConfigLayout::Layout { direction: Direction::Horizontal, items };
        let dash = Dashboard { name: "default".to_owned(), layout, widgets: Vec::new() };
        let mut dashboards: Vec<Dashboard> = Vec::new();
        dashboards.push(dash);
        ConfigFile { dashboard: dashboards }
    }
}

/// Conversion preserves the one-to-one correspondence: the first `n`
/// configured items contribute exactly as many widget slots as their
/// converted layout items contribute constraint leaves.
proof fn lemma_items_convert_leaves(items: Vec<ConfigLayoutItem>, lis: Vec<LayoutItem>, n: int)
    requires
        items_convert(items, lis),
        0 <= n <= items@.len(),
    ensures
        spec_flatten_items(items, n).len() == crate::layout::leaves_prefix(lis, n),
    decreases cfg_items_height(items, items@.len() as int), n,
{
    if n > 0 {
        lemma_items_convert_leaves(items, lis, n - 1);
        let it = items@[n - 1];
        let li = lis@[n - 1];
        assert(item_converts(it, li));
        match it {
            ConfigLayoutItem::Widget { .. } => {
                assert(spec_flatten_item(it) =~= seq![it]);
                assert(crate::layout::item_leaves(li) == 1);
            },
            ConfigLayoutItem::Layout { direction, items: inner } => {
                match li {
                    LayoutItem::Nested(l2) => {
                        lemma_cfg_items_height_ge(items, items@.len() as int, n - 1);
                        match l2 {
                            Layout::Horizontal(lis2) => {
                                assert(items_convert(inner, lis2));
                                lemma_items_convert_leaves(inner, lis2, inner@.len() as int);
                                assert(crate::layout::item_leaves(li)
                                    == crate::layout::leaves_prefix(lis2, lis2@.len() as int));
                            },
                            Layout::Vertical(lis2) => {
                                assert(items_convert(inner, lis2));
                                lemma_items_convert_leaves(inner, lis2, inner@.len() as int);
                                assert(crate::layout::item_leaves(li)
                                    == crate::layout::leaves_prefix(lis2, lis2@.len() as int));
                            },
                        }
                        assert(spec_flatten_item(it) == spec_flatten_items(
                            inner,
                            inner@.len() as int,
                        ));
                    },
                    LayoutItem::Constraint(_) => {
                        assert(false);
                    },
                }
            },
        }
    }
}

/// The widget list and the rectangle list line up: a configured layout has
/// exactly as many widget slots as its converted layout tree has constraint
/// leaves, so — with the layout engine emitting one rectangle per leaf —
/// the host's zip of slots with rectangles pairs them one to one, in order.
pub proof fn lemma_layout_converts_leaf_count(cfg: ConfigLayout, l: Layout)
    requires
        layout_converts(cfg, l),
    ensures
        spec_flatten_layout(cfg).len() == crate::layout::leaf_count(l),
{
    match cfg {
        ConfigLayout::Layout { direction, items } => {
            match l {
                Layout::Horizontal(lis) => {
                    lemma_items_convert_leaves(items, lis, items@.len() as int);
                },
                Layout::Vertical(lis) => {
                    lemma_items_convert_leaves(items, lis, items@.len() as int);
                },
            }
        },
    }
}

} // verus!
