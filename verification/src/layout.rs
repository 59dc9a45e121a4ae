//! Layout engine: a recursive constraint solver that turns a nested
//! horizontal/vertical tree of sizing constraints into concrete screen
//! rectangles, one per constraint leaf, in depth-first left-to-right order.
//!
//! Sizing happens per node in two passes over the node's items along the
//! major axis (width for horizontal nodes, height for vertical ones):
//! fixed and percentage constraints consume budget immediately; flex
//! constraints and nested layouts share whatever remains in proportion to
//! their weights (a nested layout weighs 1), each getting at least one
//! cell, with the rounding leftover spread one cell each over the trailing
//! flex items. The cross axis is always the node's full extent.

use vstd::prelude::*;

use crate::rect::Rect;

verus! {

broadcast use vstd::std_specs::vec::axiom_vec_index_decreases;

/// Sizing rule for one slot of a layout node.
///
/// `Min` and `Max` are part of the data model but deliberately resolve to
/// zero-size placeholders for now; they are an explicit stub, not a
/// supported constraint.
#[derive(Debug, Clone, Copy, PartialEq, Eq, Structural)]
pub enum Constraint {
    /// Fixed size in character cells.
    Fixed(u16),
    /// Proportional share of the leftover space, by weight.
    Flex(u16),
    /// Percentage of the node's full extent, clamped to 0..=100.
    Percentage(u16),
    /// Minimum size (currently a zero-size placeholder).
    Min(u16),
    /// Maximum size (currently a zero-size placeholder).
    Max(u16),
}

/// One slot of a layout node: either a widget leaf with a constraint or a
/// nested layout expanded in place.
#[derive(Debug)]
pub enum LayoutItem {
    /// Leaf: an area for one widget, sized by the constraint.
    Constraint(Constraint),
    /// Branch: a nested layout that splits this slot further.
    Nested(Layout),
}

/// A layout node: a horizontal or vertical split over an ordered item list.
#[derive(Debug)]
pub enum Layout {
    /// Split the area left to right.
    Horizontal(Vec<LayoutItem>),
    /// Split the area top to bottom.
    Vertical(Vec<LayoutItem>),
}

/// Smaller of two mathematical integers.
pub open spec fn imin(a: int, b: int) -> int {
    if a < b {
        a
    } else {
        b
    }
}

/// Clamp a percentage to at most 100.
pub open spec fn clamp100(p: int) -> int {
    if p > 100 {
        100
    } else {
        p
    }
}

/// Raise a share to the one-cell minimum every flex item is owed.
pub open spec fn imax1(x: int) -> int {
    if x < 1 {
        1
    } else {
        x
    }
}

/// Addition on the major axis saturates at the largest cell coordinate.
pub open spec fn sat_add16(a: int, b: int) -> int {
    if a + b > 65535 {
        65535
    } else {
        a + b
    }
}

/// Whether an item takes part in the flex distribution of leftover space.
pub open spec fn is_flex_item(it: LayoutItem) -> bool {
    match it {
        LayoutItem::Constraint(c) => c is Flex,
        LayoutItem::Nested(_) => true,
    }
}

/// Weight of an item in the flex distribution; a nested layout weighs 1.
pub open spec fn item_weight(it: LayoutItem) -> int {
    match it {
        LayoutItem::Constraint(c) => match c {
            Constraint::Flex(w) => w as int,
            _ => 0,
        },
        LayoutItem::Nested(_) => 1,
    }
}

/// Size the first pass allocates to one item out of the remaining budget:
/// fixed and percentage constraints consume space, everything else is a
/// zero placeholder.
pub open spec fn pass1_size(it: LayoutItem, total: int, remaining: int) -> int {
    match it {
        LayoutItem::Constraint(c) => match c {
            Constraint::Fixed(n) => imin(n as int, remaining),
            Constraint::Percentage(p) => imin(total * clamp100(p as int) / 100, remaining),
            _ => 0,
        },
        LayoutItem::Nested(_) => 0,
    }
}

/// Budget still unconsumed after the first pass has visited the first `n`
/// items.
pub open spec fn rem_after(items: Seq<LayoutItem>, total: int, n: int) -> int
    decreases n,
{
    if n <= 0 {
        total
    } else {
        rem_after(items, total, n - 1) - pass1_size(
            items[n - 1],
            total,
            rem_after(items, total, n - 1),
        )
    }
}

/// Size the first pass records for the item at position `i`.
pub open spec fn pass1_at(items: Seq<LayoutItem>, total: int, i: int) -> int {
    pass1_size(items[i], total, rem_after(items, total, i))
}

/// Sum of the flex weights of the first `n` items.
pub open spec fn weight_prefix(items: Seq<LayoutItem>, n: int) -> int
    decreases n,
{
    if n <= 0 {
        0
    } else {
        weight_prefix(items, n - 1) + item_weight(items[n - 1])
    }
}

/// Sum of all flex weights of a node's items.
pub open spec fn total_weight(items: Seq<LayoutItem>) -> int {
    weight_prefix(items, items.len() as int)
}

/// How many of the first `n` items take part in the flex distribution.
pub open spec fn flex_prefix(items: Seq<LayoutItem>, n: int) -> int
    decreases n,
{
    if n <= 0 {
        0
    } else {
        flex_prefix(items, n - 1) + if is_flex_item(items[n - 1]) {
            1int
        } else {
            0int
        }
    }
}

/// How many items of a node take part in the flex distribution.
pub open spec fn flex_count(items: Seq<LayoutItem>) -> int {
    flex_prefix(items, items.len() as int)
}

/// Budget left over once the first pass has visited every item.
pub open spec fn final_rem(items: Seq<LayoutItem>, total: int) -> int {
    rem_after(items, total, items.len() as int)
}

/// Floor share of the leftover budget a flex item receives, at least one
/// cell; zero for items that do not flex.
pub open spec fn floor_size(it: LayoutItem, rem: int, tw: int) -> int {
    if is_flex_item(it) {
        imax1(rem * item_weight(it) / tw)
    } else {
        0
    }
}

/// Sum of the floor shares of the first `n` items.
pub open spec fn dist_prefix(items: Seq<LayoutItem>, rem: int, tw: int, n: int) -> int
    decreases n,
{
    if n <= 0 {
        0
    } else {
        dist_prefix(items, rem, tw, n - 1) + floor_size(items[n - 1], rem, tw)
    }
}

/// Total budget handed out by the floor shares.
pub open spec fn distributed(items: Seq<LayoutItem>, rem: int, tw: int) -> int {
    dist_prefix(items, rem, tw, items.len() as int)
}

/// Whether the second pass runs at all: there is a flex item, budget is
/// left, and the weights are not all zero.
pub open spec fn second_pass_on(items: Seq<LayoutItem>, total: int) -> bool {
    flex_count(items) > 0 && final_rem(items, total) > 0 && total_weight(items) > 0
}

/// Rounding leftover after the floor shares, spread over the trailing flex
/// items; zero when the one-cell minimum already overshot the budget.
pub open spec fn leftover(items: Seq<LayoutItem>, total: int) -> int {
    let rem = final_rem(items, total);
    let d = distributed(items, rem, total_weight(items));
    if d < rem {
        rem - d
    } else {
        0
    }
}

/// How many flex items sit strictly after position `i`.
pub open spec fn flex_after(items: Seq<LayoutItem>, i: int) -> int {
    flex_count(items) - flex_prefix(items, i + 1)
}

/// Final major-axis size of the item at position `i`: its floor share plus
/// one leftover cell for the trailing flex items, or its first-pass size if
/// it does not flex.
pub open spec fn split_size_at(items: Seq<LayoutItem>, total: int, i: int) -> int {
    if second_pass_on(items, total) && is_flex_item(items[i]) {
        floor_size(items[i], final_rem(items, total), total_weight(items)) + if flex_after(items, i)
            < leftover(items, total) {
            1int
        } else {
            0int
        }
    } else {
        pass1_at(items, total, i)
    }
}

/// Sum of the final sizes of the first `n` items: the running offset of the
/// item at position `n`.
pub open spec fn size_sum(items: Seq<LayoutItem>, total: int, n: int) -> int
    decreases n,
{
    if n <= 0 {
        0
    } else {
        size_sum(items, total, n - 1) + split_size_at(items, total, n - 1)
    }
}

/// The first pass never hands out more than it has: the remaining budget
/// stays between zero and the node's extent.
pub proof fn lemma_rem_bounds(items: Seq<LayoutItem>, total: int, n: int)
    requires
        total >= 0,
    ensures
        0 <= rem_after(items, total, n) <= total,
    decreases n,
{
    if n > 0 {
        lemma_rem_bounds(items, total, n - 1);
        let rem = rem_after(items, total, n - 1);
        let s = pass1_size(items[n - 1], total, rem);
        assert(0 <= s <= rem) by {
            match items[n - 1] {
                LayoutItem::Constraint(c) => match c {
                    Constraint::Percentage(p) => {
                        assert(total * clamp100(p as int) >= 0) by (nonlinear_arith)
                            requires
                                total >= 0,
                                clamp100(p as int) >= 0,
                        ;
                        assert(total * clamp100(p as int) / 100 >= 0);
                    },
                    _ => {},
                },
                LayoutItem::Nested(_) => {},
            }
        };
    }
}

/// Flex weights are single cells or better, so every prefix sum is
/// monotone, and no item outweighs the node's total.
pub proof fn lemma_weight_prefix_bounds(items: Seq<LayoutItem>, m: int, n: int)
    requires
        m <= n,
    ensures
        weight_prefix(items, m) <= weight_prefix(items, n),
    decreases n,
{
    if n > 0 && m <= n - 1 {
        lemma_weight_prefix_bounds(items, m, n - 1);
    }
}

/// An item's own weight never exceeds the sum of all weights.
pub proof fn lemma_item_weight_le_total(items: Seq<LayoutItem>, i: int)
    requires
        0 <= i < items.len(),
    ensures
        item_weight(items[i]) <= total_weight(items),
        item_weight(items[i]) >= 0,
{
    lemma_weight_prefix_bounds(items, 0, i);
    lemma_weight_prefix_bounds(items, i + 1, items.len() as int);
    assert(weight_prefix(items, i + 1) == weight_prefix(items, i) + item_weight(items[i]));
    lemma_weight_prefix_bounds(items, 0, i);
}

/// A floor share never exceeds the leftover budget it is carved from.
pub proof fn lemma_floor_le_rem(items: Seq<LayoutItem>, i: int, rem: int, tw: int)
    requires
        0 <= i < items.len(),
        rem >= 1,
        tw > 0,
        item_weight(items[i]) <= tw,
        item_weight(items[i]) >= 0,
    ensures
        0 <= floor_size(items[i], rem, tw) <= rem,
{
    if is_flex_item(items[i]) {
        let w = item_weight(items[i]);
        assert(rem * w / tw <= rem) by (nonlinear_arith)
            requires
                rem >= 1,
                tw > 0,
                0 <= w <= tw,
        ;
    }
}

/// Floor shares are never negative: a flex item gets its one-cell minimum,
/// anything else gets zero.
pub proof fn lemma_floor_nonneg(it: LayoutItem, rem: int, tw: int)
    ensures
        floor_size(it, rem, tw) >= 0,
{
}

/// Prefix sums of floor shares are monotone.
pub proof fn lemma_dist_prefix_bounds(items: Seq<LayoutItem>, rem: int, tw: int, m: int, n: int)
    requires
        m <= n,
    ensures
        dist_prefix(items, rem, tw, m) <= dist_prefix(items, rem, tw, n),
    decreases n,
{
    if n > 0 && m <= n - 1 {
        lemma_dist_prefix_bounds(items, rem, tw, m, n - 1);
        lemma_floor_nonneg(items[n - 1], rem, tw);
    }
}

/// The whole distribution is at least any one item's floor share.
pub proof fn lemma_dist_ge_floor(items: Seq<LayoutItem>, rem: int, tw: int, i: int)
    requires
        0 <= i < items.len(),
    ensures
        distributed(items, rem, tw) >= floor_size(items[i], rem, tw),
{
    lemma_dist_prefix_bounds(items, rem, tw, 0, i);
    lemma_dist_prefix_bounds(items, rem, tw, i + 1, items.len() as int);
    assert(dist_prefix(items, rem, tw, i + 1) == dist_prefix(items, rem, tw, i) + floor_size(
        items[i],
        rem,
        tw,
    ));
}

/// Counting flex items over a longer prefix never counts fewer.
pub proof fn lemma_flex_prefix_mono(items: Seq<LayoutItem>, m: int, n: int)
    requires
        m <= n,
    ensures
        flex_prefix(items, m) <= flex_prefix(items, n),
    decreases n,
{
    if n > 0 && m <= n - 1 {
        lemma_flex_prefix_mono(items, m, n - 1);
    }
}

/// Whether an item takes part in the flex distribution.
fn flex_item(it: &LayoutItem) -> (b: bool)
    ensures
        b == is_flex_item(*it),
{
    match it {
        LayoutItem::Constraint(c) => matches!(c, Constraint::Flex(_)),
        LayoutItem::Nested(_) => true,
    }
}

/// Weight of an item in the flex distribution.
fn weight_of(it: &LayoutItem) -> (w: u16)
    ensures
        w as int == item_weight(*it),
{
    match it {
        LayoutItem::Constraint(c) => match c {
            Constraint::Flex(wt) => *wt,
            _ => 0,
        },
        LayoutItem::Nested(_) => 1,
    }
}

/// Add two cell coordinates, stopping at the largest representable one.
fn sat_add_u16(a: u16, b: u16) -> (r: u16)
    ensures
        r as int == sat_add16(a as int, b as int),
{
    let s: u32 = a as u32 + b as u32;
    if s > 65535 {
        65535
    } else {
        s as u16
    }
}

/// Major-axis sizes for one node's items over a budget of `total` cells:
/// the two-pass allocation the module documentation describes, as one size
/// per item (zero for the slot a nested layout will split further — its
/// size stands at the same index).
fn split_sizes(total: u16, items: &Vec<LayoutItem>) -> (r: Vec<u16>)
    ensures
        r@.len() == items@.len(),
        forall|i: int|
            0 <= i < items@.len() ==> r@[i] as int == split_size_at(items@, total as int, i),
{
    let ghost gitems = items@;
    let ghost gtotal = total as int;
    let n = items.len();
    let mut sizes: Vec<u16> = Vec::new();
    let mut remaining: u16 = total;
    let mut flex_cnt: usize = 0;
    let mut idx: usize = 0;
    while idx < n
        invariant
            gitems == items@,
            gtotal == total as int,
            n == gitems.len(),
            idx <= n,
            sizes@.len() == idx,
            remaining as int == rem_after(gitems, gtotal, idx as int),
            flex_cnt as int == flex_prefix(gitems, idx as int),
            flex_cnt <= idx,
            forall|j: int| 0 <= j < idx ==> sizes@[j] as int == pass1_at(gitems, gtotal, j),
        decreases n - idx,
    {
        proof {
            lemma_rem_bounds(gitems, gtotal, idx as int);
        }
        match &items[idx] {
            LayoutItem::Constraint(c) => match c {
                Constraint::Fixed(sz) => {
                    let alloc: u16 = if *sz < remaining {
                        *sz
                    } else {
                        remaining
                    };
                    sizes.push(alloc);
                    remaining = remaining - alloc;
                },
                Constraint::Percentage(p) => {
                    let pc: u16 = if *p > 100 {
                        100
                    } else {
                        *p
                    };
                    assert((total as int) * (pc as int) <= 65535 * 100) by (nonlinear_arith)
                        requires
                            0 <= total <= 65535,
                            0 <= pc <= 100,
                    ;
                    let raw: u32 = total as u32 * pc as u32 / 100;
                    let alloc: u16 = if raw < remaining as u32 {
                        raw as u16
                    } else {
                        remaining
                    };
                    sizes.push(alloc);
                    remaining = remaining - alloc;
                },
                Constraint::Flex(_) => {
                    sizes.push(0);
                    flex_cnt = flex_cnt + 1;
                },
                Constraint::Min(_) | Constraint::Max(_) => {
                    sizes.push(0);
                },
            },
            LayoutItem::Nested(_) => {
                sizes.push(0);
                flex_cnt = flex_cnt + 1;
            },
        }
        idx = idx + 1;
    }
    proof {
        lemma_rem_bounds(gitems, gtotal, n as int);
    }
    if flex_cnt > 0 && remaining > 0 {
        let ghost grem = remaining as int;
        let mut tw: u128 = 0;
        let mut k: usize = 0;
        while k < n
            invariant
                gitems == items@,
                n == gitems.len(),
                k <= n,
                tw as int == weight_prefix(gitems, k as int),
                tw as int <= 65535 * (k as int),
            decreases n - k,
        {
            let w = weight_of(&items[k]);
            tw = tw + w as u128;
            k = k + 1;
        }
        if tw > 0 {
            let ghost gtw = tw as int;
            // Floor shares.
            let mut dist: u128 = 0;
            let mut k2: usize = 0;
            while k2 < n
                invariant
                    gitems == items@,
                    gtotal == total as int,
                    n == gitems.len(),
                    k2 <= n,
                    remaining as int == grem,
                    1 <= grem <= 65535,
                    grem == final_rem(gitems, gtotal),
                    gtw == total_weight(gitems),
                    gtw > 0,
                    tw as int == gtw,
                    sizes@.len() == n,
                    dist as int == dist_prefix(gitems, grem, gtw, k2 as int),
                    dist as int <= 65535 * (k2 as int),
                    forall|j: int|
                        k2 <= j < n ==> sizes@[j] as int == pass1_at(gitems, gtotal, j),
                    forall|j: int|
                        0 <= j < k2 ==> sizes@[j] as int == if is_flex_item(gitems[j]) {
                            floor_size(gitems[j], grem, gtw)
                        } else {
                            pass1_at(gitems, gtotal, j)
                        },
                decreases n - k2,
            {
                if flex_item(&items[k2]) {
                    let w = weight_of(&items[k2]);
                    proof {
                        lemma_item_weight_le_total(gitems, k2 as int);
                        lemma_floor_le_rem(gitems, k2 as int, grem, gtw);
                    }
                    assert((remaining as int) * (w as int) <= 65535 * 65535) by (nonlinear_arith)
                        requires
                            0 <= remaining <= 65535,
                            0 <= w <= 65535,
                    ;
                    let raw: u128 = remaining as u128 * w as u128 / tw;
                    let fl: u128 = if raw < 1 {
                        1
                    } else {
                        raw
                    };
                    let fl16: u16 = fl as u16;
                    sizes[k2] = fl16;
                    dist = dist + fl;
                } else {
                    proof {
                        lemma_floor_nonneg(gitems[k2 as int], grem, gtw);
                    }
                }
                k2 = k2 + 1;
            }
            // Spread the rounding leftover over the trailing flex items.
            let left: u16 = if dist < remaining as u128 {
                remaining - dist as u16
            } else {
                0
            };
            let ghost gleft = left as int;
            proof {
                assert(gleft == leftover(gitems, gtotal));
            }
            let mut seen: usize = 0;
            let mut k3: usize = 0;
            while k3 < n
                invariant
                    gitems == items@,
                    gtotal == total as int,
                    n == gitems.len(),
                    k3 <= n,
                    remaining as int == grem,
                    1 <= grem <= 65535,
                    grem == final_rem(gitems, gtotal),
                    gtw == total_weight(gitems),
                    gtw > 0,
                    gleft == leftover(gitems, gtotal),
                    left as int == gleft,
                    flex_cnt as int == flex_count(gitems),
                    seen as int == flex_prefix(gitems, k3 as int),
                    seen <= flex_cnt,
                    second_pass_on(gitems, gtotal),
                    sizes@.len() == n,
                    forall|j: int|
                        0 <= j < k3 ==> sizes@[j] as int == split_size_at(gitems, gtotal, j),
                    forall|j: int|
                        k3 <= j < n ==> sizes@[j] as int == if is_flex_item(gitems[j]) {
                            floor_size(gitems[j], grem, gtw)
                        } else {
                            pass1_at(gitems, gtotal, j)
                        },
                decreases n - k3,
            {
                proof {
                    lemma_flex_prefix_mono(gitems, k3 as int + 1, n as int);
                }
                if flex_item(&items[k3]) {
                    seen = seen + 1;
                    if flex_cnt - seen < left as usize {
                        proof {
                            lemma_item_weight_le_total(gitems, k3 as int);
                            lemma_floor_le_rem(gitems, k3 as int, grem, gtw);
                            lemma_dist_ge_floor(gitems, grem, gtw, k3 as int);
                        }
                        let bumped: u16 = sizes[k3] + 1;
                        sizes[k3] = bumped;
                    }
                }
                k3 = k3 + 1;
            }
            return sizes;
        }
    }
    proof {
        assert(!second_pass_on(gitems, gtotal));
    }
    sizes
}

/// Rectangle the item at position `i` of a horizontal node receives: the
/// running offset and final size along the x axis, the node's full extent
/// on the y axis.
pub open spec fn spec_h_rect_at(items: Seq<LayoutItem>, area: Rect, i: int) -> Rect {
    Rect {
        x: sat_add16(area.x as int, size_sum(items, area.width as int, i)) as u16,
        y: area.y,
        width: split_size_at(items, area.width as int, i) as u16,
        height: area.height,
    }
}

/// Rectangle the item at position `i` of a vertical node receives.
pub open spec fn spec_v_rect_at(items: Seq<LayoutItem>, area: Rect, i: int) -> Rect {
    Rect {
        x: area.x,
        y: sat_add16(area.y as int, size_sum(items, area.height as int, i)) as u16,
        width: area.width,
        height: split_size_at(items, area.height as int, i) as u16,
    }
}

/// Rectangles a horizontal node assigns to its items, one per item, nested
/// slots included.
fn split_horizontal(area: Rect, items: &Vec<LayoutItem>) -> (r: Vec<Rect>)
    ensures
        r@.len() == items@.len(),
        forall|i: int| 0 <= i < items@.len() ==> r@[i] == spec_h_rect_at(items@, area, i),
{
    let ghost gitems = items@;
    let ghost gw = area.width as int;
    let sizes = split_sizes(area.width, items);
    let mut rects: Vec<Rect> = Vec::new();
    let mut cur: u16 = area.x;
    let mut k: usize = 0;
    while k < items.len()
        invariant
            gitems == items@,
            gw == area.width as int,
            sizes@.len() == gitems.len(),
            forall|j: int| 0 <= j < gitems.len() ==> sizes@[j] as int == split_size_at(gitems, gw, j),
            k <= gitems.len(),
            rects@.len() == k,
            size_sum(gitems, gw, k as int) >= 0,
            cur as int == sat_add16(area.x as int, size_sum(gitems, gw, k as int)),
            forall|j: int| 0 <= j < k ==> rects@[j] == spec_h_rect_at(gitems, area, j),
        decreases gitems.len() - k,
    {
        let w = sizes[k];
        rects.push(
            Rect {
                x: cur,
                y: area.y,
                width: w,
                height: area.height,
            },
        );
        cur = sat_add_u16(cur, w);
        k = k + 1;
    }
    rects
}

/// Rectangles a vertical node assigns to its items.
fn split_vertical(area: Rect, items: &Vec<LayoutItem>) -> (r: Vec<Rect>)
    ensures
        r@.len() == items@.len(),
        forall|i: int| 0 <= i < items@.len() ==> r@[i] == spec_v_rect_at(items@, area, i),
{
    let ghost gitems = items@;
    let ghost gh = area.height as int;
    let sizes = split_sizes(area.height, items);
    let mut rects: Vec<Rect> = Vec::new();
    let mut cur: u16 = area.y;
    let mut k: usize = 0;
    while k < items.len()
        invariant
            gitems == items@,
            gh == area.height as int,
            sizes@.len() == gitems.len(),
            forall|j: int| 0 <= j < gitems.len() ==> sizes@[j] as int == split_size_at(gitems, gh, j),
            k <= gitems.len(),
            rects@.len() == k,
            size_sum(gitems, gh, k as int) >= 0,
            cur as int == sat_add16(area.y as int, size_sum(gitems, gh, k as int)),
            forall|j: int| 0 <= j < k ==> rects@[j] == spec_v_rect_at(gitems, area, j),
        decreases gitems.len() - k,
    {
        let h = sizes[k];
        rects.push(
            Rect {
                x: area.x,
                y: cur,
                width: area.width,
                height: h,
            },
        );
        cur = sat_add_u16(cur, h);
        k = k + 1;
    }
    rects
}

/// Nesting depth of one item: leaves are flat, a nested layout carries its
/// own height.
pub open spec fn item_height(it: LayoutItem) -> nat
    decreases it, 0int,
{
    match it {
        LayoutItem::Constraint(_) => 0,
        LayoutItem::Nested(l) => layout_height(l),
    }
}

/// Largest nesting depth among the first `n` items.
pub open spec fn items_height(items: Vec<LayoutItem>, n: int) -> nat
    decreases items, n,
{
    if n <= 0 || n > items.len() {
        0
    } else {
        let rest = items_height(items, n - 1);
        let here = item_height(items[n - 1]);
        if rest > here {
            rest
        } else {
            here
        }
    }
}

/// Nesting depth of a layout tree, the termination measure of the
/// depth-first traversal.
pub open spec fn layout_height(l: Layout) -> nat
    decreases l, 1int,
{
    match l {
        Layout::Horizontal(items) => items_height(items, items.len() as int) + 1,
        Layout::Vertical(items) => items_height(items, items.len() as int) + 1,
    }
}

/// The height of a node covers the height of each of its items.
pub proof fn lemma_items_height_ge(items: Vec<LayoutItem>, n: int, j: int)
    requires
        0 <= j < n <= items.len(),
    ensures
        items_height(items, n) >= item_height(items[j]),
    decreases n,
{
    if j < n - 1 {
        lemma_items_height_ge(items, n - 1, j);
    }
}

/// Leaf rectangles one item contributes to the flattened output: its own
/// slot for a constraint leaf, the recursive result for a nested layout.
pub open spec fn item_rects(it: LayoutItem, r: Rect) -> Seq<Rect>
    decreases it, 0int,
{
    match it {
        LayoutItem::Constraint(_) => seq![r],
        LayoutItem::Nested(l) => spec_calculate(l, r),
    }
}

/// Leaf rectangles the first `n` items contribute, given the slot
/// rectangles of the node.
pub open spec fn calc_prefix(items: Vec<LayoutItem>, rects: Seq<Rect>, n: int) -> Seq<Rect>
    decreases items, n,
{
    if n <= 0 || n > items.len() {
        Seq::empty()
    } else {
        calc_prefix(items, rects, n - 1) + item_rects(items[n - 1], rects[n - 1])
    }
}

/// The flattened leaf rectangles of a layout over an area: one rectangle
/// per constraint leaf, depth first, left to right, nested layouts expanded
/// in place.
pub open spec fn spec_calculate(l: Layout, area: Rect) -> Seq<Rect>
    decreases l, 0int,
{
    match l {
        Layout::Horizontal(items) => calc_prefix(
            items,
            Seq::new(items@.len(), |i: int| spec_h_rect_at(items@, area, i)),
            items@.len() as int,
        ),
        Layout::Vertical(items) => calc_prefix(
            items,
            Seq::new(items@.len(), |i: int| spec_v_rect_at(items@, area, i)),
            items@.len() as int,
        ),
    }
}

impl LayoutItem {
    /// A leaf slot for one widget, sized by `constraint`.
    pub fn widget(constraint: Constraint) -> (r: Self)
        ensures
            r == LayoutItem::Constraint(constraint),
    {
        LayoutItem::Constraint(constraint)
    }

    /// A slot holding a nested layout.
    pub fn nested(layout: Layout) -> (r: Self)
        ensures
            r == LayoutItem::Nested(layout),
    {
        LayoutItem::Nested(layout)
    }
}

impl Layout {
    /// A horizontal split over the given items.
    pub fn horizontal(items: Vec<LayoutItem>) -> (r: Self)
        ensures
            r == Layout::Horizontal(items),
    {
        Layout::Horizontal(items)
    }

    /// A vertical split over the given items.
    pub fn vertical(items: Vec<LayoutItem>) -> (r: Self)
        ensures
            r == Layout::Vertical(items),
    {
        Layout::Vertical(items)
    }

    /// Concrete screen areas for every constraint leaf of this layout, in
    /// depth-first left-to-right order, so that the caller can zip them
    /// with its ordered widget list.
    pub fn calculate(&self, area: Rect) -> (r: Vec<Rect>)
        ensures
            r@ == spec_calculate(*self, area),
    {
        let mut result: Vec<Rect> = Vec::new();
        self.calculate_recursive(area, &mut result);
        result
    }

    /// Depth-first traversal appending this layout's leaf rectangles to
    /// `output`.
    fn calculate_recursive(&self, area: Rect, output: &mut Vec<Rect>)
        ensures
            final(output)@ == old(output)@ + spec_calculate(*self, area),
        decreases layout_height(*self),
    {
        match self {
            Layout::Horizontal(items) => {
                let ghost gitems = items@;
                let ghost slots = Seq::new(
                    gitems.len(),
                    |i: int| spec_h_rect_at(gitems, area, i),
                );
                let rects = split_horizontal(area, items);
                proof {
                    assert(rects@ =~= slots);
                }
                let mut k: usize = 0;
                while k < items.len()
                    invariant
                        *self == Layout::Horizontal(*items),
                        gitems == items@,
                        slots == Seq::new(gitems.len(), |i: int| spec_h_rect_at(gitems, area, i)),
                        rects@ == slots,
                        rects@.len() == gitems.len(),
                        k <= gitems.len(),
                        output@ == old(output)@ + calc_prefix(*items, slots, k as int),
                    decreases gitems.len() - k,
                {
                    match &items[k] {
                        LayoutItem::Constraint(_) => {
                            output.push(rects[k]);
                            proof {
                                assert(item_rects(gitems[k as int], slots[k as int]) =~= seq![
                                    slots[k as int],
                                ]);
                                assert(output@ =~= old(output)@ + calc_prefix(
                                    *items,
                                    slots,
                                    k as int + 1,
                                ));
                            }
                        },
                        LayoutItem::Nested(nested) => {
                            proof {
                                assert(gitems[k as int] == LayoutItem::Nested(*nested));
                                lemma_items_height_ge(*items, gitems.len() as int, k as int);
                                assert(layout_height(*nested) < layout_height(*self));
                            }
                            nested.calculate_recursive(rects[k], output);
                            proof {
                                assert(item_rects(gitems[k as int], slots[k as int])
                                    == spec_calculate(*nested, slots[k as int]));
                                assert(output@ =~= old(output)@ + calc_prefix(
                                    *items,
                                    slots,
                                    k as int + 1,
                                ));
                            }
                        },
                    }
                    k = k + 1;
                }
            },
            Layout::Vertical(items) => {
                let ghost gitems = items@;
                let ghost slots = Seq::new(
                    gitems.len(),
                    |i: int| spec_v_rect_at(gitems, area, i),
                );
                let rects = split_vertical(area, items);
                proof {
                    assert(rects@ =~= slots);
                }
                let mut k: usize = 0;
                while k < items.len()
                    invariant
                        *self == Layout::Vertical(*items),
                        gitems == items@,
                        slots == Seq::new(gitems.len(), |i: int| spec_v_rect_at(gitems, area, i)),
                        rects@ == slots,
                        rects@.len() == gitems.len(),
                        k <= gitems.len(),
                        output@ == old(output)@ + calc_prefix(*items, slots, k as int),
                    decreases gitems.len() - k,
                {
                    match &items[k] {
                        LayoutItem::Constraint(_) => {
                            output.push(rects[k]);
                            proof {
                                assert(item_rects(gitems[k as int], slots[k as int]) =~= seq![
                                    slots[k as int],
                                ]);
                                assert(output@ =~= old(output)@ + calc_prefix(
                                    *items,
                                    slots,
                                    k as int + 1,
                                ));
                            }
                        },
                        LayoutItem::Nested(nested) => {
                            proof {
                                assert(gitems[k as int] == LayoutItem::Nested(*nested));
                                lemma_items_height_ge(*items, gitems.len() as int, k as int);
                                assert(layout_height(*nested) < layout_height(*self));
                            }
                            nested.calculate_recursive(rects[k], output);
                            proof {
                                assert(item_rects(gitems[k as int], slots[k as int])
                                    == spec_calculate(*nested, slots[k as int]));
                                assert(output@ =~= old(output)@ + calc_prefix(
                                    *items,
                                    slots,
                                    k as int + 1,
                                ));
                            }
                        },
                    }
                    k = k + 1;
                }
            },
        }
    }
}

/// How many constraint leaves one item contributes to the flattened output.
pub open spec fn item_leaves(it: LayoutItem) -> nat
    decreases it, 0int,
{
    match it {
        LayoutItem::Constraint(_) => 1,
        LayoutItem::Nested(l) => leaf_count(l),
    }
}

/// Constraint leaves among the first `n` items of a node.
pub open spec fn leaves_prefix(items: Vec<LayoutItem>, n: int) -> nat
    decreases items, n,
{
    if n <= 0 || n > items.len() {
        0
    } else {
        leaves_prefix(items, n - 1) + item_leaves(items[n - 1])
    }
}

/// Constraint leaves of a whole layout tree, in other words how many
/// widgets the tree lays out.
pub open spec fn leaf_count(l: Layout) -> nat
    decreases l, 1int,
{
    match l {
        Layout::Horizontal(items) => leaves_prefix(items, items.len() as int),
        Layout::Vertical(items) => leaves_prefix(items, items.len() as int),
    }
}

/// The first `n` items contribute exactly their leaf count in rectangles.
proof fn lemma_calc_prefix_len(items: Vec<LayoutItem>, rects: Seq<Rect>, n: int)
    requires
        0 <= n <= items@.len(),
    ensures
        calc_prefix(items, rects, n).len() == leaves_prefix(items, n),
    decreases items_height(items, items@.len() as int), n,
{
    if n > 0 {
        lemma_calc_prefix_len(items, rects, n - 1);
        let it = items@[n - 1];
        match it {
            LayoutItem::Constraint(_) => {
                assert(item_rects(it, rects[n - 1]) =~= seq![rects[n - 1]]);
                assert(item_leaves(it) == 1);
            },
            LayoutItem::Nested(inner) => {
                lemma_items_height_ge(items, items@.len() as int, n - 1);
                lemma_calculate_leaf_count(inner, rects[n - 1]);
                assert(item_rects(it, rects[n - 1]) == spec_calculate(inner, rects[n - 1]));
                assert(item_leaves(it) == leaf_count(inner));
            },
        }
    }
}

/// The layout engine emits exactly one rectangle per constraint leaf: the
/// flattened output corresponds one to one, and in order, with the ordered
/// widget list the host zips it with.
pub proof fn lemma_calculate_leaf_count(l: Layout, area: Rect)
    ensures
        spec_calculate(l, area).len() == leaf_count(l),
    decreases layout_height(l), 0int,
{
    match l {
        Layout::Horizontal(items) => {
            lemma_calc_prefix_len(
                items,
                Seq::new(items@.len(), |i: int| spec_h_rect_at(items@, area, i)),
                items@.len() as int,
            );
        },
        Layout::Vertical(items) => {
            lemma_calc_prefix_len(
                items,
                Seq::new(items@.len(), |i: int| spec_v_rect_at(items@, area, i)),
                items@.len() as int,
            );
        },
    }
}

} // verus!
