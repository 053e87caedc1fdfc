//! Size allocation along one axis of a container.
//!
//! A child constrained `Minimum` with a positive minimum keeps exactly its
//! minimum; a `Minimum` child with a zero minimum may be squeezed to zero;
//! `Maximum` children share what is left equally on top of their own minimum,
//! and one whose share would pass its positive maximum is pinned to that
//! maximum, after which the rest is shared again among the others.
use vstd::prelude::*;

use crate::component::{
    blank_view, lemma_view_child, view_of, ComponentBase, ComponentView, Widget, WidgetView,
};

verus! {

/// How a child takes part in its parent's layout along one axis.
#[derive(Debug, Clone, Copy, PartialEq, Eq, Structural)]
pub enum Constraintable {
    Unconstrained,
    Minimum,
    Maximum,
}

/// The axis along which a container places its children.
#[derive(Debug, Clone, Copy, PartialEq, Eq, Structural)]
pub enum Direction {
    Vertical,
    Horizontal,
}

/// Largest width, height, minimum or maximum that layout works with.
/// Together with `CHILD_LIMIT` it keeps every sum the allocation forms (of
/// the children's minimums, of the pinned sizes, of the positions) and every
/// difference with the parent's size within `i32`: their product is `2^30`.
pub const EXTENT_LIMIT: i32 = 1048576;

/// Largest number of children that one container lays out.
pub const CHILD_LIMIT: usize = 1024;

/// One child as seen by the allocation along one axis.
#[derive(Debug, Clone, Copy, PartialEq, Eq, Structural)]
pub struct AxisItem {
    pub constraint: Constraintable,
    pub min: i32,
    pub max: i32,
}

pub open spec fn is_maximum(it: AxisItem) -> bool {
    it.constraint == Constraintable::Maximum
}

/// `Minimum` with a positive minimum: its size is protected.
pub open spec fn is_fixed(it: AxisItem) -> bool {
    it.constraint == Constraintable::Minimum && it.min > 0
}

/// `Minimum` with a zero (or lower) minimum: it may be squeezed to nothing.
pub open spec fn is_squeezable(it: AxisItem) -> bool {
    it.constraint == Constraintable::Minimum && it.min <= 0
}

pub open spec fn is_constrained(it: AxisItem) -> bool {
    it.constraint != Constraintable::Unconstrained
}

/// Limits of one child: minimum and maximum within the extent limit, and the
/// minimum not negative for a `Maximum` child, as it is the base of its share.
pub open spec fn item_ok(it: AxisItem) -> bool {
    &&& -EXTENT_LIMIT <= it.min <= EXTENT_LIMIT
    &&& -EXTENT_LIMIT <= it.max <= EXTENT_LIMIT
    &&& is_maximum(it) ==> 0 <= it.min
}

/// Every `Maximum` child outside `open` has a positive maximum: only
/// children that pass their maximum are pinned to it.
pub open spec fn pinned_ok(items: Seq<AxisItem>, open: Seq<bool>) -> bool {
    forall|j: int| 0 <= j < items.len() && is_maximum(#[trigger] items[j]) && !open[j] ==> items[j].max > 0
}

/// The inputs the allocation accepts: limits and extents in range.
pub open spec fn items_fit(items: Seq<AxisItem>, parent: int) -> bool {
    &&& items.len() <= CHILD_LIMIT
    &&& -EXTENT_LIMIT <= parent <= EXTENT_LIMIT
    &&& forall|j: int| 0 <= j < items.len() ==> #[trigger] item_ok(items[j])
}

/// Sum of the minimums of the protected `Minimum` children among the first `k`.
pub open spec fn fixed_total(items: Seq<AxisItem>, k: int) -> int
    decreases k,
{
    if k <= 0 {
        0
    } else {
        fixed_total(items, k - 1) + if is_fixed(items[k - 1]) {
            items[k - 1].min as int
        } else {
            0
        }
    }
}

/// Number of squeezable children among the first `k`.
pub open spec fn squeezable_count(items: Seq<AxisItem>, k: int) -> int
    decreases k,
{
    if k <= 0 {
        0
    } else {
        squeezable_count(items, k - 1) + if is_squeezable(items[k - 1]) {
            1int
        } else {
            0
        }
    }
}

/// Number of `Maximum` children among the first `k`.
pub open spec fn maximum_count(items: Seq<AxisItem>, k: int) -> int
    decreases k,
{
    if k <= 0 {
        0
    } else {
        maximum_count(items, k - 1) + if is_maximum(items[k - 1]) {
            1int
        } else {
            0
        }
    }
}

/// Sum of the maximums of `Maximum` children already pinned (not in `open`).
pub open spec fn pinned_total(items: Seq<AxisItem>, open: Seq<bool>, k: int) -> int
    decreases k,
{
    if k <= 0 {
        0
    } else {
        pinned_total(items, open, k - 1) + if is_maximum(items[k - 1]) && !open[k - 1] {
            items[k - 1].max as int
        } else {
            0
        }
    }
}

/// Sum of the minimums of `Maximum` children still sharing (in `open`).
pub open spec fn open_min_total(items: Seq<AxisItem>, open: Seq<bool>, k: int) -> int
    decreases k,
{
    if k <= 0 {
        0
    } else {
        open_min_total(items, open, k - 1) + if is_maximum(items[k - 1]) && open[k - 1] {
            items[k - 1].min as int
        } else {
            0
        }
    }
}

/// Number of `Maximum` children still sharing.
pub open spec fn open_count(items: Seq<AxisItem>, open: Seq<bool>, k: int) -> int
    decreases k,
{
    if k <= 0 {
        0
    } else {
        open_count(items, open, k - 1) + if is_maximum(items[k - 1]) && open[k - 1] {
            1int
        } else {
            0
        }
    }
}

/// Equal share of `rest` among `n` takers (nothing when nothing is left).
pub open spec fn share_of(rest: int, n: int) -> int {
    if rest <= 0 {
        0
    } else if n <= 1 {
        rest
    } else {
        rest / n
    }
}

/// The share each open `Maximum` child receives on top of its minimum.
pub open spec fn open_share(items: Seq<AxisItem>, parent: int, open: Seq<bool>) -> int {
    let n = items.len() as int;
    share_of(
        parent - fixed_total(items, n) - pinned_total(items, open, n) - open_min_total(
            items,
            open,
            n,
        ),
        open_count(items, open, n),
    )
}

/// Whether an open `Maximum` child would pass its maximum with `share`.
pub open spec fn overflows(it: AxisItem, share: int) -> bool {
    it.max > 0 && it.min + share > it.max
}

/// The open set after one round: children that overflow are pinned.
pub open spec fn next_open(items: Seq<AxisItem>, parent: int, open: Seq<bool>) -> Seq<bool> {
    let share = open_share(items, parent, open);
    Seq::new(
        open.len(),
        |j: int| open[j] && !(is_maximum(items[j]) && overflows(items[j], share)),
    )
}

/// Whether a round pins at least one child.
pub open spec fn pins_some(items: Seq<AxisItem>, parent: int, open: Seq<bool>) -> bool {
    let share = open_share(items, parent, open);
    exists|j: int|
        0 <= j < items.len() && #[trigger] open[j] && is_maximum(items[j]) && overflows(
            items[j],
            share,
        )
}

/// The open set once no round pins anything more.
pub open spec fn settled_open(items: Seq<AxisItem>, parent: int, open: Seq<bool>) -> Seq<bool>
    decreases open_count(items, open, items.len() as int),
    when open.len() == items.len()
{
    if pins_some(items, parent, open) {
        proof {
            lemma_next_open_shrinks(items, parent, open);
        }
        settled_open(items, parent, next_open(items, parent, open))
    } else {
        open
    }
}

/// At the start every `Maximum` child shares.
pub open spec fn initial_open(items: Seq<AxisItem>) -> Seq<bool> {
    Seq::new(items.len(), |j: int| is_maximum(items[j]))
}

pub open spec fn final_open(items: Seq<AxisItem>, parent: int) -> Seq<bool> {
    settled_open(items, parent, initial_open(items))
}

/// Size that child `j` receives along the axis (zero for unconstrained children).
pub open spec fn allocated_size(items: Seq<AxisItem>, parent: int, j: int) -> int {
    let n = items.len() as int;
    let it = items[j];
    if !is_constrained(it) {
        0
    } else if maximum_count(items, n) > 0 {
        if is_maximum(it) {
            let open = final_open(items, parent);
            if open[j] {
                it.min + open_share(items, parent, open)
            } else {
                it.max as int
            }
        } else if is_fixed(it) {
            it.min as int
        } else {
            0
        }
    } else if is_fixed(it) {
        it.min as int
    } else {
        let share = share_of(parent - fixed_total(items, n), squeezable_count(items, n));
        if it.max > 0 && share > it.max {
            it.max as int
        } else {
            share
        }
    }
}

// ---------------------------------------------------------------------------
// lemmas
proof fn lemma_open_count_bounds(items: Seq<AxisItem>, open: Seq<bool>, k: int)
    requires
        0 <= k <= items.len(),
    ensures
        0 <= open_count(items, open, k) <= k,
    decreases k,
{
    if k > 0 {
        lemma_open_count_bounds(items, open, k - 1);
    }
}

proof fn lemma_next_open_count(items: Seq<AxisItem>, parent: int, open: Seq<bool>, k: int)
    requires
        0 <= k <= items.len(),
        open.len() == items.len(),
    ensures
        open_count(items, next_open(items, parent, open), k) <= open_count(items, open, k),
        (exists|j: int|
            0 <= j < k && #[trigger] open[j] && is_maximum(items[j]) && overflows(
                items[j],
                open_share(items, parent, open),
            )) ==> open_count(items, next_open(items, parent, open), k) < open_count(
            items,
            open,
            k,
        ),
    decreases k,
{
    if k > 0 {
        lemma_next_open_count(items, parent, open, k - 1);
        let share = open_share(items, parent, open);
        if exists|j: int|
            0 <= j < k && #[trigger] open[j] && is_maximum(items[j]) && overflows(items[j], share)
        {
            let j = choose|j: int|
                0 <= j < k && #[trigger] open[j] && is_maximum(items[j]) && overflows(
                    items[j],
                    share,
                );
            if j < k - 1 {
                assert(0 <= j < k - 1 && open[j] && is_maximum(items[j]) && overflows(
                    items[j],
                    share,
                ));
            }
        }
    }
}

pub proof fn lemma_next_open_shrinks(items: Seq<AxisItem>, parent: int, open: Seq<bool>)
    requires
        open.len() == items.len(),
        pins_some(items, parent, open),
    ensures
        0 <= open_count(items, next_open(items, parent, open), items.len() as int) < open_count(
            items,
            open,
            items.len() as int,
        ),
{
    lemma_next_open_count(items, parent, open, items.len() as int);
    lemma_open_count_bounds(items, next_open(items, parent, open), items.len() as int);
}


proof fn lemma_totals_bounds(items: Seq<AxisItem>, open: Seq<bool>, k: int)
    requires
        0 <= k <= items.len(),
        forall|j: int| 0 <= j < items.len() ==> #[trigger] item_ok(items[j]),
        pinned_ok(items, open),
    ensures
        0 <= fixed_total(items, k) <= k * EXTENT_LIMIT,
        0 <= pinned_total(items, open, k) <= k * EXTENT_LIMIT,
        0 <= open_min_total(items, open, k) <= k * EXTENT_LIMIT,
        0 <= fixed_total(items, k) + pinned_total(items, open, k) + open_min_total(items, open, k)
            <= k * EXTENT_LIMIT,
        0 <= open_count(items, open, k) <= k,
        0 <= squeezable_count(items, k) <= k,
        0 <= maximum_count(items, k) <= k,
    decreases k,
{
    if k > 0 {
        lemma_totals_bounds(items, open, k - 1);
        assert(item_ok(items[k - 1]));
    }
}

proof fn lemma_open_min_member(items: Seq<AxisItem>, open: Seq<bool>, k: int, j: int)
    requires
        0 <= j < k <= items.len(),
        is_maximum(items[j]),
        open[j],
        forall|i: int| 0 <= i < items.len() ==> #[trigger] item_ok(items[i]),
        pinned_ok(items, open),
    ensures
        open_min_total(items, open, k) >= items[j].min,
        open_count(items, open, k) >= 1,
    decreases k,
{
    lemma_totals_bounds(items, open, k - 1);
    if j < k - 1 {
        lemma_open_min_member(items, open, k - 1, j);
        assert(item_ok(items[k - 1]));
    }
}

proof fn lemma_share_le(rest: int, n: int)
    ensures
        0 <= share_of(rest, n),
        rest > 0 ==> share_of(rest, n) <= rest,
        rest <= 0 ==> share_of(rest, n) == 0,
{
    if rest > 0 && n > 1 {
        assert(rest / n <= rest) by (nonlinear_arith)
            requires
                rest > 0,
                n > 1,
        ;
        assert(rest / n >= 0) by (nonlinear_arith)
            requires
                rest > 0,
                n > 1,
        ;
    }
}

/// Every allocated size lies between zero and the extent limit.
pub proof fn lemma_allocated_size_bounds(items: Seq<AxisItem>, parent: int, j: int)
    requires
        items_fit(items, parent),
        0 <= j < items.len(),
    ensures
        0 <= allocated_size(items, parent, j) <= EXTENT_LIMIT,
{
    let n = items.len() as int;
    let it = items[j];
    assert(item_ok(it));
    lemma_totals_bounds(items, initial_open(items), n);
    if is_constrained(it) {
        if maximum_count(items, n) > 0 {
            if is_maximum(it) {
                let open = final_open(items, parent);
                lemma_final_pinned_ok(items, parent);
                if open[j] {
                    lemma_totals_bounds(items, open, n);
                    lemma_open_min_member(items, open, n, j);
                    let rest = parent - fixed_total(items, n) - pinned_total(items, open, n)
                        - open_min_total(items, open, n);
                    lemma_share_le(rest, open_count(items, open, n));
                }
            }
        } else if !is_fixed(it) {
            lemma_share_le(parent - fixed_total(items, n), squeezable_count(items, n));
        }
    }
}


// ---------------------------------------------------------------------------
// executable allocation
fn axis_totals(items: &Vec<AxisItem>) -> (res: (i64, usize, usize))
    requires
        items_fit(items@, 0),
    ensures
        res.0 == fixed_total(items@, items@.len() as int),
        res.1 == maximum_count(items@, items@.len() as int),
        res.2 == squeezable_count(items@, items@.len() as int),
{
    let n = items.len();
    let mut total: i64 = 0;
    let mut n_max: usize = 0;
    let mut n_sq: usize = 0;
    let mut j: usize = 0;
    while j < n
        invariant
            j <= n == items@.len(),
            items_fit(items@, 0),
            total == fixed_total(items@, j as int),
            n_max == maximum_count(items@, j as int),
            n_sq == squeezable_count(items@, j as int),
        decreases n - j,
    {
        proof {
            lemma_totals_bounds(items@, initial_open(items@), j as int + 1);
        }
        let it = items[j];
        if it.constraint == Constraintable::Maximum {
            n_max = n_max + 1;
        } else if it.constraint == Constraintable::Minimum {
            if it.min > 0 {
                total = total + it.min as i64;
            } else {
                n_sq = n_sq + 1;
            }
        }
        j = j + 1;
    }
    (total, n_max, n_sq)
}

fn open_sums(items: &Vec<AxisItem>, open: &Vec<bool>) -> (res: (i64, i64, usize))
    requires
        items_fit(items@, 0),
        open@.len() == items@.len(),
        pinned_ok(items@, open@),
    ensures
        res.0 == pinned_total(items@, open@, items@.len() as int),
        res.1 == open_min_total(items@, open@, items@.len() as int),
        res.2 == open_count(items@, open@, items@.len() as int),
{
    let n = items.len();
    let mut pinned: i64 = 0;
    let mut open_min: i64 = 0;
    let mut count: usize = 0;
    let mut j: usize = 0;
    while j < n
        invariant
            j <= n == items@.len() == open@.len(),
            items_fit(items@, 0),
            pinned_ok(items@, open@),
            pinned == pinned_total(items@, open@, j as int),
            open_min == open_min_total(items@, open@, j as int),
            count == open_count(items@, open@, j as int),
        decreases n - j,
    {
        proof {
            lemma_totals_bounds(items@, open@, j as int + 1);
        }
        let it = items[j];
        if it.constraint == Constraintable::Maximum {
            if open[j] {
                open_min = open_min + it.min as i64;
                count = count + 1;
            } else {
                pinned = pinned + it.max as i64;
            }
        }
        j = j + 1;
    }
    (pinned, open_min, count)
}

fn share_exec(rest: i64, n: usize) -> (share: i64)
    requires
        rest <= EXTENT_LIMIT,
        n <= CHILD_LIMIT,
    ensures
        share == share_of(rest as int, n as int),
        0 <= share <= EXTENT_LIMIT,
{
    proof {
        lemma_share_le(rest as int, n as int);
    }
    if rest <= 0 {
        0
    } else if n <= 1 {
        rest
    } else {
        rest / (n as i64)
    }
}

fn pin_round(items: &Vec<AxisItem>, open: &Vec<bool>, share: i64) -> (res: (Vec<bool>, bool))
    requires
        items_fit(items@, 0),
        open@.len() == items@.len(),
        0 <= share <= EXTENT_LIMIT,
    ensures
        res.0@.len() == open@.len(),
        forall|j: int|
            0 <= j < open@.len() ==> res.0@[j] == (open@[j] && !(is_maximum(items@[j])
                && overflows(items@[j], share as int))),
        res.1 == exists|j: int|
            0 <= j < items@.len() && #[trigger] open@[j] && is_maximum(items@[j]) && overflows(
                items@[j],
                share as int,
            ),
{
    let n = items.len();
    let mut next: Vec<bool> = Vec::new();
    let mut any = false;
    let mut j: usize = 0;
    while j < n
        invariant
            j <= n == items@.len() == open@.len(),
            items_fit(items@, 0),
            0 <= share <= EXTENT_LIMIT,
            next@.len() == j,
            forall|i: int|
                0 <= i < j ==> next@[i] == (open@[i] && !(is_maximum(items@[i]) && overflows(
                    items@[i],
                    share as int,
                ))),
            any == exists|i: int|
                0 <= i < j && #[trigger] open@[i] && is_maximum(items@[i]) && overflows(
                    items@[i],
                    share as int,
                ),
        decreases n - j,
    {
        let it = items[j];
        assert(item_ok(it));
        let over = it.constraint == Constraintable::Maximum && it.max > 0 && (it.min as i64) + share
            > it.max as i64;
        let o = open[j];
        next.push(o && !over);
        if o && over {
            any = true;
        }
        assert(any == exists|i: int|
            0 <= i < j + 1 && #[trigger] open@[i] && is_maximum(items@[i]) && overflows(
                items@[i],
                share as int,
            )) by {
            if o && over {
                assert(open@[j as int] && is_maximum(items@[j as int]) && overflows(
                    items@[j as int],
                    share as int,
                ));
            }
        }
        j = j + 1;
    }
    (next, any)
}

/// Sizes that a container gives its children along one axis.
pub fn allocate_sizes(items: &Vec<AxisItem>, parent_size: i32) -> (sizes: Vec<i32>)
    requires
        items_fit(items@, parent_size as int),
    ensures
        sizes@.len() == items@.len(),
        forall|j: int|
            0 <= j < items@.len() ==> #[trigger] sizes@[j] == allocated_size(
                items@,
                parent_size as int,
                j,
            ),
{
    let ghost s = items@;
    let ghost p = parent_size as int;
    let n = items.len();
    proof {
        assert(items_fit(items@, 0));
        lemma_totals_bounds(s, initial_open(s), n as int);
    }
    let (total_fixed, n_max, n_sq) = axis_totals(items);
    let mut sizes: Vec<i32> = Vec::new();
    if n_max > 0 {
        let mut open: Vec<bool> = Vec::new();
        let mut j: usize = 0;
        while j < n
            invariant
                j <= n == s.len(),
                s == items@,
                open@.len() == j,
                forall|i: int| 0 <= i < j ==> open@[i] == is_maximum(s[i]),
            decreases n - j,
        {
            open.push(items[j].constraint == Constraintable::Maximum);
            j = j + 1;
        }
        assert(open@ =~= initial_open(s));
        let mut share: i64 = 0;
        loop
            invariant
                s == items@,
                items_fit(s, p),
                p == parent_size,
                total_fixed == fixed_total(s, n as int),
                n == s.len(),
                open@.len() == n,
                pinned_ok(s, open@),
                settled_open(s, p, open@) == final_open(s, p),
            ensures
                open@.len() == n,
                open@ == final_open(s, p),
                share == open_share(s, p, open@),
                0 <= share <= EXTENT_LIMIT,
            decreases open_count(s, open@, n as int),
        {
            let (pinned, open_min, count) = open_sums(items, &open);
            proof {
                lemma_totals_bounds(s, open@, n as int);
                lemma_open_count_bounds(s, open@, n as int);
            }
            let rest = parent_size as i64 - total_fixed - pinned - open_min;
            share = share_exec(rest, count);
            let (next, any) = pin_round(items, &open, share);
            assert(any == pins_some(s, p, open@));
            if !any {
                break;
            }
            assert(next@ =~= next_open(s, p, open@));
            proof {
                lemma_next_open_shrinks(s, p, open@);
                assert forall|i: int| 0 <= i < s.len() && is_maximum(#[trigger] s[i]) && !next@[i] implies s[i].max
                    > 0 by {
                    if open@[i] {
                        assert(overflows(s[i], share as int));
                    }
                }
            }
            open = next;
        }
        let mut j: usize = 0;
        while j < n
            invariant
                j <= n == s.len(),
                s == items@,
                items_fit(s, p),
                p == parent_size,
                n_max == maximum_count(s, n as int),
                n_max > 0,
                open@ == final_open(s, p),
                open@.len() == n,
                share == open_share(s, p, open@),
                0 <= share <= EXTENT_LIMIT,
                sizes@.len() == j,
                forall|i: int| 0 <= i < j ==> #[trigger] sizes@[i] == allocated_size(s, p, i),
            decreases n - j,
        {
            let it = items[j];
            proof {
                lemma_allocated_size_bounds(s, p, j as int);
            }
            let size: i32 = if it.constraint == Constraintable::Maximum {
                if open[j] {
                    (it.min as i64 + share) as i32
                } else {
                    it.max
                }
            } else if it.constraint == Constraintable::Minimum && it.min > 0 {
                it.min
            } else {
                0
            };
            sizes.push(size);
            j = j + 1;
        }
    } else {
        let rest = parent_size as i64 - total_fixed;
        let share = share_exec(rest, n_sq);
        let mut j: usize = 0;
        while j < n
            invariant
                j <= n == s.len(),
                s == items@,
                items_fit(s, p),
                p == parent_size,
                n_max == maximum_count(s, n as int),
                n_max == 0,
                share == share_of(p - fixed_total(s, n as int), squeezable_count(s, n as int)),
                0 <= share <= EXTENT_LIMIT,
                sizes@.len() == j,
                forall|i: int| 0 <= i < j ==> #[trigger] sizes@[i] == allocated_size(s, p, i),
            decreases n - j,
        {
            let it = items[j];
            assert(item_ok(it));
            let size: i32 = if it.constraint == Constraintable::Unconstrained {
                0
            } else if it.constraint == Constraintable::Minimum && it.min > 0 {
                it.min
            } else if it.max > 0 && share > it.max as i64 {
                it.max
            } else {
                share as i32
            };
            sizes.push(size);
            j = j + 1;
        }
    }
    sizes
}


// ---------------------------------------------------------------------------
// layout of a component tree

/// Geometry a parent imposes on a child before the child lays out its own children.
#[derive(Debug, Clone, Copy, PartialEq, Eq, Structural)]
pub enum Placement {
    /// The child keeps its geometry (it is unconstrained along the parent's axis).
    Keep,
    /// The child is put at `pos` along the parent's axis with `size`, and
    /// stretched to `cross` across it.
    Along { horizontal: bool, pos: i32, cross: i32, size: i32 },
}

pub open spec fn placed(v: ComponentView, p: Placement) -> ComponentView {
    match p {
        Placement::Keep => v,
        Placement::Along { horizontal, pos, cross, size } => if horizontal {
            ComponentView { x: pos, height: cross, width: size, ..v }
        } else {
            ComponentView { y: pos, width: cross, height: size, ..v }
        },
    }
}

pub open spec fn is_horizontal(v: ComponentView, dir: Option<Direction>) -> bool {
    match dir {
        Some(d) => d == Direction::Horizontal,
        None => v.layout_direction == Direction::Horizontal,
    }
}

pub open spec fn axis_item_of(c: ComponentView, horizontal: bool) -> AxisItem {
    if horizontal {
        AxisItem { constraint: c.h_constraint, min: c.min_width, max: c.max_width }
    } else {
        AxisItem { constraint: c.v_constraint, min: c.min_height, max: c.max_height }
    }
}

pub open spec fn axis_items_of(v: ComponentView, horizontal: bool) -> Seq<AxisItem> {
    Seq::new(v.children.len(), |j: int| axis_item_of(v.children[j], horizontal))
}

pub open spec fn main_extent(v: ComponentView, horizontal: bool) -> int {
    if horizontal {
        v.width as int
    } else {
        v.height as int
    }
}

pub open spec fn cross_extent(v: ComponentView, horizontal: bool) -> int {
    if horizontal {
        v.height as int
    } else {
        v.width as int
    }
}

/// Where along the axis the `k`-th child starts before centring.
pub open spec fn position_before(items: Seq<AxisItem>, parent: int, k: int) -> int
    decreases k,
{
    if k <= 0 {
        0
    } else {
        position_before(items, parent, k - 1) + allocated_size(items, parent, k - 1)
    }
}

/// Offset that centres the constrained children when room is left over.
pub open spec fn centering(v: ComponentView, horizontal: bool) -> int {
    let items = axis_items_of(v, horizontal);
    let parent = main_extent(v, horizontal);
    let rest = parent - position_before(items, parent, items.len() as int);
    let centred = if horizontal {
        v.centered_horizontal
    } else {
        v.centered_vertical
    };
    if rest > 0 && centred {
        rest / 2
    } else {
        0
    }
}

/// The placement a container gives its `j`-th child.
pub open spec fn child_placement(v: ComponentView, horizontal: bool, j: int) -> Placement {
    let items = axis_items_of(v, horizontal);
    let parent = main_extent(v, horizontal);
    if is_constrained(items[j]) {
        Placement::Along {
            horizontal,
            pos: (position_before(items, parent, j) + centering(v, horizontal)) as i32,
            cross: cross_extent(v, horizontal) as i32,
            size: allocated_size(items, parent, j) as i32,
        }
    } else {
        Placement::Keep
    }
}

/// A tree whose every node has the given width.
pub open spec fn with_width(v: ComponentView, width: i32) -> ComponentView
    decreases v,
{
    ComponentView {
        width,
        children: Seq::new(
            v.children.len(),
            |j: int|
                if 0 <= j < v.children.len() {
                    with_width(v.children[j], width)
                } else {
                    blank_view()
                },
        ),
        ..v
    }
}

/// The tree after placing its root with `p` and laying out every level
/// (the root along `dir` when given, every other node along its own direction).
pub open spec fn layout_node(v: ComponentView, p: Placement, dir: Option<Direction>) -> ComponentView
    decreases v,
{
    let w = placed(v, p);
    let h = is_horizontal(w, dir);
    let kids = Seq::new(
        v.children.len(),
        |j: int|
            if 0 <= j < v.children.len() {
                layout_node(v.children[j], child_placement(w, h, j), None)
            } else {
                blank_view()
            },
    );
    let kids2 = match w.widget {
        WidgetView::ScrollList { .. } => Seq::new(kids.len(), |j: int| with_width(kids[j], w.width)),
        _ => kids,
    };
    ComponentView { children: kids2, ..w }
}

/// The tree after `layout(dir)`.
pub open spec fn laid_out(v: ComponentView, dir: Option<Direction>) -> ComponentView {
    layout_node(v, Placement::Keep, dir)
}

/// Limits of one node that layout relies on.
pub open spec fn local_fits(v: ComponentView) -> bool {
    &&& -EXTENT_LIMIT <= v.min_width <= EXTENT_LIMIT
    &&& -EXTENT_LIMIT <= v.max_width <= EXTENT_LIMIT
    &&& -EXTENT_LIMIT <= v.min_height <= EXTENT_LIMIT
    &&& -EXTENT_LIMIT <= v.max_height <= EXTENT_LIMIT
    &&& v.h_constraint == Constraintable::Maximum ==> 0 <= v.min_width
    &&& v.v_constraint == Constraintable::Maximum ==> 0 <= v.min_height
    &&& -EXTENT_LIMIT <= v.width <= EXTENT_LIMIT
    &&& -EXTENT_LIMIT <= v.height <= EXTENT_LIMIT
    &&& v.children.len() <= CHILD_LIMIT
}

/// Every node of the tree stays within the layout limits.
pub open spec fn tree_fits(v: ComponentView) -> bool
    decreases v, 1nat,
{
    local_fits(v) && kids_fit(v.children)
}

pub open spec fn kids_fit(s: Seq<ComponentView>) -> bool
    decreases s, 0nat,
{
    if s.len() == 0 {
        true
    } else {
        kids_fit(s.drop_last()) && tree_fits(s.last())
    }
}

pub proof fn lemma_kids_fit(s: Seq<ComponentView>)
    ensures
        kids_fit(s) <==> forall|j: int| 0 <= j < s.len() ==> #[trigger] tree_fits(s[j]),
    decreases s.len(),
{
    if s.len() > 0 {
        let t = s.drop_last();
        lemma_kids_fit(t);
        assert(forall|j: int| 0 <= j < t.len() ==> t[j] == s[j]);
        assert(s.last() == s[s.len() - 1]);
        if kids_fit(s) {
            assert forall|j: int| 0 <= j < s.len() implies #[trigger] tree_fits(s[j]) by {
                if j < t.len() {
                    assert(tree_fits(t[j]));
                }
            }
        }
        if forall|j: int| 0 <= j < s.len() ==> #[trigger] tree_fits(s[j]) {
            assert forall|j: int| 0 <= j < t.len() implies #[trigger] tree_fits(t[j]) by {
                assert(tree_fits(s[j]));
            }
            assert(tree_fits(s[s.len() - 1]));
        }
    }
}

impl ComponentBase {
    /// Whether every node of this tree is within the layout limits, so that
    /// `layout` may be called on it.
    pub fn fits_layout(&self) -> (r: bool)
        ensures
            r == tree_fits(self@),
        decreases self,
    {
        let within = |n: i32| -> (b: bool)
            ensures
                b == (-EXTENT_LIMIT <= n <= EXTENT_LIMIT),
            { -EXTENT_LIMIT <= n && n <= EXTENT_LIMIT };
        let h_ok = self.h_constraint != Constraintable::Maximum || 0 <= self.min_width;
        let v_ok = self.v_constraint != Constraintable::Maximum || 0 <= self.min_height;
        let own = within(self.min_width) && within(self.max_width) && within(self.min_height) && within(
            self.max_height,
        ) && within(self.width) && within(self.height) && h_ok && v_ok && self.children.len() <= CHILD_LIMIT;
        proof {
            lemma_kids_fit(self@.children);
        }
        if !own {
            return false;
        }
        let n = self.children.len();
        let mut i: usize = 0;
        while i < n
            invariant
                i <= n == self.children@.len() == self@.children.len(),
                forall|j: int| 0 <= j < i ==> #[trigger] tree_fits(self@.children[j]),
            decreases n - i,
        {
            proof {
                lemma_view_child(*self, i as int);
            }
            if !self.children[i].fits_layout() {
                proof {
                    lemma_kids_fit(self@.children);
                    assert(!tree_fits(self@.children[i as int]));
                }
                return false;
            }
            i = i + 1;
        }
        proof {
            lemma_kids_fit(self@.children);
        }
        true
    }
}

pub open spec fn placement_fits(p: Placement) -> bool {
    match p {
        Placement::Keep => true,
        Placement::Along { horizontal, pos, cross, size } => -EXTENT_LIMIT <= cross
            <= EXTENT_LIMIT && 0 <= size <= EXTENT_LIMIT,
    }
}

proof fn lemma_position_bounds(items: Seq<AxisItem>, parent: int, k: int)
    requires
        items_fit(items, parent),
        0 <= k <= items.len(),
    ensures
        0 <= position_before(items, parent, k) <= k * EXTENT_LIMIT,
    decreases k,
{
    if k > 0 {
        lemma_position_bounds(items, parent, k - 1);
        lemma_allocated_size_bounds(items, parent, k - 1);
    }
}

impl ComponentBase {
    /// Sets the width of this component and of all its descendants.
    pub fn set_width_all(&mut self, width: i32)
        ensures
            final(self)@ == with_width(old(self)@, width),
        decreases *old(self),
    {
        let ghost orig = *self;
        self.width = width;
        let n = self.children.len();
        let mut j: usize = 0;
        while j < n
            invariant
                j <= n == self.children@.len() == orig.children@.len(),
                orig == *old(self),
                self.width == width,
                forall|i: int| j <= i < n ==> self.children@[i] == orig.children@[i],
                forall|i: int|
                    0 <= i < j ==> view_of(#[trigger] self.children@[i]) == with_width(
                        view_of(orig.children@[i]),
                        width,
                    ),
                self.x == orig.x && self.y == orig.y && self.height == orig.height,
                self.min_width == orig.min_width && self.min_height == orig.min_height,
                self.max_width == orig.max_width && self.max_height == orig.max_height,
                self.h_constraint == orig.h_constraint && self.v_constraint == orig.v_constraint,
                self.layout_direction == orig.layout_direction,
                self.centered_horizontal == orig.centered_horizontal,
                self.centered_vertical == orig.centered_vertical,
                self.hovered == orig.hovered && self.pressed == orig.pressed,
                self.pressed_button == orig.pressed_button,
                self.pressed_keys == orig.pressed_keys,
                self.cursor_x == orig.cursor_x && self.cursor_y == orig.cursor_y,
                self.debug_border_color == orig.debug_border_color,
                self.item_id == orig.item_id && self.name == orig.name,
                self.handler_key == orig.handler_key,
                self.widget == orig.widget,
            decreases n - j,
        {
            assert(self.children@[j as int] == orig.children@[j as int]);
            proof {
                assert(decreases_to!(orig => orig.children));
                assert(decreases_to!(orig.children => orig.children@));
                assert(decreases_to!(orig.children@ => orig.children@[j as int]));
            }
            self.children[j].set_width_all(width);
            j = j + 1;
        }
        proof {
            let fv = view_of(*self);
            let ov = view_of(orig);
            assert forall|i: int| 0 <= i < n implies fv.children[i] == with_width(
                ov.children[i],
                width,
            ) by {
                lemma_view_child(*self, i);
                lemma_view_child(orig, i);
            }
            assert(fv.children =~= with_width(ov, width).children);
        }
    }
}


impl ComponentBase {
    /// Lays out the whole subtree: children are placed along `h_override`
    /// (or the component's own direction) and every descendant lays out its
    /// own children along its own direction.
    pub fn layout(&mut self, h_override: Option<Direction>)
        requires
            tree_fits(old(self)@),
        ensures
            final(self)@ == laid_out(old(self)@, h_override),
    {
        self.layout_at(Placement::Keep, h_override);
    }

    fn apply_placement(&mut self, p: Placement)
        ensures
            final(self)@ == placed(old(self)@, p),
            final(self).children == old(self).children,
    {
        match p {
            Placement::Keep => {},
            Placement::Along { horizontal, pos, cross, size } => {
                if horizontal {
                    self.x = pos;
                    self.height = cross;
                    self.width = size;
                } else {
                    self.y = pos;
                    self.width = cross;
                    self.height = size;
                }
            },
        }
        proof {
            let fv = view_of(*self);
            assert(fv.children =~= view_of(*old(self)).children);
            assert(fv.pressed_keys == view_of(*old(self)).pressed_keys);
        }
    }

    fn layout_at(&mut self, p: Placement, dir: Option<Direction>)
        requires
            tree_fits(old(self)@),
            placement_fits(p),
        ensures
            final(self)@ == layout_node(old(self)@, p, dir),
        decreases *old(self),
    {
        let ghost orig = *self;
        let ghost ov = view_of(orig);
        proof {
            lemma_kids_fit(ov.children);
        }
        self.apply_placement(p);
        let ghost w = view_of(*self);
        let horizontal = match dir {
            Some(d) => d == Direction::Horizontal,
            None => self.layout_direction == Direction::Horizontal,
        };
        assert(horizontal == is_horizontal(w, dir));
        let n = self.children.len();
        let mut items: Vec<AxisItem> = Vec::new();
        let mut j: usize = 0;
        while j < n
            invariant
                j <= n == self.children@.len(),
                w == view_of(*self),
                items@.len() == j,
                forall|i: int| 0 <= i < j ==> items@[i] == axis_item_of(w.children[i], horizontal),
            decreases n - j,
        {
            proof {
                lemma_view_child(*self, j as int);
            }
            let c = &self.children[j];
            let it = if horizontal {
                AxisItem { constraint: c.h_constraint, min: c.min_width, max: c.max_width }
            } else {
                AxisItem { constraint: c.v_constraint, min: c.min_height, max: c.max_height }
            };
            items.push(it);
            j = j + 1;
        }
        let ghost its = axis_items_of(w, horizontal);
        assert(items@ =~= its);
        let parent = if horizontal {
            self.width
        } else {
            self.height
        };
        let cross = if horizontal {
            self.height
        } else {
            self.width
        };
        proof {
            assert forall|i: int| 0 <= i < its.len() implies #[trigger] item_ok(its[i]) by {
                assert(tree_fits(ov.children[i]));
                lemma_view_child(orig, i);
                lemma_view_child(*self, i);
                assert(w.children[i] == ov.children[i]);
            }
        }
        let sizes = allocate_sizes(&items, parent);
        let mut total: i64 = 0;
        let mut j: usize = 0;
        while j < n
            invariant
                j <= n == its.len(),
                items@ == its,
                items_fit(its, parent as int),
                sizes@.len() == n,
                forall|i: int|
                    0 <= i < n ==> #[trigger] sizes@[i] == allocated_size(its, parent as int, i),
                total == position_before(its, parent as int, j as int),
            decreases n - j,
        {
            proof {
                lemma_position_bounds(its, parent as int, j as int + 1);
            }
            total = total + sizes[j] as i64;
            j = j + 1;
        }
        proof {
            lemma_position_bounds(its, parent as int, n as int);
        }
        let rest = parent as i64 - total;
        let centred = if horizontal {
            self.centered_horizontal
        } else {
            self.centered_vertical
        };
        let offset: i64 = if rest > 0 && centred {
            rest / 2
        } else {
            0
        };
        assert(offset == centering(w, horizontal));
        let mut pos: i64 = 0;
        let mut j: usize = 0;
        while j < n
            invariant
                j <= n == its.len() == self.children@.len() == orig.children@.len(),
                orig == *old(self),
                ov == view_of(orig),
                items@ == its,
                its == axis_items_of(w, horizontal),
                items_fit(its, parent as int),
                parent as int == main_extent(w, horizontal),
                cross as int == cross_extent(w, horizontal),
                -EXTENT_LIMIT <= cross <= EXTENT_LIMIT,
                horizontal == is_horizontal(w, dir),
                offset == centering(w, horizontal),
                0 <= offset <= EXTENT_LIMIT,
                sizes@.len() == n,
                forall|i: int|
                    0 <= i < n ==> #[trigger] sizes@[i] == allocated_size(its, parent as int, i),
                pos == position_before(its, parent as int, j as int),
                forall|i: int| 0 <= i < n ==> tree_fits(#[trigger] ov.children[i]),
                forall|i: int| j <= i < n ==> self.children@[i] == orig.children@[i],
                forall|i: int|
                    0 <= i < j ==> view_of(#[trigger] self.children@[i]) == layout_node(
                        ov.children[i],
                        child_placement(w, horizontal, i),
                        None,
                    ),
                view_of(*self) == (ComponentView { children: view_of(*self).children, ..w }),
                w.children == ov.children,
            decreases n - j,
        {
            proof {
                lemma_position_bounds(its, parent as int, j as int + 1);
                lemma_position_bounds(its, parent as int, n as int);
                lemma_allocated_size_bounds(its, parent as int, j as int);
                lemma_view_child(orig, j as int);
            }
            let it = items[j];
            let place = if it.constraint == Constraintable::Unconstrained {
                Placement::Keep
            } else {
                Placement::Along {
                    horizontal,
                    pos: (pos + offset) as i32,
                    cross,
                    size: sizes[j],
                }
            };
            assert(place == child_placement(w, horizontal, j as int));
            assert(self.children@[j as int] == orig.children@[j as int]);
            proof {
                assert(decreases_to!(orig => orig.children));
                assert(decreases_to!(orig.children => orig.children@));
                assert(decreases_to!(orig.children@ => orig.children@[j as int]));
            }
            let ghost before = *self;
            self.children[j].layout_at(place, None);
            proof {
                let bv = view_of(before);
                let av = view_of(*self);
                assert(av.children.len() == bv.children.len());
                assert forall|i: int| 0 <= i < n && i != j implies av.children[i]
                    == bv.children[i] by {
                    lemma_view_child(*self, i);
                    lemma_view_child(before, i);
                }
                lemma_view_child(*self, j as int);
                assert(av.children =~= bv.children.update(j as int, av.children[j as int]));
                assert(av == (ComponentView { children: av.children, ..w }));
            }
            pos = pos + sizes[j] as i64;
            j = j + 1;
        }
        let is_scroll = match &self.widget {
            Widget::ScrollList(_) => true,
            _ => false,
        };
        let ghost kids = Seq::new(
            ov.children.len(),
            |i: int|
                if 0 <= i < ov.children.len() {
                    layout_node(ov.children[i], child_placement(w, horizontal, i), None)
                } else {
                    blank_view()
                },
        );
        proof {
            let sv = view_of(*self);
            assert forall|i: int| 0 <= i < n implies sv.children[i] == kids[i] by {
                lemma_view_child(*self, i);
            }
            assert(sv.children =~= kids);
        }
        if is_scroll {
            let width = self.width;
            let mut j: usize = 0;
            while j < n
                invariant
                    j <= n == self.children@.len() == kids.len(),
                    width == w.width,
                    forall|i: int| j <= i < n ==> view_of(#[trigger] self.children@[i]) == kids[i],
                    forall|i: int|
                        0 <= i < j ==> view_of(#[trigger] self.children@[i]) == with_width(
                            kids[i],
                            width,
                        ),
                    view_of(*self) == (ComponentView { children: view_of(*self).children, ..w }),
                decreases n - j,
            {
                let ghost before = *self;
                self.children[j].set_width_all(width);
                proof {
                    let bv = view_of(before);
                    let av = view_of(*self);
                    assert forall|i: int| 0 <= i < n && i != j implies av.children[i]
                        == bv.children[i] by {
                        lemma_view_child(*self, i);
                        lemma_view_child(before, i);
                    }
                    lemma_view_child(*self, j as int);
                    lemma_view_child(before, j as int);
                    assert(av.children =~= bv.children.update(j as int, av.children[j as int]));
                    assert(av == (ComponentView { children: av.children, ..w }));
                }
                j = j + 1;
            }
            proof {
                let sv = view_of(*self);
                let target = layout_node(ov, p, dir);
                assert forall|i: int| 0 <= i < n implies sv.children[i] == target.children[i] by {
                    lemma_view_child(*self, i);
                }
                assert(sv.children =~= target.children);
            }
        } else {
            proof {
                let sv = view_of(*self);
                let target = layout_node(ov, p, dir);
                assert(sv.children =~= target.children);
            }
        }
    }
}


// ---------------------------------------------------------------------------
// laws of the allocation

proof fn lemma_settled(items: Seq<AxisItem>, parent: int, open: Seq<bool>)
    requires
        open.len() == items.len(),
    ensures
        settled_open(items, parent, open).len() == items.len(),
        !pins_some(items, parent, settled_open(items, parent, open)),
        forall|j: int|
            0 <= j < items.len() && #[trigger] settled_open(items, parent, open)[j] ==> open[j],
        forall|j: int|
            0 <= j < items.len() && open[j] && !#[trigger] settled_open(items, parent, open)[j] ==> items[j].max
                > 0,
    decreases open_count(items, open, items.len() as int),
{
    if pins_some(items, parent, open) {
        lemma_next_open_shrinks(items, parent, open);
        let next = next_open(items, parent, open);
        lemma_settled(items, parent, next);
        assert forall|j: int|
            0 <= j < items.len() && open[j] && !#[trigger] settled_open(items, parent, open)[j] implies items[j].max
                > 0 by {
            if next[j] {
            } else {
                assert(overflows(items[j], open_share(items, parent, open)));
            }
        }
    }
}

/// The final open set leaves pinned only children with a positive maximum.
proof fn lemma_final_pinned_ok(items: Seq<AxisItem>, parent: int)
    ensures
        final_open(items, parent).len() == items.len(),
        pinned_ok(items, final_open(items, parent)),
{
    let open0 = initial_open(items);
    lemma_settled(items, parent, open0);
    assert forall|j: int| 0 <= j < items.len() && is_maximum(#[trigger] items[j]) && !final_open(items, parent)[j]
        implies items[j].max > 0 by {
        assert(open0[j]);
    }
}

/// A `Maximum` child with a positive maximum never receives more than that maximum.
pub proof fn law_maximum_respected(items: Seq<AxisItem>, parent: int, j: int)
    requires
        items_fit(items, parent),
        0 <= j < items.len(),
        is_maximum(items[j]),
        items[j].max > 0,
    ensures
        allocated_size(items, parent, j) <= items[j].max,
{
    let n = items.len() as int;
    let open0 = initial_open(items);
    lemma_settled(items, parent, open0);
    let open = final_open(items, parent);
    assert(maximum_count(items, n) > 0) by {
        lemma_maximum_count_member(items, n, j);
    }
    if open[j] {
        let share = open_share(items, parent, open);
        if overflows(items[j], share) {
            assert(open[j] && is_maximum(items[j]) && overflows(items[j], share));
            assert(pins_some(items, parent, open));
        }
    }
}

proof fn lemma_maximum_count_member(items: Seq<AxisItem>, k: int, j: int)
    requires
        0 <= j < k <= items.len(),
        is_maximum(items[j]),
    ensures
        maximum_count(items, k) > 0,
    decreases k,
{
    if j < k - 1 {
        lemma_maximum_count_member(items, k - 1, j);
    }
    lemma_maximum_count_nonneg(items, k - 1);
}

proof fn lemma_maximum_count_nonneg(items: Seq<AxisItem>, k: int)
    ensures
        maximum_count(items, k) >= 0,
    decreases k,
{
    if k > 0 {
        lemma_maximum_count_nonneg(items, k - 1);
    }
}

/// A `Minimum` child with a positive minimum receives exactly its minimum;
/// one with a zero minimum receives nothing while some `Maximum` child exists.
pub proof fn law_minimum_children(items: Seq<AxisItem>, parent: int, j: int)
    requires
        0 <= j < items.len(),
    ensures
        is_fixed(items[j]) ==> allocated_size(items, parent, j) == items[j].min,
        is_squeezable(items[j]) && (exists|i: int|
            0 <= i < items.len() && is_maximum(#[trigger] items[i])) ==> allocated_size(
            items,
            parent,
            j,
        ) == 0,
{
    if exists|i: int| 0 <= i < items.len() && is_maximum(#[trigger] items[i]) {
        let i = choose|i: int| 0 <= i < items.len() && is_maximum(#[trigger] items[i]);
        lemma_maximum_count_member(items, items.len() as int, i);
    }
}

/// Two `Maximum` children that are not pinned get the same amount on top of their minimums.
pub proof fn law_equal_shares(items: Seq<AxisItem>, parent: int, i: int, j: int)
    requires
        items_fit(items, parent),
        0 <= i < items.len(),
        0 <= j < items.len(),
        is_maximum(items[i]),
        is_maximum(items[j]),
        final_open(items, parent)[i],
        final_open(items, parent)[j],
    ensures
        allocated_size(items, parent, i) - items[i].min == allocated_size(items, parent, j)
            - items[j].min,
{
    lemma_maximum_count_member(items, items.len() as int, i);
}


proof fn lemma_position_decomposes(items: Seq<AxisItem>, parent: int, k: int)
    requires
        items_fit(items, parent),
        0 <= k <= items.len(),
        maximum_count(items, items.len() as int) > 0,
    ensures
        position_before(items, parent, k) == fixed_total(items, k) + pinned_total(
            items,
            final_open(items, parent),
            k,
        ) + open_min_total(items, final_open(items, parent), k) + open_count(
            items,
            final_open(items, parent),
            k,
        ) * open_share(items, parent, final_open(items, parent)),
    decreases k,
{
    if k > 0 {
        lemma_position_decomposes(items, parent, k - 1);
        let open = final_open(items, parent);
        let share = open_share(items, parent, open);
        let c = open_count(items, open, k - 1);
        assert((c + 1) * share == c * share + share) by (nonlinear_arith);
    }
}

/// When some `Maximum` child is still sharing and the protected minimums, the
/// pinned maximums and the sharing minimums leave no overflow, the
/// constrained children fill the parent up to a remainder smaller than the
/// number of sharing children.
pub proof fn law_maximum_children_fill(items: Seq<AxisItem>, parent: int)
    requires
        items_fit(items, parent),
        open_count(items, final_open(items, parent), items.len() as int) > 0,
        parent - fixed_total(items, items.len() as int) - pinned_total(
            items,
            final_open(items, parent),
            items.len() as int,
        ) - open_min_total(items, final_open(items, parent), items.len() as int) >= 0,
    ensures
        0 <= parent - position_before(items, parent, items.len() as int) < open_count(
            items,
            final_open(items, parent),
            items.len() as int,
        ),
{
    let n = items.len() as int;
    let open = final_open(items, parent);
    lemma_settled(items, parent, initial_open(items));
    if maximum_count(items, n) <= 0 {
        lemma_open_count_le_max(items, open, n);
    }
    lemma_position_decomposes(items, parent, n);
    let rest = parent - fixed_total(items, n) - pinned_total(items, open, n) - open_min_total(
        items,
        open,
        n,
    );
    let cnt = open_count(items, open, n);
    if cnt > 1 {
        assert(0 <= rest - cnt * (rest / cnt) < cnt) by (nonlinear_arith)
            requires
                rest >= 0,
                cnt > 1,
        ;
    }
}

proof fn lemma_open_count_le_max(items: Seq<AxisItem>, open: Seq<bool>, k: int)
    ensures
        open_count(items, open, k) <= maximum_count(items, k),
    decreases k,
{
    if k > 0 {
        lemma_open_count_le_max(items, open, k - 1);
    }
}


proof fn lemma_with_width_fits(v: ComponentView, width: i32)
    requires
        tree_fits(v),
        -EXTENT_LIMIT <= width <= EXTENT_LIMIT,
    ensures
        tree_fits(with_width(v, width)),
    decreases v,
{
    lemma_kids_fit(v.children);
    let r = with_width(v, width);
    assert forall|j: int| 0 <= j < r.children.len() implies #[trigger] tree_fits(r.children[j]) by {
        assert(tree_fits(v.children[j]));
        lemma_with_width_fits(v.children[j], width);
    }
    lemma_kids_fit(r.children);
}

proof fn lemma_items_fit(v: ComponentView, horizontal: bool)
    requires
        local_fits(v),
        forall|j: int| 0 <= j < v.children.len() ==> #[trigger] tree_fits(v.children[j]),
    ensures
        items_fit(axis_items_of(v, horizontal), main_extent(v, horizontal)),
{
    let its = axis_items_of(v, horizontal);
    assert forall|j: int| 0 <= j < its.len() implies #[trigger] item_ok(its[j]) by {
        assert(tree_fits(v.children[j]));
    }
}

/// Layout keeps every node within the layout limits, so it can be repeated.
pub proof fn law_layout_keeps_fit(v: ComponentView, p: Placement, dir: Option<Direction>)
    requires
        tree_fits(v),
        placement_fits(p),
    ensures
        tree_fits(layout_node(v, p, dir)),
    decreases v,
{
    lemma_kids_fit(v.children);
    let w = placed(v, p);
    let h = is_horizontal(w, dir);
    lemma_items_fit(w, h);
    let its = axis_items_of(w, h);
    let r = layout_node(v, p, dir);
    assert forall|j: int| 0 <= j < v.children.len() implies #[trigger] tree_fits(
        layout_node(v.children[j], child_placement(w, h, j), None),
    ) by {
        lemma_allocated_size_bounds(its, main_extent(w, h), j);
        assert(tree_fits(v.children[j]));
        law_layout_keeps_fit(v.children[j], child_placement(w, h, j), None);
    }
    assert forall|j: int| 0 <= j < r.children.len() implies #[trigger] tree_fits(r.children[j]) by {
        let k = layout_node(v.children[j], child_placement(w, h, j), None);
        assert(tree_fits(k));
        match w.widget {
            WidgetView::ScrollList { .. } => {
                lemma_with_width_fits(k, w.width);
            },
            _ => {},
        }
    }
    lemma_kids_fit(r.children);
}

/// A child that is unconstrained along its parent's axis keeps its position
/// and size when the parent (not a scroll list) lays out.
pub proof fn law_unconstrained_child_kept(v: ComponentView, dir: Option<Direction>, j: int)
    requires
        0 <= j < v.children.len(),
        !(v.widget is ScrollList),
        !is_constrained(axis_item_of(v.children[j], is_horizontal(v, dir))),
    ensures
        laid_out(v, dir).children[j].x == v.children[j].x,
        laid_out(v, dir).children[j].y == v.children[j].y,
        laid_out(v, dir).children[j].width == v.children[j].width,
        laid_out(v, dir).children[j].height == v.children[j].height,
{
    let h = is_horizontal(v, dir);
    assert(child_placement(v, h, j) == Placement::Keep);
    let k = layout_node(v.children[j], Placement::Keep, None);
    assert(k.x == v.children[j].x && k.y == v.children[j].y);
    assert(k.width == v.children[j].width && k.height == v.children[j].height);
    assert(laid_out(v, dir).children[j] == k);
}

/// The equal share of the room the protected minimums leave, among `c` takers.
pub open spec fn room_share(parent: int, fixed: int, c: int) -> int {
    if parent - fixed > 0 && c > 0 {
        (parent - fixed) / c
    } else {
        0
    }
}

/// With no `Maximum` child, a `Minimum` child whose minimum is not positive
/// receives the equal share of what the protected minimums leave of the
/// parent (nothing when they leave nothing), cut to its maximum when that
/// is positive: never more than the share, never more than such a maximum.
pub proof fn law_squeezable_child_share(items: Seq<AxisItem>, parent: int, j: int)
    requires
        0 <= j < items.len(),
        maximum_count(items, items.len() as int) == 0,
        is_squeezable(items[j]),
    ensures
        ({
            let n = items.len() as int;
            let q = room_share(parent, fixed_total(items, n), squeezable_count(items, n));
            let a = allocated_size(items, parent, j);
            &&& squeezable_count(items, n) >= 1
            &&& a <= q
            &&& items[j].max > 0 ==> a <= items[j].max && (a == q || a == items[j].max)
            &&& items[j].max <= 0 ==> a == q
        }),
{
    let n = items.len() as int;
    lemma_squeezable_count_member(items, n, j);
    let rest = parent - fixed_total(items, n);
    assert(rest / 1 == rest) by (nonlinear_arith);
    lemma_share_le(rest, squeezable_count(items, n));
}

proof fn lemma_squeezable_count_member(items: Seq<AxisItem>, k: int, j: int)
    requires
        0 <= j < k <= items.len(),
        is_squeezable(items[j]),
    ensures
        squeezable_count(items, k) >= 1,
    decreases k,
{
    lemma_squeezable_count_nonneg(items, k - 1);
    if j < k - 1 {
        lemma_squeezable_count_member(items, k - 1, j);
    }
}

proof fn lemma_squeezable_count_nonneg(items: Seq<AxisItem>, k: int)
    ensures
        squeezable_count(items, k) >= 0,
    decreases k,
{
    if k > 0 {
        lemma_squeezable_count_nonneg(items, k - 1);
    }
}

proof fn lemma_no_maximum_sum(items: Seq<AxisItem>, parent: int, k: int, q: int)
    requires
        0 <= k <= items.len(),
        maximum_count(items, items.len() as int) == 0,
        q == room_share(parent, fixed_total(items, items.len() as int), squeezable_count(items, items.len() as int)),
    ensures
        position_before(items, parent, k) <= fixed_total(items, k) + squeezable_count(items, k) * q,
    decreases k,
{
    if k > 0 {
        lemma_no_maximum_sum(items, parent, k - 1, q);
        let it = items[k - 1];
        if is_maximum(it) {
            lemma_maximum_count_member(items, items.len() as int, k - 1);
        }
        if is_squeezable(it) {
            law_squeezable_child_share(items, parent, k - 1);
        }
        assert(squeezable_count(items, k) * q == squeezable_count(items, k - 1) * q + (if is_squeezable(it) {
            q
        } else {
            0
        })) by (nonlinear_arith)
            requires
                squeezable_count(items, k) == squeezable_count(items, k - 1) + (if is_squeezable(it) {
                    1int
                } else {
                    0
                }),
        ;
    }
}

/// With no `Maximum` child, when the protected minimums fit in the parent the
/// children together take no more than the parent.
pub proof fn law_children_fit_without_maximum(items: Seq<AxisItem>, parent: int)
    requires
        maximum_count(items, items.len() as int) == 0,
        fixed_total(items, items.len() as int) <= parent,
    ensures
        position_before(items, parent, items.len() as int) <= parent,
{
    let n = items.len() as int;
    let f = fixed_total(items, n);
    let c = squeezable_count(items, n);
    let q = room_share(parent, f, c);
    lemma_no_maximum_sum(items, parent, n, q);
    lemma_squeezable_count_nonneg(items, n);
    if parent - f > 0 && c > 0 {
        assert(c * ((parent - f) / c) <= parent - f) by (nonlinear_arith)
            requires
                parent - f > 0,
                c > 0,
        ;
    }
}

} // verus!
