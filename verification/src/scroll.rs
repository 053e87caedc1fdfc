//! Filling a scroll list with items.
use vstd::prelude::*;

use crate::component::{
    lemma_view_child, view_of, views, ComponentBase, ComponentView, ScrollList, Widget, WidgetView,
};
use crate::layout::with_width;

verus! {

/// The items of a list once filled: item `i` is `item_height` tall, placed
/// at `i * item_height - scroll`, and it and all its descendants take the
/// list's width.
pub open spec fn filled_items(items: Seq<ComponentView>, item_height: int, scroll: int, width: i32) -> Seq<
    ComponentView,
> {
    Seq::new(
        items.len(),
        |i: int|
            with_width(
                ComponentView {
                    y: (i * item_height - scroll) as i32,
                    height: item_height as i32,
                    ..items[i]
                },
                width,
            ),
    )
}

/// The largest scroll offset of `n` items of the given height in a box of height `h`.
pub open spec fn max_scroll_for(n: int, item_height: int, h: int) -> int {
    if n * item_height - h > 0 {
        n * item_height - h
    } else {
        0
    }
}

/// A list after `set_items(items)`.
pub open spec fn with_items(v: ComponentView, items: Seq<ComponentView>) -> ComponentView {
    match v.widget {
        WidgetView::ScrollList { item_height, scroll, selected_id, .. } => {
            let m = max_scroll_for(items.len() as int, item_height as int, v.height as int);
            let s = if scroll < m {
                scroll as int
            } else {
                m
            };
            ComponentView {
                widget: WidgetView::ScrollList {
                    item_height,
                    scroll: s as i32,
                    max_scroll: m as i32,
                    selected_id,
                },
                children: filled_items(items, item_height as int, s, v.width),
                ..v
            }
        },
        _ => v,
    }
}

/// What `set_items` needs to stay within `i32`.
pub open spec fn items_fit(v: ComponentView, n: int) -> bool {
    match v.widget {
        WidgetView::ScrollList { item_height, scroll, .. } => {
            &&& 0 <= item_height
            &&& n * item_height <= i32::MAX
            &&& 0 <= scroll
            &&& v.height >= 0
        },
        _ => false,
    }
}

impl ComponentBase {
    /// Replaces the items of this scroll list.
    pub fn set_items(&mut self, items: Vec<ComponentBase>)
        requires
            items_fit(old(self)@, items@.len() as int),
        ensures
            final(self)@ == with_items(old(self)@, views(items@)),
    {
        let ghost v = self@;
        let ghost iv = views(items@);
        let (ih, scroll) = match &self.widget {
            Widget::ScrollList(l) => (l.item_height, l.scroll),
            _ => (0, 0),
        };
        let n = items.len();
        assert(n * ih <= i32::MAX);
        let total: i64 = (n as i128 * ih as i128) as i64;
        let h = self.height;
        let m: i32 = if total - h as i64 > 0 {
            (total - h as i64) as i32
        } else {
            0
        };
        let s: i32 = if scroll < m {
            scroll
        } else {
            m
        };
        match &mut self.widget {
            Widget::ScrollList(l) => {
                l.max_scroll = m;
                l.scroll = s;
            },
            _ => {},
        }
        let width = self.width;
        let mut kids: Vec<ComponentBase> = Vec::new();
        let mut rest = items;
        let mut j: usize = 0;
        let ghost target = filled_items(iv, ih as int, s as int, width);
        while j < n
            invariant
                j <= n == iv.len(),
                rest@.len() == n - j,
                kids@.len() == j,
                forall|i: int| 0 <= i < n - j ==> view_of(#[trigger] rest@[i]) == iv[i + j as int],
                forall|i: int| 0 <= i < j ==> view_of(#[trigger] kids@[i]) == target[i],
                0 <= ih,
                n * ih <= i32::MAX,
                0 <= s,
                target == filled_items(iv, ih as int, s as int, width),
            decreases n - j,
        {
            let ghost r0 = rest@;
            let mut item = rest.remove(0);
            assert(rest@ =~= r0.remove(0));
            assert(view_of(item) == iv[j as int]);
            assert(j * ih <= n * ih) by (nonlinear_arith)
                requires
                    j <= n,
                    0 <= ih,
            ;
            assert(0 <= j * ih) by (nonlinear_arith)
                requires
                    0 <= ih,
            ;
            let ghost before = item;
            item.height = ih;
            item.y = ((j as i128) * (ih as i128) - s as i128) as i32;
            proof {
                assert(view_of(item).children =~= view_of(before).children);
                assert(view_of(item) == (ComponentView {
                    y: (j * ih - s) as i32,
                    height: ih,
                    ..iv[j as int]
                }));
            }
            item.set_width_all(width);
            kids.push(item);
            proof {
                assert forall|i: int| 0 <= i < n - (j + 1) implies view_of(#[trigger] rest@[i])
                    == iv[i + j + 1] by {
                    assert(rest@[i] == r0[i + 1]);
                }
            }
            j = j + 1;
        }
        self.children = kids;
        proof {
            let fv = view_of(*self);
            assert forall|i: int| 0 <= i < n implies fv.children[i] == target[i] by {
                lemma_view_child(*self, i);
            }
            assert(fv.children =~= target);
        }
    }
}

/// After its items are replaced, a list's scroll offset lies within
/// `[0, max_scroll]`, and `max_scroll` is how far the items reach below the box.
pub proof fn law_items_keep_scroll_in_range(v: ComponentView, items: Seq<ComponentView>)
    requires
        items_fit(v, items.len() as int),
    ensures
        with_items(v, items).widget matches WidgetView::ScrollList { scroll, max_scroll, .. } && 0 <= scroll
            <= max_scroll && max_scroll == max_scroll_for(items.len() as int, v.widget->item_height as int, v.height as int),
        with_items(v, items).children.len() == items.len(),
{
}

} // verus!
