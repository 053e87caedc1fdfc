//! Drawing the component tree into a draw list.
//!
//! Each component records its own look at its position plus the offset of
//! its parent, and then its children; a scroll list draws only the items it
//! shows, clipped to its box.  The debug outline draws a thin border around
//! every component.
use vstd::prelude::*;

use crate::component::{
    lemma_view_child, view_of, ComponentBase, ComponentView, Widget, WidgetView,
};
use crate::events::visible_in;
use crate::renderer::{RendererView, UIRenderer};
use crate::types::{image_data_view, ImageMode};

verus! {

/// Coordinates and sizes a drawn component may have.
pub const DRAW_LIMIT: i32 = 536870912;

/// Largest height of a scroll list whose square the scroll bar computes.
pub const LIST_HEIGHT_LIMIT: i32 = 46340;

/// Integer division as executable code performs it (towards zero), for a positive divisor.
pub open spec fn tdiv(a: int, b: int) -> int {
    if a >= 0 {
        a / b
    } else {
        -((-a) / b)
    }
}

pub open spec fn in_draw(n: int) -> bool {
    -DRAW_LIMIT <= n <= DRAW_LIMIT
}

pub open spec fn abs(n: int) -> int {
    if n < 0 {
        -n
    } else {
        n
    }
}

/// Background of a push button.
pub open spec fn button_bg(enabled: bool, pressed: bool, hovered: bool) -> (u8, u8, u8, u8) {
    if !enabled {
        (80, 80, 80, 255)
    } else if pressed {
        (100, 100, 100, 255)
    } else if hovered {
        (140, 140, 140, 255)
    } else {
        (80, 80, 80, 255)
    }
}

/// Size a picture of `iw` x `ih` pixels is shown at in `v`.
pub open spec fn display_size(v: ComponentView, iw: int, ih: int, h_mode: ImageMode, v_mode: ImageMode) -> (int, int) {
    let dw = match h_mode {
        ImageMode::Cover => v.width as int,
        ImageMode::KeepRate => if v_mode == ImageMode::Cover {
            let q = tdiv(iw * v.height, ih);
            if q > 1 {
                q
            } else {
                1
            }
        } else {
            iw
        },
        _ => iw,
    };
    let dh = match v_mode {
        ImageMode::Cover => v.height as int,
        ImageMode::KeepRate => if h_mode == ImageMode::Cover {
            let q = tdiv(ih * v.width, iw);
            if q > 1 {
                q
            } else {
                1
            }
        } else {
            ih
        },
        _ => ih,
    };
    (dw, dh)
}

pub open spec fn centers(m: ImageMode) -> bool {
    m == ImageMode::Centered || m == ImageMode::KeepRate
}

/// Text sizes and colours of a music list entry: title size, title colour, author colour.
pub open spec fn entry_style(selected: bool, hovered: bool) -> (u32, (u8, u8, u8), (u8, u8, u8)) {
    if selected {
        (22, (255, 255, 100), (220, 220, 220))
    } else if hovered {
        (22, (255, 255, 160), (200, 200, 200))
    } else {
        (20, (255, 255, 255), (160, 160, 160))
    }
}

/// The scroll list's own look: its background and, when it can scroll, its bar.
pub open spec fn list_look(v: ComponentView, item_height: int, scroll: int, dx: int, dy: int, r: RendererView) -> RendererView {
    let total = v.children.len() * item_height;
    let max = if total - v.height > 0 {
        total - v.height
    } else {
        0
    };
    let r1 = r.with_rect(dx as i32, dy as i32, v.width, v.height, (30, 30, 30, 255));
    if max > 0 {
        let q = tdiv(v.height * v.height, total);
        let bar_h = if q > 20 {
            q
        } else {
            20
        };
        let track = v.height - bar_h;
        let bar_y = dy + tdiv(scroll * track, max);
        let bar_x = dx + v.width - 4 - 2;
        r1.with_rect(bar_x as i32, bar_y as i32, 4, bar_h as i32, (100, 100, 100, 255))
    } else {
        r1
    }
}

/// What a component records for itself when its top-left corner is at `(dx, dy)`.
pub open spec fn draw_self(v: ComponentView, dx: int, dy: int, r: RendererView) -> RendererView {
    let x = dx as i32;
    let y = dy as i32;
    match v.widget {
        WidgetView::Label { text, font_size, color } => r.with_text(
            text,
            x,
            y,
            v.width,
            v.height,
            font_size,
            color,
        ),
        WidgetView::Button { enabled, .. } => {
            let r1 = r.with_rect(x, y, v.width, v.height, button_bg(enabled, v.pressed, v.hovered));
            if !enabled {
                r1.with_rect(x, y, v.width, v.height, (0, 0, 0, 128))
            } else {
                r1
            }
        },
        WidgetView::ImageButton { enabled } => {
            let r1 = r.with_rect(x, y, v.width, v.height, button_bg(enabled, v.pressed, v.hovered));
            if !enabled {
                r1.with_rect(x, y, v.width, v.height, (0, 0, 0, 128))
            } else {
                r1
            }
        },
        WidgetView::Image { h_mode, v_mode, image_data, .. } => match image_data {
            None => r,
            Some(d) => {
                let iw = (d.width as i32) as int;
                let ih = (d.height as i32) as int;
                let s = display_size(v, iw, ih, h_mode, v_mode);
                let ix = if centers(h_mode) {
                    dx + tdiv(v.width - s.0, 2)
                } else {
                    dx
                };
                let iy = if centers(v_mode) {
                    dy + tdiv(v.height - s.1, 2)
                } else {
                    dy
                };
                r.with_image(ix as i32, iy as i32, s.0 as i32, s.1 as i32, Some(d))
            },
        },
        WidgetView::ScrollList { item_height, scroll, .. } => list_look(
            v,
            item_height as int,
            scroll as int,
            dx,
            dy,
            r,
        ),
        WidgetView::RendererCanvas { shader_wgsl, vertex_layout, latest } => if latest.vertex_data.len()
            > 0 && latest.vertex_count > 0 {
            r.with_custom(x, y, v.width, v.height, shader_wgsl, vertex_layout, latest)
        } else {
            r
        },
        WidgetView::ListItem { title, author, selected } => {
            let st = entry_style(selected, v.hovered);
            r.with_text(title, x, (dy + 4) as i32, v.width, 24, st.0, st.1).with_text(
                author,
                x,
                (dy + 28) as i32,
                v.width,
                20,
                14,
                st.2,
            )
        },
        _ => r,
    }
}

/// Drawing `v` with its parent's top-left corner at `(ox, oy)`.
pub open spec fn draw_node(v: ComponentView, ox: int, oy: int, r: RendererView) -> RendererView
    decreases v, 1int, 0int,
{
    let dx = ox + v.x;
    let dy = oy + v.y;
    let r1 = draw_self(v, dx, dy, r);
    if v.widget is ScrollList {
        let r2 = r1.with_clip(dx as i32, dy as i32, v.width, v.height);
        draw_kids(v.children, 0, dx, dy, Some(v.height as int), r2).without_clip()
    } else {
        draw_kids(v.children, 0, dx, dy, None, r1)
    }
}

/// Drawing the children `s[i..]` in order, skipping those a list does not show.
pub open spec fn draw_kids(
    s: Seq<ComponentView>,
    i: int,
    dx: int,
    dy: int,
    limit: Option<int>,
    r: RendererView,
) -> RendererView
    decreases s, 0int, s.len() - i,
{
    if i < 0 || i >= s.len() {
        r
    } else {
        let r1 = if visible_in(s[i], limit) {
            draw_node(s[i], dx, dy, r)
        } else {
            r
        };
        draw_kids(s, i + 1, dx, dy, limit, r1)
    }
}

/// The debug outline of `v` and its descendants.
pub open spec fn debug_node(v: ComponentView, ox: int, oy: int, r: RendererView) -> RendererView
    decreases v, 1int, 0int,
{
    let dx = ox + v.x;
    let dy = oy + v.y;
    let w: int = if v.width > 0 {
        v.width as int
    } else {
        0
    };
    let h: int = if v.height > 0 {
        v.height as int
    } else {
        0
    };
    let c = v.debug_border_color;
    let r1 = r.with_rect(dx as i32, dy as i32, w as i32, 2, c).with_rect(
        dx as i32,
        (dy + h - 2) as i32,
        w as i32,
        2,
        c,
    ).with_rect(dx as i32, dy as i32, 2, h as i32, c).with_rect(
        (dx + w - 2) as i32,
        dy as i32,
        2,
        h as i32,
        c,
    );
    debug_kids(v.children, 0, dx, dy, r1)
}

pub open spec fn debug_kids(s: Seq<ComponentView>, i: int, dx: int, dy: int, r: RendererView) -> RendererView
    decreases s, 0int, s.len() - i,
{
    if i < 0 || i >= s.len() {
        r
    } else {
        debug_kids(s, i + 1, dx, dy, debug_node(s[i], dx, dy, r))
    }
}

// ---------------------------------------------------------------------------
// limits

/// The arithmetic of drawing `v` at `(dx, dy)` stays within `i32`.
pub open spec fn draw_local(v: ComponentView, dx: int, dy: int) -> bool {
    &&& in_draw(dx)
    &&& in_draw(dy)
    &&& in_draw(v.width as int)
    &&& in_draw(v.height as int)
    &&& match v.widget {
        WidgetView::ScrollList { item_height, scroll, .. } => {
            &&& 0 <= v.height <= LIST_HEIGHT_LIMIT
            &&& 0 <= item_height
            &&& v.children.len() * item_height <= i32::MAX
            &&& abs(scroll as int) * (v.height + 20) <= DRAW_LIMIT
        },
        WidgetView::Image { image_data: Some(d), .. } => {
            let iw = (d.width as i32) as int;
            let ih = (d.height as i32) as int;
            &&& 1 <= iw <= DRAW_LIMIT
            &&& 1 <= ih <= DRAW_LIMIT
            &&& iw * abs(v.height as int) <= DRAW_LIMIT
            &&& ih * abs(v.width as int) <= DRAW_LIMIT
        },
        _ => true,
    }
}

/// Every component of the tree, drawn with its parent's corner at `(ox, oy)`, stays within `i32`.
pub open spec fn draw_fits(v: ComponentView, ox: int, oy: int) -> bool
    decreases v, 1nat,
{
    draw_local(v, ox + v.x, oy + v.y) && kids_draw_fit(v.children, ox + v.x, oy + v.y)
}

pub open spec fn kids_draw_fit(s: Seq<ComponentView>, dx: int, dy: int) -> bool
    decreases s, 0nat,
{
    if s.len() == 0 {
        true
    } else {
        kids_draw_fit(s.drop_last(), dx, dy) && draw_fits(s.last(), dx, dy)
    }
}

pub proof fn lemma_kids_draw_fit(s: Seq<ComponentView>, dx: int, dy: int)
    ensures
        kids_draw_fit(s, dx, dy) <==> forall|j: int|
            0 <= j < s.len() ==> #[trigger] draw_fits(s[j], dx, dy),
    decreases s.len(),
{
    if s.len() > 0 {
        let t = s.drop_last();
        lemma_kids_draw_fit(t, dx, dy);
        assert(forall|j: int| 0 <= j < t.len() ==> t[j] == s[j]);
        assert(s.last() == s[s.len() - 1]);
        if kids_draw_fit(s, dx, dy) {
            assert forall|j: int| 0 <= j < s.len() implies #[trigger] draw_fits(s[j], dx, dy) by {
                if j < t.len() {
                    assert(draw_fits(t[j], dx, dy));
                }
            }
        }
        if forall|j: int| 0 <= j < s.len() ==> #[trigger] draw_fits(s[j], dx, dy) {
            assert forall|j: int| 0 <= j < t.len() implies #[trigger] draw_fits(t[j], dx, dy) by {
                assert(draw_fits(s[j], dx, dy));
            }
            assert(draw_fits(s[s.len() - 1], dx, dy));
        }
    }
}

fn in_draw64(n: i64) -> (r: bool)
    ensures
        r == in_draw(n as int),
{
    -(DRAW_LIMIT as i64) <= n && n <= DRAW_LIMIT as i64
}

impl ComponentBase {
    /// Whether this component and its descendants, drawn with the parent's
    /// corner at `(ox, oy)`, stay within the drawing limits.
    pub fn fits_draw_at(&self, ox: i64, oy: i64) -> (r: bool)
        requires
            -0x100_0000_0000 <= ox <= 0x100_0000_0000,
            -0x100_0000_0000 <= oy <= 0x100_0000_0000,
        ensures
            r == draw_fits(self@, ox as int, oy as int),
        decreases self,
    {
        let dx: i64 = ox + self.x as i64;
        let dy: i64 = oy + self.y as i64;
        proof {
            lemma_kids_draw_fit(self@.children, dx as int, dy as int);
            crate::component::lemma_views_children(*self);
        }
        if !(in_draw64(dx) && in_draw64(dy) && in_draw64(self.width as i64) && in_draw64(self.height as i64)) {
            return false;
        }
        let own = match &self.widget {
            Widget::ScrollList(l) => {
                if self.height < 0 || self.height > LIST_HEIGHT_LIMIT || l.item_height < 0 {
                    false
                } else {
                    let nn = self.children.len() as u128;
                    let ih = l.item_height as u128;
                    assert(nn * ih <= 0xFFFF_FFFF_FFFF_FFFFu128 * 0x7FFF_FFFFu128) by (nonlinear_arith)
                        requires
                            nn <= 0xFFFF_FFFF_FFFF_FFFFu128,
                            ih <= 0x7FFF_FFFFu128,
                    ;
                    let sc: i64 = if l.scroll < 0 { -(l.scroll as i64) } else { l.scroll as i64 };
                    let hh: i64 = self.height as i64 + 20;
                    assert(sc * hh <= 0x8000_0000 * 46360) by (nonlinear_arith)
                        requires
                            0 <= sc <= 0x8000_0000,
                            0 <= hh <= 46360,
                    ;
                    assert(0 <= sc * hh) by (nonlinear_arith)
                        requires
                            0 <= sc,
                            0 <= hh,
                    ;
                    nn * ih <= 2147483647 && sc * hh <= DRAW_LIMIT as i64
                }
            },
            Widget::Image(img) => match &img.image_data {
                Some(d) => {
                    let iw: i64 = (#[verifier::truncate] (d.width as i32)) as i64;
                    let ih: i64 = (#[verifier::truncate] (d.height as i32)) as i64;
                    if iw < 1 || iw > DRAW_LIMIT as i64 || ih < 1 || ih > DRAW_LIMIT as i64 {
                        false
                    } else {
                        let ah: i64 = if self.height < 0 { -(self.height as i64) } else { self.height as i64 };
                        let aw: i64 = if self.width < 0 { -(self.width as i64) } else { self.width as i64 };
                        assert(iw * ah <= 0x2000_0000 * 0x2000_0000) by (nonlinear_arith)
                            requires
                                0 <= iw <= 0x2000_0000,
                                0 <= ah <= 0x2000_0000,
                        ;
                        assert(ih * aw <= 0x2000_0000 * 0x2000_0000) by (nonlinear_arith)
                            requires
                                0 <= ih <= 0x2000_0000,
                                0 <= aw <= 0x2000_0000,
                        ;
                        iw * ah <= DRAW_LIMIT as i64 && ih * aw <= DRAW_LIMIT as i64
                    }
                },
                None => true,
            },
            _ => true,
        };
        if !own {
            return false;
        }
        let n = self.children.len();
        let mut i: usize = 0;
        while i < n
            invariant
                i <= n == self.children@.len() == self@.children.len(),
                in_draw(dx as int) && in_draw(dy as int),
                draw_fits(self@, ox as int, oy as int) == kids_draw_fit(self@.children, dx as int, dy as int),
                forall|j: int| 0 <= j < i ==> #[trigger] draw_fits(self@.children[j], dx as int, dy as int),
            decreases n - i,
        {
            proof {
                crate::component::lemma_view_child(*self, i as int);
            }
            if !self.children[i].fits_draw_at(dx, dy) {
                proof {
                    lemma_kids_draw_fit(self@.children, dx as int, dy as int);
                }
                return false;
            }
            i = i + 1;
        }
        proof {
            lemma_kids_draw_fit(self@.children, dx as int, dy as int);
        }
        true
    }
}

// ---------------------------------------------------------------------------
// executable drawing

/// Truncating division by a positive divisor.
fn div_trunc(a: i64, b: i64) -> (q: i64)
    requires
        b > 0,
        a > i64::MIN,
    ensures
        q == tdiv(a as int, b as int),
{
    if a >= 0 {
        ((a as u64) / (b as u64)) as i64
    } else {
        let n: u64 = (-a) as u64;
        -((n / (b as u64)) as i64)
    }
}

impl ComponentBase {
    /// Size an `iw` x `ih` picture is shown at in this image component:
    /// along an axis in `Cover` mode the component's extent, in `KeepRate`
    /// mode against a covering other axis the picture's aspect ratio applied
    /// to that extent (at least 1), and otherwise the picture's own extent.
    pub fn display_size(&self, iw: i32, ih: i32) -> (r: (i32, i32))
        requires
            self.widget is Image,
            iw >= 1,
            ih >= 1,
            self.widget->Image_0.h_mode == ImageMode::KeepRate && self.widget->Image_0.v_mode == ImageMode::Cover
                ==> i32::MIN <= iw * self.height <= i32::MAX,
            self.widget->Image_0.v_mode == ImageMode::KeepRate && self.widget->Image_0.h_mode == ImageMode::Cover
                ==> i32::MIN <= ih * self.width <= i32::MAX,
        ensures
            (r.0 as int, r.1 as int) == display_size(
                self@,
                iw as int,
                ih as int,
                self.widget->Image_0.h_mode,
                self.widget->Image_0.v_mode,
            ),
    {
        let (h_mode, v_mode) = match &self.widget {
            Widget::Image(img) => (img.h_mode, img.v_mode),
            _ => (ImageMode::Origin, ImageMode::Origin),
        };
        let w: i64 = self.width as i64;
        let h: i64 = self.height as i64;
        let dw: i32 = match h_mode {
            ImageMode::Cover => self.width,
            ImageMode::KeepRate => {
                if v_mode == ImageMode::Cover {
                    let q = div_trunc(iw as i64 * h, ih as i64);
                    proof {
                        lemma_tdiv_bound(iw * h, ih as int);
                    }
                    if q > 1 {
                        q as i32
                    } else {
                        1
                    }
                } else {
                    iw
                }
            },
            _ => iw,
        };
        let dh: i32 = match v_mode {
            ImageMode::Cover => self.height,
            ImageMode::KeepRate => {
                if h_mode == ImageMode::Cover {
                    let q = div_trunc(ih as i64 * w, iw as i64);
                    proof {
                        lemma_tdiv_bound(ih * w, iw as int);
                    }
                    if q > 1 {
                        q as i32
                    } else {
                        1
                    }
                } else {
                    ih
                }
            },
            _ => ih,
        };
        (dw, dh)
    }

    fn draw_list_look(&self, renderer: &mut UIRenderer, dx: i32, dy: i32, item_height: i32, scroll: i32)
        requires
            draw_local(self@, dx as int, dy as int),
            self@.widget == (WidgetView::ScrollList {
                item_height,
                scroll,
                max_scroll: self@.widget->max_scroll,
                selected_id: self@.widget->selected_id,
            }),
        ensures
            final(renderer)@ == list_look(self@, item_height as int, scroll as int, dx as int, dy as int, old(renderer)@),
    {
        let ghost v = self@;
        assert(v.children.len() == self.children@.len());
        renderer.draw_rect(dx, dy, self.width, self.height, (30, 30, 30, 255));
        let n = self.children.len();
        let total: i128 = (n as i128) * (item_height as i128);
        let h: i128 = self.height as i128;
        if total - h > 0 {
            let max: i128 = total - h;
            assert(h * h <= 46340 * 46340) by (nonlinear_arith)
                requires
                    0 <= h <= 46340,
            ;
            assert(total >= 1);
            let q: i64 = div_trunc((h * h) as i64, total as i64);
            proof {
                lemma_square_share(h as int, total as int);
            }
            let bar_h: i64 = if q > 20 { q } else { 20 };
            let track: i64 = self.height as i64 - bar_h;
            assert(abs(scroll as int) * abs(track as int) <= abs(scroll as int) * (self.height + 20)) by (nonlinear_arith)
                requires
                    abs(track as int) <= self.height + 20,
                    abs(scroll as int) >= 0,
            ;
            assert(abs(scroll as int * track as int) == abs(scroll as int) * abs(track as int)) by (nonlinear_arith);
            let prod: i64 = (scroll as i64) * track;
            assert(max >= 1);
            let off: i64 = div_trunc(prod, max as i64);
            assert(abs(off as int) <= abs(prod as int)) by (nonlinear_arith)
                requires
                    off == tdiv(prod as int, max as int),
                    max >= 1,
            {
                if prod >= 0 {
                    assert((prod as int) / (max as int) <= prod as int) by (nonlinear_arith)
                        requires
                            prod >= 0,
                            max >= 1,
                    ;
                } else {
                    assert((-prod as int) / (max as int) <= -prod as int) by (nonlinear_arith)
                        requires
                            -prod >= 0,
                            max >= 1,
                    ;
                }
            }
            let bar_y: i64 = dy as i64 + off;
            let bar_x: i64 = dx as i64 + self.width as i64 - 4 - 2;
            renderer.draw_rect(bar_x as i32, bar_y as i32, 4, bar_h as i32, (100, 100, 100, 255));
        }
    }

    /// Records this component's own look with its top-left corner at `(dx, dy)`.
    pub fn draw_self(&self, renderer: &mut UIRenderer, dx: i32, dy: i32)
        requires
            draw_local(self@, dx as int, dy as int),
        ensures
            final(renderer)@ == draw_self(self@, dx as int, dy as int, old(renderer)@),
    {
        match &self.widget {
            Widget::Label(l) => {
                renderer.draw_text(l.text.as_str(), dx, dy, self.width, self.height, l.font_size, l.color);
            },
            Widget::Button(b) => {
                let bg = if !b.enabled {
                    (80u8, 80u8, 80u8, 255u8)
                } else if self.pressed {
                    (100, 100, 100, 255)
                } else if self.hovered {
                    (140, 140, 140, 255)
                } else {
                    (80, 80, 80, 255)
                };
                renderer.draw_rect(dx, dy, self.width, self.height, bg);
                if !b.enabled {
                    renderer.draw_rect(dx, dy, self.width, self.height, (0, 0, 0, 128));
                }
            },
            Widget::ImageButton(b) => {
                let bg = if !b.enabled {
                    (80u8, 80u8, 80u8, 255u8)
                } else if self.pressed {
                    (100, 100, 100, 255)
                } else if self.hovered {
                    (140, 140, 140, 255)
                } else {
                    (80, 80, 80, 255)
                };
                renderer.draw_rect(dx, dy, self.width, self.height, bg);
                if !b.enabled {
                    renderer.draw_rect(dx, dy, self.width, self.height, (0, 0, 0, 128));
                }
            },
            Widget::Image(img) => {
                match &img.image_data {
                    None => {},
                    Some(d) => {
                        let iw: i64 = d.width as i32 as i64;
                        let ih: i64 = d.height as i32 as i64;
                        let w: i64 = self.width as i64;
                        let h: i64 = self.height as i64;
                        proof {
                            assert(abs(iw * h) == iw * abs(h as int)) by (nonlinear_arith)
                                requires
                                    iw >= 1,
                            ;
                            assert(abs(ih * w) == ih * abs(w as int)) by (nonlinear_arith)
                                requires
                                    ih >= 1,
                            ;
                        }
                        let dw: i64 = match img.h_mode {
                            ImageMode::Cover => w,
                            ImageMode::KeepRate => {
                                if img.v_mode == ImageMode::Cover {
                                    let q = div_trunc(iw * h, ih);
                                    proof {
                                        lemma_tdiv_bound((iw * h) as int, ih as int);
                                    }
                                    if q > 1 {
                                        q
                                    } else {
                                        1
                                    }
                                } else {
                                    iw
                                }
                            },
                            _ => iw,
                        };
                        let dh: i64 = match img.v_mode {
                            ImageMode::Cover => h,
                            ImageMode::KeepRate => {
                                if img.h_mode == ImageMode::Cover {
                                    let q = div_trunc(ih * w, iw);
                                    proof {
                                        lemma_tdiv_bound((ih * w) as int, iw as int);
                                    }
                                    if q > 1 {
                                        q
                                    } else {
                                        1
                                    }
                                } else {
                                    ih
                                }
                            },
                            _ => ih,
                        };
                        let cx = img.h_mode == ImageMode::Centered || img.h_mode == ImageMode::KeepRate;
                        let cy = img.v_mode == ImageMode::Centered || img.v_mode == ImageMode::KeepRate;
                        let ix: i64 = if cx {
                            dx as i64 + div_trunc(w - dw, 2)
                        } else {
                            dx as i64
                        };
                        let iy: i64 = if cy {
                            dy as i64 + div_trunc(h - dh, 2)
                        } else {
                            dy as i64
                        };
                        proof {
                            lemma_tdiv_bound(w - dw, 2);
                            lemma_tdiv_bound(h - dh, 2);
                        }
                        renderer.draw_image(ix as i32, iy as i32, dw as i32, dh as i32, Some(d));
                    },
                }
            },
            Widget::ScrollList(l) => {
                self.draw_list_look(renderer, dx, dy, l.item_height, l.scroll);
            },
            Widget::RendererCanvas(c) => {
                if c.latest.vertex_data.len() > 0 && c.latest.vertex_count > 0 {
                    renderer.draw_renderer_canvas(
                        dx,
                        dy,
                        self.width,
                        self.height,
                        c.shader_wgsl.as_str(),
                        &c.vertex_layout,
                        &c.latest,
                    );
                }
            },
            Widget::ListItem(item) => {
                let (ns, nc, ac) = if item.selected {
                    (22u32, (255u8, 255u8, 100u8), (220u8, 220u8, 220u8))
                } else if self.hovered {
                    (22, (255, 255, 160), (200, 200, 200))
                } else {
                    (20, (255, 255, 255), (160, 160, 160))
                };
                renderer.draw_text(item.title.as_str(), dx, dy + 4, self.width, 24, ns, nc);
                renderer.draw_text(item.author.as_str(), dx, dy + 28, self.width, 20, 14, ac);
            },
            _ => {},
        }
    }

    /// Draws this component and its descendants, with its parent's top-left
    /// corner at `(offset_x, offset_y)`.
    pub fn draw(&self, renderer: &mut UIRenderer, offset_x: i32, offset_y: i32)
        requires
            draw_fits(self@, offset_x as int, offset_y as int),
        ensures
            final(renderer)@ == draw_node(self@, offset_x as int, offset_y as int, old(renderer)@),
        decreases self,
    {
        let ghost v = self@;
        let dx = self.x + offset_x;
        let dy = self.y + offset_y;
        self.draw_self(renderer, dx, dy);
        let limit: Option<i32> = match &self.widget {
            Widget::ScrollList(_) => Some(self.height),
            _ => None,
        };
        let is_list = limit.is_some();
        if is_list {
            renderer.push_clip(dx, dy, self.width, self.height);
        }
        let ghost r0 = renderer@;
        let ghost lim: Option<int> = match limit {
            Some(h) => Some(h as int),
            None => None,
        };
        proof {
            lemma_kids_draw_fit(v.children, dx as int, dy as int);
        }
        let n = self.children.len();
        let mut i: usize = 0;
        while i < n
            invariant
                i <= n == self.children@.len() == v.children.len(),
                v == self@,
                forall|j: int| 0 <= j < n ==> #[trigger] draw_fits(v.children[j], dx as int, dy as int),
                draw_kids(v.children, 0, dx as int, dy as int, lim, r0) == draw_kids(
                    v.children,
                    i as int,
                    dx as int,
                    dy as int,
                    lim,
                    renderer@,
                ),
                lim == (match limit {
                    Some(h) => Some(h as int),
                    None => None,
                }),
            decreases n - i,
        {
            proof {
                lemma_view_child(*self, i as int);
                assert(decreases_to!(self => self.children));
                assert(decreases_to!(self.children => self.children@));
                assert(decreases_to!(self.children@ => self.children@[i as int]));
            }
            let c = &self.children[i];
            let shown = match limit {
                None => true,
                Some(h) => -(c.height as i64) < c.y as i64 && (c.y as i64) < h as i64,
            };
            if shown {
                c.draw(renderer, dx, dy);
            }
            i = i + 1;
        }
        if is_list {
            renderer.pop_clip();
        }
    }

    /// Draws the debug outline of this component and its descendants when
    /// `enabled`, with its parent's top-left corner at `(offset_x, offset_y)`.
    pub fn draw_debug(&self, renderer: &mut UIRenderer, enabled: bool, offset_x: i32, offset_y: i32)
        requires
            draw_fits(self@, offset_x as int, offset_y as int),
        ensures
            enabled ==> final(renderer)@ == debug_node(self@, offset_x as int, offset_y as int, old(renderer)@),
            !enabled ==> final(renderer)@ == old(renderer)@,
        decreases self,
    {
        if !enabled {
            return;
        }
        let ghost v = self@;
        let dx = self.x + offset_x;
        let dy = self.y + offset_y;
        let w = if self.width > 0 { self.width } else { 0 };
        let h = if self.height > 0 { self.height } else { 0 };
        let c = self.debug_border_color;
        renderer.draw_rect(dx, dy, w, 2, c);
        renderer.draw_rect(dx, dy + h - 2, w, 2, c);
        renderer.draw_rect(dx, dy, 2, h, c);
        renderer.draw_rect(dx + w - 2, dy, 2, h, c);
        let ghost r0 = renderer@;
        proof {
            lemma_kids_draw_fit(v.children, dx as int, dy as int);
        }
        let n = self.children.len();
        let mut i: usize = 0;
        while i < n
            invariant
                i <= n == self.children@.len() == v.children.len(),
                v == self@,
                forall|j: int| 0 <= j < n ==> #[trigger] draw_fits(v.children[j], dx as int, dy as int),
                debug_kids(v.children, 0, dx as int, dy as int, r0) == debug_kids(
                    v.children,
                    i as int,
                    dx as int,
                    dy as int,
                    renderer@,
                ),
            decreases n - i,
        {
            proof {
                lemma_view_child(*self, i as int);
                assert(decreases_to!(self => self.children));
                assert(decreases_to!(self.children => self.children@));
                assert(decreases_to!(self.children@ => self.children@[i as int]));
            }
            self.children[i].draw_debug(renderer, true, dx, dy);
            i = i + 1;
        }
    }
}

/// The share `h * h / total` of a list taller than its box is at most `h`.
proof fn lemma_square_share(h: int, total: int)
    requires
        0 <= h < total,
    ensures
        0 <= tdiv(h * h, total) <= h,
{
    assert(h * h <= h * total) by (nonlinear_arith)
        requires
            0 <= h < total,
    ;
    assert(0 <= h * h) by (nonlinear_arith);
    assert((h * h) / total <= (h * total) / total) by (nonlinear_arith)
        requires
            0 <= h * h <= h * total,
            total > 0,
    ;
    assert((h * total) / total == h) by (nonlinear_arith)
        requires
            total > 0,
    ;
    assert((h * h) / total >= 0) by (nonlinear_arith)
        requires
            0 <= h * h,
            total > 0,
    ;
}

/// A truncated quotient is no larger in size than the dividend.
pub proof fn lemma_tdiv_bound(a: int, b: int)
    requires
        b >= 1,
    ensures
        abs(tdiv(a, b)) <= abs(a),
{
    if a >= 0 {
        assert(a / b <= a) by (nonlinear_arith)
            requires
                a >= 0,
                b >= 1,
        ;
        assert(a / b >= 0) by (nonlinear_arith)
            requires
                a >= 0,
                b >= 1,
        ;
    } else {
        assert((-a) / b <= -a) by (nonlinear_arith)
            requires
                -a >= 0,
                b >= 1,
        ;
        assert((-a) / b >= 0) by (nonlinear_arith)
            requires
                -a >= 0,
                b >= 1,
        ;
    }
}

/// Drawing a component's own look never changes the clips.
proof fn lemma_self_keeps_clips(v: ComponentView, dx: int, dy: int, r: RendererView)
    ensures
        draw_self(v, dx, dy, r).clip_stack == r.clip_stack,
{
}

/// Drawing a tree leaves the clips as it found them: every clip a scroll
/// list pushes is popped again.
pub proof fn law_draw_keeps_clips(v: ComponentView, ox: int, oy: int, r: RendererView)
    ensures
        draw_node(v, ox, oy, r).clip_stack == r.clip_stack,
    decreases v, 1int, 0int,
{
    let dx = ox + v.x;
    let dy = oy + v.y;
    lemma_self_keeps_clips(v, dx, dy, r);
    let r1 = draw_self(v, dx, dy, r);
    if v.widget is ScrollList {
        let r2 = r1.with_clip(dx as i32, dy as i32, v.width, v.height);
        lemma_kids_keep_clips(v.children, 0, dx, dy, Some(v.height as int), r2);
        assert(r2.clip_stack.drop_last() =~= r1.clip_stack);
    } else {
        lemma_kids_keep_clips(v.children, 0, dx, dy, None, r1);
    }
}

proof fn lemma_kids_keep_clips(s: Seq<ComponentView>, i: int, dx: int, dy: int, limit: Option<int>, r: RendererView)
    ensures
        draw_kids(s, i, dx, dy, limit, r).clip_stack == r.clip_stack,
    decreases s, 0int, s.len() - i,
{
    if 0 <= i < s.len() {
        let r1 = if visible_in(s[i], limit) {
            law_draw_keeps_clips(s[i], dx, dy, r);
            draw_node(s[i], dx, dy, r)
        } else {
            r
        };
        lemma_kids_keep_clips(s, i + 1, dx, dy, limit, r1);
    }
}

} // verus!
