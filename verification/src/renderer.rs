//! The draw list a frame is recorded into, with its stack of clip rectangles.
use vstd::prelude::*;

use crate::types::{
    clone_image_data, clone_layout, clone_snapshot, image_data_view, layout_view, snapshot_view,
    DrawCompute, DrawImage, DrawRect, DrawRendererCanvas, DrawText, ImageData, ImageDataView,
    LayoutView, RenderSnapshot, SnapshotView, VertexLayoutDesc,
};

verus! {

/// Value of a text draw.
pub struct TextView {
    pub text: Seq<char>,
    pub x: i32,
    pub y: i32,
    pub w: i32,
    pub h: i32,
    pub font_size: u32,
    pub color: (u8, u8, u8),
    pub clip_rect: Option<(u32, u32, u32, u32)>,
}

pub open spec fn text_view(t: DrawText) -> TextView {
    TextView {
        text: t.text@,
        x: t.x,
        y: t.y,
        w: t.w,
        h: t.h,
        font_size: t.font_size,
        color: t.color,
        clip_rect: t.clip_rect,
    }
}

/// Value of an image draw.
pub struct ImageDrawView {
    pub x: i32,
    pub y: i32,
    pub w: i32,
    pub h: i32,
    pub data: ImageDataView,
    pub clip_rect: Option<(u32, u32, u32, u32)>,
}

pub open spec fn image_draw_view(d: DrawImage) -> ImageDrawView {
    ImageDrawView { x: d.x, y: d.y, w: d.w, h: d.h, data: image_data_view(d.data), clip_rect: d.clip_rect }
}

/// Value of a custom-shader draw.
pub struct CustomDrawView {
    pub x: i32,
    pub y: i32,
    pub w: i32,
    pub h: i32,
    pub clip_rect: Option<(u32, u32, u32, u32)>,
    pub shader_wgsl: Seq<char>,
    pub vertex_layout: LayoutView,
    pub snapshot: SnapshotView,
}

pub open spec fn custom_draw_view(d: DrawRendererCanvas) -> CustomDrawView {
    CustomDrawView {
        x: d.x,
        y: d.y,
        w: d.w,
        h: d.h,
        clip_rect: d.clip_rect,
        shader_wgsl: d.shader_wgsl@,
        vertex_layout: layout_view(d.vertex_layout),
        snapshot: snapshot_view(d.snapshot),
    }
}

/// Value of a draw list.
pub struct RendererView {
    pub rects: Seq<DrawRect>,
    pub texts: Seq<TextView>,
    pub images: Seq<ImageDrawView>,
    pub custom_draws: Seq<CustomDrawView>,
    pub clip_stack: Seq<(i32, i32, i32, i32)>,
}

/// The clip a draw recorded now carries: the innermost clip, negative parts
/// cut to zero, or none outside any clip.
pub open spec fn clip_of(clips: Seq<(i32, i32, i32, i32)>) -> Option<(u32, u32, u32, u32)> {
    if clips.len() == 0 {
        None
    } else {
        let c = clips.last();
        Some((nonneg(c.0), nonneg(c.1), nonneg(c.2), nonneg(c.3)))
    }
}

pub open spec fn nonneg(v: i32) -> u32 {
    if v < 0 {
        0
    } else {
        v as u32
    }
}

/// The clip pushed for `(x, y, w, h)`: the rectangle itself outside any clip,
/// otherwise its intersection with the innermost clip (empty sizes become zero).
pub open spec fn pushed_clip(clips: Seq<(i32, i32, i32, i32)>, x: int, y: int, w: int, h: int) -> (
    int,
    int,
    int,
    int,
) {
    if clips.len() == 0 {
        (x, y, w, h)
    } else {
        let c = clips.last();
        let nx = if x > c.0 {
            x
        } else {
            c.0 as int
        };
        let ny = if y > c.1 {
            y
        } else {
            c.1 as int
        };
        let ex = if x + w < c.0 + c.2 {
            x + w
        } else {
            c.0 + c.2
        };
        let ey = if y + h < c.1 + c.3 {
            y + h
        } else {
            c.1 + c.3
        };
        (nx, ny, if ex - nx > 0 {
            ex - nx
        } else {
            0
        }, if ey - ny > 0 {
            ey - ny
        } else {
            0
        })
    }
}

impl RendererView {
    pub open spec fn with_rect(self, x: i32, y: i32, w: i32, h: i32, color: (u8, u8, u8, u8)) -> Self {
        RendererView {
            rects: self.rects.push(
                DrawRect { x, y, w, h, color, clip_rect: clip_of(self.clip_stack) },
            ),
            ..self
        }
    }

    pub open spec fn with_text(
        self,
        text: Seq<char>,
        x: i32,
        y: i32,
        w: i32,
        h: i32,
        font_size: u32,
        color: (u8, u8, u8),
    ) -> Self {
        RendererView {
            texts: self.texts.push(
                TextView { text, x, y, w, h, font_size, color, clip_rect: clip_of(self.clip_stack) },
            ),
            ..self
        }
    }

    pub open spec fn with_image(
        self,
        x: i32,
        y: i32,
        w: i32,
        h: i32,
        data: Option<ImageDataView>,
    ) -> Self {
        match data {
            Some(d) => RendererView {
                images: self.images.push(
                    ImageDrawView { x, y, w, h, data: d, clip_rect: clip_of(self.clip_stack) },
                ),
                ..self
            },
            None => self,
        }
    }

    pub open spec fn with_custom(
        self,
        x: i32,
        y: i32,
        w: i32,
        h: i32,
        shader_wgsl: Seq<char>,
        vertex_layout: LayoutView,
        snapshot: SnapshotView,
    ) -> Self {
        RendererView {
            custom_draws: self.custom_draws.push(
                CustomDrawView {
                    x,
                    y,
                    w,
                    h,
                    clip_rect: clip_of(self.clip_stack),
                    shader_wgsl,
                    vertex_layout,
                    snapshot,
                },
            ),
            ..self
        }
    }

    pub open spec fn with_clip(self, x: i32, y: i32, w: i32, h: i32) -> Self {
        let c = pushed_clip(self.clip_stack, x as int, y as int, w as int, h as int);
        RendererView {
            clip_stack: self.clip_stack.push((c.0 as i32, c.1 as i32, c.2 as i32, c.3 as i32)),
            ..self
        }
    }

    pub open spec fn without_clip(self) -> Self {
        RendererView {
            clip_stack: if self.clip_stack.len() == 0 {
                self.clip_stack
            } else {
                self.clip_stack.drop_last()
            },
            ..self
        }
    }
}

/// Collects the draws of one frame.
pub struct UIRenderer {
    pub rects: Vec<DrawRect>,
    pub texts: Vec<DrawText>,
    pub images: Vec<DrawImage>,
    pub custom_draws: Vec<DrawRendererCanvas>,
    pub clip_stack: Vec<(i32, i32, i32, i32)>,
}

impl View for UIRenderer {
    type V = RendererView;

    open spec fn view(&self) -> RendererView {
        RendererView {
            rects: self.rects@,
            texts: self.texts@.map_values(|t: DrawText| text_view(t)),
            images: self.images@.map_values(|d: DrawImage| image_draw_view(d)),
            custom_draws: self.custom_draws@.map_values(|d: DrawRendererCanvas| custom_draw_view(d)),
            clip_stack: self.clip_stack@,
        }
    }
}

impl UIRenderer {
    /// An empty draw list.
    pub fn new() -> (r: Self)
        ensures
            r@.rects.len() == 0 && r@.texts.len() == 0 && r@.images.len() == 0
                && r@.custom_draws.len() == 0 && r@.clip_stack.len() == 0,
    {
        UIRenderer {
            rects: Vec::new(),
            texts: Vec::new(),
            images: Vec::new(),
            custom_draws: Vec::new(),
            clip_stack: Vec::new(),
        }
    }

    /// Forgets every draw and clip.
    pub fn clear(&mut self)
        ensures
            final(self)@.rects.len() == 0 && final(self)@.texts.len() == 0 && final(self)@.images.len() == 0 && final(self)@.custom_draws.len() == 0 && final(self)@.clip_stack.len() == 0,
    {
        self.rects.clear();
        self.texts.clear();
        self.images.clear();
        self.custom_draws.clear();
        self.clip_stack.clear();
    }

    fn current_clip(&self) -> (r: Option<(u32, u32, u32, u32)>)
        ensures
            r == clip_of(self.clip_stack@),
    {
        let n = self.clip_stack.len();
        if n == 0 {
            None
        } else {
            let c = self.clip_stack[n - 1];
            Some(
                (
                    if c.0 < 0 { 0 } else { c.0 as u32 },
                    if c.1 < 0 { 0 } else { c.1 as u32 },
                    if c.2 < 0 { 0 } else { c.2 as u32 },
                    if c.3 < 0 { 0 } else { c.3 as u32 },
                ),
            )
        }
    }

    /// Narrows drawing to `(x, y, w, h)` within the current clip.
    pub fn push_clip(&mut self, x: i32, y: i32, w: i32, h: i32)
        ensures
            final(self)@ == old(self)@.with_clip(x, y, w, h),
    {
        let n = self.clip_stack.len();
        let clip = if n > 0 {
            let (cx, cy, cw, ch) = self.clip_stack[n - 1];
            let nx: i64 = if x > cx { x as i64 } else { cx as i64 };
            let ny: i64 = if y > cy { y as i64 } else { cy as i64 };
            let ex: i64 = if (x as i64) + (w as i64) < (cx as i64) + (cw as i64) {
                (x as i64) + (w as i64)
            } else {
                (cx as i64) + (cw as i64)
            };
            let ey: i64 = if (y as i64) + (h as i64) < (cy as i64) + (ch as i64) {
                (y as i64) + (h as i64)
            } else {
                (cy as i64) + (ch as i64)
            };
            let nw: i64 = if ex - nx > 0 { ex - nx } else { 0 };
            let nh: i64 = if ey - ny > 0 { ey - ny } else { 0 };
            (nx as i32, ny as i32, nw as i32, nh as i32)
        } else {
            (x, y, w, h)
        };
        self.clip_stack.push(clip);
        proof {
            let v = self@;
            assert(v.texts =~= old(self)@.texts);
            assert(v.images =~= old(self)@.images);
            assert(v.custom_draws =~= old(self)@.custom_draws);
        }
    }

    /// Restores the clip in force before the last `push_clip`.
    pub fn pop_clip(&mut self)
        ensures
            final(self)@ == old(self)@.without_clip(),
    {
        self.clip_stack.pop();
        proof {
            let v = self@;
            assert(v.texts =~= old(self)@.texts);
            assert(v.images =~= old(self)@.images);
            assert(v.custom_draws =~= old(self)@.custom_draws);
            if old(self)@.clip_stack.len() > 0 {
                assert(v.clip_stack =~= old(self)@.clip_stack.drop_last());
            }
        }
    }

    /// Records a filled rectangle under the current clip.
    pub fn draw_rect(&mut self, x: i32, y: i32, w: i32, h: i32, color: (u8, u8, u8, u8))
        ensures
            final(self)@ == old(self)@.with_rect(x, y, w, h, color),
    {
        let clip_rect = self.current_clip();
        self.rects.push(DrawRect { x, y, w, h, color, clip_rect });
        proof {
            let v = self@;
            assert(v.texts =~= old(self)@.texts);
            assert(v.images =~= old(self)@.images);
            assert(v.custom_draws =~= old(self)@.custom_draws);
        }
    }

    /// Records a text draw under the current clip.
    pub fn draw_text(
        &mut self,
        text: &str,
        x: i32,
        y: i32,
        w: i32,
        h: i32,
        font_size: u32,
        color: (u8, u8, u8),
    )
        ensures
            final(self)@ == old(self)@.with_text(text@, x, y, w, h, font_size, color),
    {
        let clip_rect = self.current_clip();
        let t = DrawText { text: text.to_owned(), x, y, w, h, font_size, color, clip_rect };
        self.texts.push(t);
        proof {
            let v = self@;
            assert(v.texts =~= old(self)@.texts.push(text_view(t)));
            assert(v.images =~= old(self)@.images);
            assert(v.custom_draws =~= old(self)@.custom_draws);
        }
    }

    /// Records a picture under the current clip; nothing when there is no picture.
    pub fn draw_image(&mut self, x: i32, y: i32, w: i32, h: i32, data: Option<&ImageData>)
        ensures
            final(self)@ == old(self)@.with_image(
                x,
                y,
                w,
                h,
                match data {
                    Some(d) => Some(image_data_view(*d)),
                    None => None,
                },
            ),
    {
        match data {
            Some(d) => {
                let clip_rect = self.current_clip();
                let di = DrawImage { x, y, w, h, data: clone_image_data(d), clip_rect };
                self.images.push(di);
                proof {
                    let v = self@;
                    assert(v.texts =~= old(self)@.texts);
                    assert(v.images =~= old(self)@.images.push(image_draw_view(di)));
                    assert(v.custom_draws =~= old(self)@.custom_draws);
                }
            },
            None => {},
        }
    }

    /// Records a custom-shader draw under the current clip.
    pub fn draw_renderer_canvas(
        &mut self,
        x: i32,
        y: i32,
        w: i32,
        h: i32,
        shader_wgsl: &str,
        vertex_layout: &VertexLayoutDesc,
        snapshot: &RenderSnapshot,
    )
        ensures
            final(self)@ == old(self)@.with_custom(
                x,
                y,
                w,
                h,
                shader_wgsl@,
                layout_view(*vertex_layout),
                snapshot_view(*snapshot),
            ),
    {
        let clip_rect = self.current_clip();
        let d = DrawRendererCanvas {
            x,
            y,
            w,
            h,
            clip_rect,
            shader_wgsl: shader_wgsl.to_owned(),
            vertex_layout: clone_layout(vertex_layout),
            snapshot: clone_snapshot(snapshot),
        };
        self.custom_draws.push(d);
        proof {
            let v = self@;
            assert(v.texts =~= old(self)@.texts);
            assert(v.images =~= old(self)@.images);
            assert(v.custom_draws =~= old(self)@.custom_draws.push(custom_draw_view(d)));
        }
    }
}

/// The draws of one frame, detached from the renderer that recorded them.
///
/// `shaped` holds text already shaped off the main thread, one per text
/// draw; `None` until that has happened.
pub struct FrameDrawList<S> {
    pub rects: Vec<DrawRect>,
    pub texts: Vec<DrawText>,
    pub images: Vec<DrawImage>,
    pub custom_draws: Vec<DrawRendererCanvas>,
    pub compute_draws: Vec<DrawCompute>,
    pub shaped_text_buffers: Option<Vec<S>>,
}

impl<S> FrameDrawList<S> {
    /// An empty frame.
    pub fn new() -> (f: Self)
        ensures
            f.is_empty_spec(),
            f.shaped_text_buffers is None,
    {
        FrameDrawList {
            rects: Vec::new(),
            texts: Vec::new(),
            images: Vec::new(),
            custom_draws: Vec::new(),
            compute_draws: Vec::new(),
            shaped_text_buffers: None,
        }
    }

    pub open spec fn is_empty_spec(&self) -> bool {
        &&& self.rects@.len() == 0
        &&& self.texts@.len() == 0
        &&& self.images@.len() == 0
        &&& self.custom_draws@.len() == 0
        &&& self.compute_draws@.len() == 0
    }

    /// Forgets every draw and any shaped text.
    pub fn clear(&mut self)
        ensures
            final(self).is_empty_spec(),
            final(self).shaped_text_buffers is None,
    {
        self.rects.clear();
        self.texts.clear();
        self.images.clear();
        self.custom_draws.clear();
        self.compute_draws.clear();
        self.shaped_text_buffers = None;
    }

    /// Takes the draws out of `renderer`, leaving it without draws (its clip
    /// stack is kept).
    pub fn from_renderer(renderer: &mut UIRenderer) -> (f: Self)
        ensures
            f.rects@ == old(renderer).rects@,
            f.texts@ == old(renderer).texts@,
            f.images@ == old(renderer).images@,
            f.custom_draws@ == old(renderer).custom_draws@,
            f.compute_draws@.len() == 0,
            f.shaped_text_buffers is None,
            final(renderer).rects@.len() == 0,
            final(renderer).texts@.len() == 0,
            final(renderer).images@.len() == 0,
            final(renderer).custom_draws@.len() == 0,
            final(renderer).clip_stack@ == old(renderer).clip_stack@,
    {
        let mut rects: Vec<DrawRect> = Vec::new();
        let mut texts: Vec<DrawText> = Vec::new();
        let mut images: Vec<DrawImage> = Vec::new();
        let mut custom_draws: Vec<DrawRendererCanvas> = Vec::new();
        std::mem::swap(&mut rects, &mut renderer.rects);
        std::mem::swap(&mut texts, &mut renderer.texts);
        std::mem::swap(&mut images, &mut renderer.images);
        std::mem::swap(&mut custom_draws, &mut renderer.custom_draws);
        FrameDrawList {
            rects,
            texts,
            images,
            custom_draws,
            compute_draws: Vec::new(),
            shaped_text_buffers: None,
        }
    }

    /// Whether the frame holds no draw at all.
    pub fn is_empty(&self) -> (r: bool)
        ensures
            r == self.is_empty_spec(),
    {
        self.rects.len() == 0 && self.texts.len() == 0 && self.images.len() == 0
            && self.custom_draws.len() == 0 && self.compute_draws.len() == 0
    }
}

/// What the background shaper needs for the next frame: the screen size and
/// the text draws to shape.
pub struct FramePrepData {
    pub screen_w: u32,
    pub screen_h: u32,
    pub texts: Vec<DrawText>,
}

/// Values of a sequence of text draws.
pub open spec fn text_views(s: Seq<DrawText>) -> Seq<TextView> {
    s.map_values(|t: DrawText| text_view(t))
}

impl<S> FrameDrawList<S> {
    /// The request for shaping this frame's texts ahead of the next frame, on
    /// a screen of the given size; the texts are copied, the frame is kept.
    pub fn prep_data(&self, screen_w: u32, screen_h: u32) -> (d: FramePrepData)
        ensures
            d.screen_w == screen_w,
            d.screen_h == screen_h,
            text_views(d.texts@) == text_views(self.texts@),
    {
        let mut texts: Vec<DrawText> = Vec::new();
        let n = self.texts.len();
        let mut i: usize = 0;
        while i < n
            invariant
                i <= n == self.texts@.len(),
                texts@.len() == i,
                text_views(texts@) == text_views(self.texts@.take(i as int)),
            decreases n - i,
        {
            let t = self.texts[i].clone();
            let ghost before = texts@;
            texts.push(t);
            proof {
                let a = text_views(texts@);
                let b = text_views(self.texts@.take(i + 1));
                assert(a.len() == b.len());
                assert forall|j: int| 0 <= j < a.len() implies a[j] == b[j] by {
                    if j < i {
                        assert(a[j] == text_views(before)[j]);
                        assert(text_views(before)[j] == text_views(self.texts@.take(i as int))[j]);
                    } else {
                        assert(a[j] == text_view(t));
                    }
                }
                assert(a =~= b);
            }
            i = i + 1;
        }
        assert(self.texts@.take(n as int) =~= self.texts@);
        FramePrepData { screen_w, screen_h, texts }
    }
}

/// Popping a clip after pushing one gives back the clips in force before.
pub proof fn law_pop_undoes_push(r: RendererView, x: i32, y: i32, w: i32, h: i32)
    ensures
        r.with_clip(x, y, w, h).without_clip() == r,
{
    assert(r.with_clip(x, y, w, h).clip_stack.drop_last() =~= r.clip_stack);
}

/// A clip pushed inside another lies within it: it starts no earlier and
/// ends no later on each axis, and its sizes are never negative.
pub proof fn law_nested_clip_within(clips: Seq<(i32, i32, i32, i32)>, x: int, y: int, w: int, h: int)
    requires
        clips.len() > 0,
    ensures
        ({
            let c = clips.last();
            let n = pushed_clip(clips, x, y, w, h);
            &&& n.0 >= c.0 && n.1 >= c.1
            &&& n.2 >= 0 && n.3 >= 0
            &&& n.2 > 0 ==> n.0 + n.2 <= c.0 + c.2
            &&& n.3 > 0 ==> n.1 + n.3 <= c.1 + c.3
        }),
{
}

} // verus!
