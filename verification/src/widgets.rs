//! Constructors of the widgets and small helpers to assemble trees.
use vstd::prelude::*;

use crate::component::{
    blank_view, view_of, Button, ComponentBase, ComponentView, Image, ImageButton, Label, ListItem,
    RendererCanvas, ScrollList, Widget, WidgetView,
};
use crate::layout::{Constraintable, Direction};
use crate::types::{
    image_data_view, layout_view, snapshot_view, ImageData, ImageMode, RenderSnapshot,
    VertexLayoutDesc,
};

verus! {

/// A bare component at `(x, y)` of the given size.
pub open spec fn base_view(x: i32, y: i32, w: i32, h: i32) -> ComponentView {
    ComponentView { x, y, width: w, height: h, ..blank_view() }
}

pub open spec fn label_view(text: Seq<char>, x: i32, y: i32, w: i32, h: i32, font_size: u32, color: (u8, u8, u8)) -> ComponentView {
    ComponentView { widget: WidgetView::Label { text, font_size, color }, ..base_view(x, y, w, h) }
}

pub open spec fn button_view(text: Seq<char>, x: i32, y: i32, w: i32, h: i32, font_size: u32) -> ComponentView {
    let caption = ComponentView {
        h_constraint: Constraintable::Unconstrained,
        v_constraint: Constraintable::Minimum,
        ..label_view(text, 0, 0, 0, 0, font_size, (255, 255, 255))
    };
    ComponentView {
        layout_direction: Direction::Vertical,
        children: seq![caption],
        widget: WidgetView::Button { text, font_size, enabled: true },
        ..base_view(x, y, w, h)
    }
}

pub open spec fn spacer_view(w: i32, h: i32) -> ComponentView {
    ComponentView {
        h_constraint: Constraintable::Minimum,
        v_constraint: Constraintable::Minimum,
        debug_border_color: (139, 0, 0, 255),
        widget: WidgetView::Spacer,
        ..base_view(0, 0, w, h)
    }
}

pub open spec fn image_view(
    path: Seq<char>,
    x: i32,
    y: i32,
    w: i32,
    h: i32,
    h_mode: ImageMode,
    v_mode: ImageMode,
    data: Option<ImageData>,
) -> ComponentView {
    ComponentView {
        widget: WidgetView::Image {
            path,
            h_mode,
            v_mode,
            image_data: match data {
                Some(d) => Some(image_data_view(d)),
                None => None,
            },
        },
        ..base_view(x, y, w, h)
    }
}

pub open spec fn image_button_view(
    path: Seq<char>,
    data: Option<ImageData>,
    text: Seq<char>,
    x: i32,
    y: i32,
    w: i32,
    h: i32,
    font_size: u32,
    text_width: i32,
) -> ComponentView {
    let picture = ComponentView {
        h_constraint: Constraintable::Maximum,
        v_constraint: Constraintable::Unconstrained,
        min_width: h,
        max_width: h,
        ..image_view(path, 0, 0, 0, 0, ImageMode::KeepRate, ImageMode::Cover, data)
    };
    let caption = ComponentView {
        h_constraint: Constraintable::Minimum,
        v_constraint: Constraintable::Unconstrained,
        min_width: (text_width + 8) as i32,
        ..label_view(text, 0, 0, 0, 0, font_size, (220, 220, 220))
    };
    ComponentView {
        layout_direction: Direction::Horizontal,
        children: if text.len() > 0 {
            seq![picture, caption]
        } else {
            seq![picture]
        },
        widget: WidgetView::ImageButton { enabled: true },
        ..base_view(x, y, w, h)
    }
}

pub open spec fn scroll_list_view(x: i32, y: i32, w: i32, h: i32, item_height: i32) -> ComponentView {
    ComponentView {
        widget: WidgetView::ScrollList { item_height, scroll: 0, max_scroll: 0, selected_id: None },
        ..base_view(x, y, w, h)
    }
}

pub open spec fn list_item_view(
    x: i32,
    y: i32,
    w: i32,
    h: i32,
    item_id: Seq<char>,
    title: Seq<char>,
    author: Seq<char>,
) -> ComponentView {
    ComponentView {
        item_id: Some(item_id),
        widget: WidgetView::ListItem { title, author, selected: false },
        ..base_view(x, y, w, h)
    }
}

/// The component with the given constraints and minimum sizes.
pub open spec fn tuned_view(
    v: ComponentView,
    h_constraint: Constraintable,
    v_constraint: Constraintable,
    min_width: i32,
    min_height: i32,
) -> ComponentView {
    ComponentView { h_constraint, v_constraint, min_width, min_height, ..v }
}

/// Sets a component's constraints and minimum sizes.
pub fn tuned(
    c: ComponentBase,
    h_constraint: Constraintable,
    v_constraint: Constraintable,
    min_width: i32,
    min_height: i32,
) -> (r: ComponentBase)
    ensures
        r@ == tuned_view(c@, h_constraint, v_constraint, min_width, min_height),
{
    let mut r = c;
    r.h_constraint = h_constraint;
    r.v_constraint = v_constraint;
    r.min_width = min_width;
    r.min_height = min_height;
    proof {
        assert(view_of(r).children =~= view_of(c).children);
    }
    r
}

/// Appends `k` to the children of `c`.
pub fn with_child(c: ComponentBase, k: ComponentBase) -> (r: ComponentBase)
    ensures
        r@ == (ComponentView { children: c@.children.push(k@), ..c@ }),
{
    let mut r = c;
    r.children.push(k);
    proof {
        assert(view_of(r).children =~= view_of(c).children.push(view_of(k)));
    }
    r
}

/// Names a component.
pub fn named(c: ComponentBase, name: &str) -> (r: ComponentBase)
    ensures
        r@ == (ComponentView { name: Some(name@), ..c@ }),
{
    let mut r = c;
    r.name = Some(name.to_owned());
    proof {
        assert(view_of(r).children =~= view_of(c).children);
    }
    r
}

/// Gives a component the key under which its handlers are bound.
pub fn keyed(c: ComponentBase, key: u64) -> (r: ComponentBase)
    ensures
        r@ == (ComponentView { handler_key: key, ..c@ }),
{
    let mut r = c;
    r.handler_key = key;
    proof {
        assert(view_of(r).children =~= view_of(c).children);
    }
    r
}

/// Sets a component's layout direction.
pub fn directed(c: ComponentBase, d: Direction) -> (r: ComponentBase)
    ensures
        r@ == (ComponentView { layout_direction: d, ..c@ }),
{
    let mut r = c;
    r.layout_direction = d;
    proof {
        assert(view_of(r).children =~= view_of(c).children);
    }
    r
}

/// Sets a component's maximum sizes.
pub fn capped(c: ComponentBase, max_width: i32, max_height: i32) -> (r: ComponentBase)
    ensures
        r@ == (ComponentView { max_width, max_height, ..c@ }),
{
    let mut r = c;
    r.max_width = max_width;
    r.max_height = max_height;
    proof {
        assert(view_of(r).children =~= view_of(c).children);
    }
    r
}

fn with_widget(c: ComponentBase, w: Widget) -> (r: ComponentBase)
    ensures
        r@ == (ComponentView { widget: crate::component::widget_view(w), ..c@ }),
{
    let mut r = c;
    r.widget = w;
    proof {
        assert(view_of(r).children =~= view_of(c).children);
    }
    r
}

impl Label {
    /// A line of text.
    pub fn new(text: &str, x: i32, y: i32, width: i32, height: i32, font_size: u32, color: (u8, u8, u8)) -> (c: ComponentBase)
        ensures
            c@ == label_view(text@, x, y, width, height, font_size, color),
    {
        with_widget(
            ComponentBase::new(x, y, width, height),
            Widget::Label(Label { text: text.to_owned(), font_size, color }),
        )
    }
}

impl Button {
    /// A push button whose caption is a white label child.
    pub fn new(text: &str, x: i32, y: i32, width: i32, height: i32, font_size: u32) -> (c: ComponentBase)
        ensures
            c@ == button_view(text@, x, y, width, height, font_size),
    {
        let caption = tuned(
            Label::new(text, 0, 0, 0, 0, font_size, (255, 255, 255)),
            Constraintable::Unconstrained,
            Constraintable::Minimum,
            0,
            0,
        );
        let b = directed(
            with_widget(
                ComponentBase::new(x, y, width, height),
                Widget::Button(Button { text: text.to_owned(), font_size, enabled: true }),
            ),
            Direction::Vertical,
        );
        let r = with_child(b, caption);
        assert(r@.children =~= seq![caption@]);
        r
    }
}

impl crate::component::Spacer {
    /// An empty gap of at least the given size.
    pub fn new(width: i32, height: i32) -> (c: ComponentBase)
        ensures
            c@ == spacer_view(width, height),
    {
        let mut s = with_widget(ComponentBase::new(0, 0, width, height), Widget::Spacer);
        s.debug_border_color = (139, 0, 0, 255);
        let ghost before = s;
        s.h_constraint = Constraintable::Minimum;
        s.v_constraint = Constraintable::Minimum;
        proof {
            assert(view_of(s).children =~= view_of(before).children);
        }
        s
    }
}

impl Image {
    /// A picture component; `data` holds the decoded pixels of `path`, if any.
    pub fn new(
        path: &str,
        x: i32,
        y: i32,
        width: i32,
        height: i32,
        h_mode: ImageMode,
        v_mode: ImageMode,
        data: Option<ImageData>,
    ) -> (c: ComponentBase)
        ensures
            c@ == image_view(path@, x, y, width, height, h_mode, v_mode, data),
    {
        with_widget(
            ComponentBase::new(x, y, width, height),
            Widget::Image(Image { path: path.to_owned(), h_mode, v_mode, image_data: data }),
        )
    }
}

impl ImageButton {
    /// A horizontal button of a square picture (as wide as the button is
    /// tall) and, unless `text` is empty, a caption whose minimum width is
    /// `text_width` plus a margin of 8.
    pub fn new(
        path: &str,
        data: Option<ImageData>,
        text: &str,
        x: i32,
        y: i32,
        width: i32,
        height: i32,
        font_size: u32,
        text_width: i32,
    ) -> (c: ComponentBase)
        requires
            text_width <= i32::MAX - 8,
        ensures
            c@ == image_button_view(path@, data, text@, x, y, width, height, font_size, text_width),
    {
        let img = Image::new(path, 0, 0, 0, 0, ImageMode::KeepRate, ImageMode::Cover, data);
        let picture = capped(
            tuned(img, Constraintable::Maximum, Constraintable::Unconstrained, height, 0),
            height,
            0,
        );
        let b = directed(
            with_widget(ComponentBase::new(x, y, width, height), Widget::ImageButton(ImageButton { enabled: true })),
            Direction::Horizontal,
        );
        let b1 = with_child(b, picture);
        assert(b1@.children =~= seq![picture@]);
        if !text.is_empty() {
            let caption = tuned(
                Label::new(text, 0, 0, 0, 0, font_size, (220, 220, 220)),
                Constraintable::Minimum,
                Constraintable::Unconstrained,
                text_width + 8,
                0,
            );
            let b2 = with_child(b1, caption);
            assert(text@.len() > 0);
            assert(b2@.children =~= seq![picture@, caption@]);
            b2
        } else {
            assert(text@.len() == 0);
            b1
        }
    }
}

impl ScrollList {
    /// An empty scroll list of items `item_height` tall.
    pub fn new(x: i32, y: i32, width: i32, height: i32, item_height: i32) -> (c: ComponentBase)
        ensures
            c@ == scroll_list_view(x, y, width, height, item_height),
    {
        with_widget(
            ComponentBase::new(x, y, width, height),
            Widget::ScrollList(ScrollList { item_height, scroll: 0, max_scroll: 0, selected_id: None }),
        )
    }
}

impl RendererCanvas {
    /// A canvas drawn with `shader_wgsl`, showing nothing until a snapshot arrives.
    pub fn new(shader_wgsl: &str, vertex_layout: VertexLayoutDesc, x: i32, y: i32, width: i32, height: i32) -> (c: ComponentBase)
        ensures
            c@ == (ComponentView {
                widget: WidgetView::RendererCanvas {
                    shader_wgsl: shader_wgsl@,
                    vertex_layout: layout_view(vertex_layout),
                    latest: crate::types::SnapshotView {
                        vertex_data: seq![],
                        index_data: seq![],
                        vertex_count: 0,
                        index_count: 0,
                        texture: None,
                        uniform_data: seq![],
                    },
                },
                ..base_view(x, y, width, height)
            }),
    {
        let latest = RenderSnapshot::empty();
        let r = with_widget(
            ComponentBase::new(x, y, width, height),
            Widget::RendererCanvas(RendererCanvas { shader_wgsl: shader_wgsl.to_owned(), vertex_layout, latest }),
        );
        assert(snapshot_view(latest).vertex_data =~= Seq::<u8>::empty());
        assert(snapshot_view(latest).index_data =~= Seq::<u32>::empty());
        assert(snapshot_view(latest).uniform_data =~= Seq::<u8>::empty());
        r
    }

    /// The shader source.
    pub fn shader_wgsl(&self) -> (s: &str)
        ensures
            s@ == self.shader_wgsl@,
    {
        self.shader_wgsl.as_str()
    }

    /// The vertex layout.
    pub fn vertex_layout(&self) -> (l: &VertexLayoutDesc)
        ensures
            *l == self.vertex_layout,
    {
        &self.vertex_layout
    }

    /// The most recent snapshot received.
    pub fn latest_snapshot(&self) -> (s: &RenderSnapshot)
        ensures
            *s == self.latest,
    {
        &self.latest
    }

    /// Takes in the snapshots sent since the last frame, in order; the last one is kept.
    pub fn receive(&mut self, snapshots: Vec<RenderSnapshot>)
        ensures
            snapshots@.len() == 0 ==> final(self).latest == old(self).latest,
            snapshots@.len() > 0 ==> final(self).latest == snapshots@.last(),
            final(self).shader_wgsl == old(self).shader_wgsl,
            final(self).vertex_layout == old(self).vertex_layout,
    {
        let mut rest = snapshots;
        let n = rest.len();
        if n > 0 {
            let last = rest.pop().unwrap();
            self.latest = last;
        }
    }
}

impl ListItem {
    /// An entry of the music list with its id, title and author.
    pub fn new(
        x: i32,
        y: i32,
        width: i32,
        height: i32,
        item_id: &str,
        title: &str,
        author: &str,
    ) -> (c: ComponentBase)
        ensures
            c@ == list_item_view(x, y, width, height, item_id@, title@, author@),
    {
        let mut c = with_widget(
            ComponentBase::new(x, y, width, height),
            Widget::ListItem(ListItem { title: title.to_owned(), author: author.to_owned(), selected: false }),
        );
        let ghost before = c;
        c.item_id = Some(item_id.to_owned());
        proof {
            assert(view_of(c).children =~= view_of(before).children);
        }
        c
    }
}

impl ComponentBase {
    /// Replaces the picture of an image component with `path` and its decoded pixels.
    pub fn set_image(&mut self, path: &str, data: Option<ImageData>)
        ensures
            old(self)@.widget matches WidgetView::Image { h_mode, v_mode, .. } ==> final(self)@ == (
            ComponentView {
                widget: WidgetView::Image {
                    path: path@,
                    h_mode,
                    v_mode,
                    image_data: match data {
                        Some(d) => Some(image_data_view(d)),
                        None => None,
                    },
                },
                ..old(self)@
            }),
            !(old(self)@.widget is Image) ==> final(self)@ == old(self)@,
    {
        match &mut self.widget {
            Widget::Image(img) => {
                img.path = path.to_owned();
                img.image_data = data;
            },
            _ => {},
        }
        proof {
            assert(view_of(*self).children =~= view_of(*old(self)).children);
        }
    }
}

} // verus!
