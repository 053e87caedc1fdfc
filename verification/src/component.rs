//! The component tree: every node carries its geometry, layout constraints,
//! pointer state and the data of the widget it shows.
use vstd::prelude::*;

use crate::layout::{Constraintable, Direction};
use crate::types::{
    clone_image_data, clone_layout, clone_snapshot, clone_u32s, image_data_view, layout_view,
    snapshot_view, ImageData, ImageDataView, ImageMode, LayoutView, RenderSnapshot, SnapshotView,
    VertexLayoutDesc,
};

verus! {

/// A pointer button.
#[derive(Debug, Clone, Copy, PartialEq, Eq, Structural)]
pub enum MouseButton {
    Left,
    Right,
    Middle,
    Back,
    Forward,
    Other(u16),
}

/// A text label.
#[derive(Debug)]
pub struct Label {
    pub text: String,
    pub font_size: u32,
    pub color: (u8, u8, u8),
}

/// An empty gap in a layout.
pub struct Spacer;

/// A push button whose caption is its first child.
#[derive(Debug)]
pub struct Button {
    pub text: String,
    pub font_size: u32,
    pub enabled: bool,
}

/// A picture fitted into the component.
#[derive(Debug)]
pub struct Image {
    pub path: String,
    pub h_mode: ImageMode,
    pub v_mode: ImageMode,
    /// Decoded pixels; `None` when the path is empty or could not be loaded.
    pub image_data: Option<ImageData>,
}

/// A button made of a picture and an optional caption.
#[derive(Debug)]
pub struct ImageButton {
    pub enabled: bool,
}

/// A vertically scrolling list of equally tall items.
#[derive(Debug)]
pub struct ScrollList {
    pub item_height: i32,
    pub scroll: i32,
    pub max_scroll: i32,
    pub selected_id: Option<String>,
}

/// A canvas drawn with a caller-supplied shader.
#[derive(Debug)]
pub struct RendererCanvas {
    pub shader_wgsl: String,
    pub vertex_layout: VertexLayoutDesc,
    /// The most recent snapshot received.
    pub latest: RenderSnapshot,
}

/// An entry of the music list: title over author.
#[derive(Debug)]
pub struct ListItem {
    pub title: String,
    pub author: String,
    /// Whether this entry is the music currently chosen.
    pub selected: bool,
}

/// What a component shows and how it reacts beyond the common behaviour.
#[derive(Debug)]
pub enum Widget {
    Container,
    Label(Label),
    Button(Button),
    Spacer,
    Image(Image),
    ImageButton(ImageButton),
    ScrollList(ScrollList),
    RendererCanvas(RendererCanvas),
    ListItem(ListItem),
}

/// A node of the component tree.
#[derive(Debug)]
pub struct ComponentBase {
    pub x: i32,
    pub y: i32,
    pub width: i32,
    pub height: i32,
    pub min_width: i32,
    pub min_height: i32,
    pub max_width: i32,
    pub max_height: i32,
    pub h_constraint: Constraintable,
    pub v_constraint: Constraintable,
    pub layout_direction: Direction,
    pub centered_horizontal: bool,
    pub centered_vertical: bool,
    pub hovered: bool,
    pub pressed: bool,
    pub pressed_button: Option<MouseButton>,
    pub pressed_keys: Vec<u32>,
    /// Last pointer position seen, in the parent's coordinates.
    pub cursor_x: i64,
    pub cursor_y: i64,
    pub children: Vec<ComponentBase>,
    pub debug_border_color: (u8, u8, u8, u8),
    pub item_id: Option<String>,
    pub name: Option<String>,
    /// Key under which the application keeps this component's handlers (0: none).
    pub handler_key: u64,
    pub widget: Widget,
}

/// Mathematical value of a component tree.
pub struct ComponentView {
    pub x: i32,
    pub y: i32,
    pub width: i32,
    pub height: i32,
    pub min_width: i32,
    pub min_height: i32,
    pub max_width: i32,
    pub max_height: i32,
    pub h_constraint: Constraintable,
    pub v_constraint: Constraintable,
    pub layout_direction: Direction,
    pub centered_horizontal: bool,
    pub centered_vertical: bool,
    pub hovered: bool,
    pub pressed: bool,
    pub pressed_button: Option<MouseButton>,
    pub pressed_keys: Seq<u32>,
    pub cursor_x: i64,
    pub cursor_y: i64,
    pub children: Seq<ComponentView>,
    pub debug_border_color: (u8, u8, u8, u8),
    pub item_id: Option<Seq<char>>,
    pub name: Option<Seq<char>>,
    pub handler_key: u64,
    pub widget: WidgetView,
}

/// Mathematical value of a widget's data.
pub enum WidgetView {
    Container,
    Label { text: Seq<char>, font_size: u32, color: (u8, u8, u8) },
    Button { text: Seq<char>, font_size: u32, enabled: bool },
    Spacer,
    Image {
        path: Seq<char>,
        h_mode: ImageMode,
        v_mode: ImageMode,
        image_data: Option<ImageDataView>,
    },
    ImageButton { enabled: bool },
    ScrollList {
        item_height: i32,
        scroll: i32,
        max_scroll: i32,
        selected_id: Option<Seq<char>>,
    },
    RendererCanvas { shader_wgsl: Seq<char>, vertex_layout: LayoutView, latest: SnapshotView },
    ListItem { title: Seq<char>, author: Seq<char>, selected: bool },
}

/// The characters of an optional string.
pub open spec fn opt_str(s: Option<String>) -> Option<Seq<char>> {
    match s {
        Some(t) => Some(t@),
        None => None,
    }
}

pub open spec fn widget_view(w: Widget) -> WidgetView {
    match w {
        Widget::Container => WidgetView::Container,
        Widget::Label(l) => WidgetView::Label { text: l.text@, font_size: l.font_size, color: l.color },
        Widget::Button(b) => WidgetView::Button {
            text: b.text@,
            font_size: b.font_size,
            enabled: b.enabled,
        },
        Widget::Spacer => WidgetView::Spacer,
        Widget::Image(i) => WidgetView::Image {
            path: i.path@,
            h_mode: i.h_mode,
            v_mode: i.v_mode,
            image_data: match i.image_data {
                Some(d) => Some(image_data_view(d)),
                None => None,
            },
        },
        Widget::ImageButton(b) => WidgetView::ImageButton { enabled: b.enabled },
        Widget::ScrollList(l) => WidgetView::ScrollList {
            item_height: l.item_height,
            scroll: l.scroll,
            max_scroll: l.max_scroll,
            selected_id: opt_str(l.selected_id),
        },
        Widget::RendererCanvas(c) => WidgetView::RendererCanvas {
            shader_wgsl: c.shader_wgsl@,
            vertex_layout: layout_view(c.vertex_layout),
            latest: snapshot_view(c.latest),
        },
        Widget::ListItem(i) => WidgetView::ListItem {
            title: i.title@,
            author: i.author@,
            selected: i.selected,
        },
    }
}

/// A view with nothing in it, used where an index is out of range.
pub open spec fn blank_view() -> ComponentView {
    ComponentView {
        x: 0,
        y: 0,
        width: 0,
        height: 0,
        min_width: 0,
        min_height: 0,
        max_width: 0,
        max_height: 0,
        h_constraint: Constraintable::Unconstrained,
        v_constraint: Constraintable::Unconstrained,
        layout_direction: Direction::Vertical,
        centered_horizontal: true,
        centered_vertical: true,
        hovered: false,
        pressed: false,
        pressed_button: None,
        pressed_keys: Seq::empty(),
        cursor_x: 0,
        cursor_y: 0,
        children: Seq::empty(),
        debug_border_color: (0, 255, 0, 255),
        item_id: None,
        name: None,
        handler_key: 0,
        widget: WidgetView::Container,
    }
}

pub open spec fn view_of(n: ComponentBase) -> ComponentView
    decreases n,
{
    ComponentView {
        x: n.x,
        y: n.y,
        width: n.width,
        height: n.height,
        min_width: n.min_width,
        min_height: n.min_height,
        max_width: n.max_width,
        max_height: n.max_height,
        h_constraint: n.h_constraint,
        v_constraint: n.v_constraint,
        layout_direction: n.layout_direction,
        centered_horizontal: n.centered_horizontal,
        centered_vertical: n.centered_vertical,
        hovered: n.hovered,
        pressed: n.pressed,
        pressed_button: n.pressed_button,
        pressed_keys: n.pressed_keys@,
        cursor_x: n.cursor_x,
        cursor_y: n.cursor_y,
        children: Seq::new(
            n.children@.len(),
            |i: int|
                if 0 <= i < n.children@.len() {
                    view_of(n.children@[i])
                } else {
                    blank_view()
                },
        ),
        debug_border_color: n.debug_border_color,
        item_id: opt_str(n.item_id),
        name: opt_str(n.name),
        handler_key: n.handler_key,
        widget: widget_view(n.widget),
    }
}

/// Views of a sequence of components.
pub open spec fn views(s: Seq<ComponentBase>) -> Seq<ComponentView> {
    Seq::new(s.len(), |i: int| if 0 <= i < s.len() { view_of(s[i]) } else { blank_view() })
}

/// The children of a view are the views of the children.
pub proof fn lemma_views_children(n: ComponentBase)
    ensures
        view_of(n).children == views(n.children@),
{
    assert(view_of(n).children =~= views(n.children@));
}

impl View for ComponentBase {
    type V = ComponentView;

    open spec fn view(&self) -> ComponentView {
        view_of(*self)
    }
}

/// The view of a child is the child of the view.
pub proof fn lemma_view_child(n: ComponentBase, i: int)
    requires
        0 <= i < n.children@.len(),
    ensures
        view_of(n).children[i] == view_of(n.children@[i]),
        view_of(n).children.len() == n.children@.len(),
{
}

impl ComponentBase {
    /// A component at `(x, y)` of the given size, unconstrained, with no children.
    pub fn new(x: i32, y: i32, width: i32, height: i32) -> (c: Self)
        ensures
            c@ == (ComponentView { x, y, width, height, ..blank_view() }),
    {
        let c = ComponentBase {
            x,
            y,
            width,
            height,
            min_width: 0,
            min_height: 0,
            max_width: 0,
            max_height: 0,
            h_constraint: Constraintable::Unconstrained,
            v_constraint: Constraintable::Unconstrained,
            layout_direction: Direction::Vertical,
            centered_horizontal: true,
            centered_vertical: true,
            hovered: false,
            pressed: false,
            pressed_button: None,
            pressed_keys: Vec::new(),
            cursor_x: 0,
            cursor_y: 0,
            children: Vec::new(),
            debug_border_color: (0, 255, 0, 255),
            item_id: None,
            name: None,
            handler_key: 0,
            widget: Widget::Container,
        };
        assert(c@.children =~= Seq::<ComponentView>::empty());
        assert(c@.pressed_keys =~= Seq::<u32>::empty());
        c
    }

    /// Whether the pointer is hovering over this component.
    pub fn hovered(&self) -> (r: bool)
        ensures
            r == self.hovered,
    {
        self.hovered
    }

    /// Whether a pointer button went down on this component and is still held.
    pub fn pressed(&self) -> (r: bool)
        ensures
            r == self.pressed,
    {
        self.pressed
    }

    /// Whether a point in this component's own coordinates lies inside it
    /// (edges included).
    pub fn in_rect(&self, px: i64, py: i64) -> (r: bool)
        ensures
            r == in_rect_spec(self@, px as int, py as int),
    {
        px >= 0 && px <= self.width as i64 && py >= 0 && py <= self.height as i64
    }
}

pub open spec fn in_rect_spec(v: ComponentView, px: int, py: int) -> bool {
    0 <= px <= v.width && 0 <= py <= v.height
}

fn copy_opt_string(s: &Option<String>) -> (r: Option<String>)
    ensures
        r == *s,
{
    match s {
        Some(t) => Some(t.clone()),
        None => None,
    }
}

/// A copy of a widget's data.
pub fn copy_widget(w: &Widget) -> (r: Widget)
    ensures
        widget_view(r) == widget_view(*w),
{
    match w {
        Widget::Container => Widget::Container,
        Widget::Label(l) => Widget::Label(
            Label { text: l.text.clone(), font_size: l.font_size, color: l.color },
        ),
        Widget::Button(b) => Widget::Button(
            Button { text: b.text.clone(), font_size: b.font_size, enabled: b.enabled },
        ),
        Widget::Spacer => Widget::Spacer,
        Widget::Image(i) => Widget::Image(
            Image {
                path: i.path.clone(),
                h_mode: i.h_mode,
                v_mode: i.v_mode,
                image_data: match &i.image_data {
                    Some(d) => Some(clone_image_data(d)),
                    None => None,
                },
            },
        ),
        Widget::ImageButton(b) => Widget::ImageButton(ImageButton { enabled: b.enabled }),
        Widget::ScrollList(l) => Widget::ScrollList(
            ScrollList {
                item_height: l.item_height,
                scroll: l.scroll,
                max_scroll: l.max_scroll,
                selected_id: copy_opt_string(&l.selected_id),
            },
        ),
        Widget::RendererCanvas(c) => Widget::RendererCanvas(
            RendererCanvas {
                shader_wgsl: c.shader_wgsl.clone(),
                vertex_layout: clone_layout(&c.vertex_layout),
                latest: clone_snapshot(&c.latest),
            },
        ),
        Widget::ListItem(i) => Widget::ListItem(
            ListItem { title: i.title.clone(), author: i.author.clone(), selected: i.selected },
        ),
    }
}

impl ComponentBase {
    /// A copy of the whole tree.
    pub fn duplicate(&self) -> (c: Self)
        ensures
            c@ == self@,
        decreases self,
    {
        let mut children: Vec<ComponentBase> = Vec::new();
        let n = self.children.len();
        let mut i: usize = 0;
        while i < n
            invariant
                i <= n == self.children@.len(),
                children@.len() == i,
                forall|j: int| 0 <= j < i ==> view_of(#[trigger] children@[j]) == view_of(self.children@[j]),
            decreases n - i,
        {
            proof {
                assert(decreases_to!(self => self.children));
                assert(decreases_to!(self.children => self.children@));
                assert(decreases_to!(self.children@ => self.children@[i as int]));
            }
            let k = self.children[i].duplicate();
            children.push(k);
            i = i + 1;
        }
        let c = ComponentBase {
            x: self.x,
            y: self.y,
            width: self.width,
            height: self.height,
            min_width: self.min_width,
            min_height: self.min_height,
            max_width: self.max_width,
            max_height: self.max_height,
            h_constraint: self.h_constraint,
            v_constraint: self.v_constraint,
            layout_direction: self.layout_direction,
            centered_horizontal: self.centered_horizontal,
            centered_vertical: self.centered_vertical,
            hovered: self.hovered,
            pressed: self.pressed,
            pressed_button: self.pressed_button,
            pressed_keys: clone_u32s(&self.pressed_keys),
            cursor_x: self.cursor_x,
            cursor_y: self.cursor_y,
            children,
            debug_border_color: self.debug_border_color,
            item_id: copy_opt_string(&self.item_id),
            name: copy_opt_string(&self.name),
            handler_key: self.handler_key,
            widget: copy_widget(&self.widget),
        };
        proof {
            assert forall|j: int| 0 <= j < n implies view_of(c).children[j] == view_of(*self).children[j] by {
                lemma_view_child(c, j);
                lemma_view_child(*self, j);
            }
            assert(view_of(c).children =~= view_of(*self).children);
        }
        c
    }
}

} // verus!
