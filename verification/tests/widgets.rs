use musesp::component::{ComponentBase, Image, ImageButton, RendererCanvas, Spacer, Widget};
use musesp::gameplay::{build_gameplay, GAME_MENU};
use musesp::pages::{build_home, prepare_home, MenuPage, HOME_START, MENU_CANCEL, MENU_EXIT};
use musesp::music::{build_music_list, prepare_music_list, MUSIC_BACK, MUSIC_LIST, MUSIC_PLAY};
use musesp::renderer::UIRenderer;
use musesp::types::{ImageData, ImageMode, RenderSnapshot, VertexAttribute, VertexFormat, VertexLayoutDesc, VertexStepMode};

fn layout_desc() -> VertexLayoutDesc {
    VertexLayoutDesc {
        array_stride: 8,
        step_mode: VertexStepMode::Vertex,
        attributes: vec![VertexAttribute { format: VertexFormat::Float32x2, offset: 0, shader_location: 0 }],
    }
}

#[test]
fn home_gaps_are_capped_at_two_sevenths() {
    let mut root = ComponentBase::new(0, 0, 1400, 800);
    build_home(&mut root);
    prepare_home(&mut root);
    assert_eq!(root.children[0].max_width, 400);
    assert_eq!(root.children[2].max_width, 400);
    root.layout(None);
    let content = &root.children[1];
    assert_eq!(content.children.len(), 7);
    assert_eq!(content.children[2].handler_key, HOME_START);
    assert_eq!((content.children[2].min_width, content.children[2].min_height), (200, 50));
}

#[test]
fn music_page_has_its_named_parts() {
    let mut root = ComponentBase::new(0, 0, 1100, 700);
    build_music_list(&mut root, None);
    assert_eq!(root.children[0].handler_key, MUSIC_BACK);
    assert_eq!((root.children[0].x, root.children[0].y, root.children[0].width), (16, 16, 44));
    for name in ["spacer_left", "spacer_right", "scroll_list", "detail", "cover", "diff_row", "btn_play"] {
        assert!(root.find_by_name(name).is_some(), "{}", name);
    }
    assert_eq!(root.find_by_name("scroll_list").unwrap().handler_key, MUSIC_LIST);
    assert_eq!(root.find_by_name("btn_play").unwrap().handler_key, MUSIC_PLAY);
    root.layout(None);
    prepare_music_list(&mut root);
    assert_eq!(root.find_by_name("spacer_left").unwrap().max_width, 200);
    let detail_h = root.find_by_name("detail").unwrap().height;
    let expected = std::cmp::max(300, std::cmp::max(0, detail_h - (8 + 44 + 8 + 44)) * 3 / 2);
    assert_eq!(root.find_by_name("cover").unwrap().min_height, expected);
}

#[test]
fn menu_is_centred_in_the_window() {
    let mut root = ComponentBase::new(0, 0, 1000, 800);
    MenuPage::build(&mut root, vec![None, None, None, None], vec![28, 28, 28, 28]);
    let mut m = MenuPage::new();
    m.prepare_layout(&mut root);
    assert_eq!((m.menu_x, m.menu_y, m.menu_w, m.menu_h), (300, 300, 400, 200));
    assert_eq!((root.x, root.y, root.width, root.height), (300, 300, 400, 200));
    let row = &root.children[1];
    assert_eq!(row.children.len(), 9);
    assert_eq!(row.children[1].handler_key, MENU_CANCEL);
    assert_eq!(row.children[7].handler_key, MENU_EXIT);
    assert_eq!(row.children[1].children[1].min_width, 36);
    let mut r = UIRenderer::new();
    m.draw(&root, &mut r);
    assert_eq!((r.rects[0].x, r.rects[0].w, r.rects[0].color), (300, 400, (255, 255, 255, 180)));
}

#[test]
fn gameplay_tree_has_the_menu_button() {
    let mut root = ComponentBase::new(0, 0, 0, 0);
    build_gameplay(&mut root, None);
    let b = root.find_by_name("menu_btn").expect("button");
    assert_eq!(b.handler_key, GAME_MENU);
    assert_eq!((b.x, b.y, b.width, b.height), (16, 16, 44, 44));
    assert_eq!(b.children.len(), 1);
}

#[test]
fn image_button_with_caption_has_two_parts() {
    let b = ImageButton::new("i.svg", None, "go", 0, 0, 120, 30, 14, 20);
    assert_eq!(b.children.len(), 2);
    assert_eq!((b.children[0].min_width, b.children[0].max_width), (30, 30));
    assert_eq!(b.children[1].min_width, 28);
    let bare = ImageButton::new("i.svg", None, "", 0, 0, 44, 44, 18, 0);
    assert_eq!(bare.children.len(), 1);
}

#[test]
fn image_can_be_replaced() {
    let mut img = Image::new("a.png", 0, 0, 10, 10, ImageMode::Cover, ImageMode::Cover, None);
    let d = ImageData { rgba: vec![1, 2, 3, 4], width: 1, height: 1 };
    img.set_image("b.png", Some(d));
    match &img.widget {
        Widget::Image(i) => {
            assert_eq!(i.path, "b.png");
            assert_eq!(i.image_data.as_ref().map(|d| d.rgba.clone()), Some(vec![1, 2, 3, 4]));
        }
        _ => panic!("not an image"),
    }
    let mut s = Spacer::new(1, 1);
    s.set_image("c.png", None);
    assert!(matches!(s.widget, Widget::Spacer));
}

#[test]
fn canvas_draws_its_latest_snapshot() {
    let mut c = RendererCanvas::new("shader", layout_desc(), 5, 6, 70, 80);
    let mut r = UIRenderer::new();
    c.draw(&mut r, 0, 0);
    assert!(r.custom_draws.is_empty());
    let mut snap = RenderSnapshot::empty();
    snap.vertex_data = vec![0; 8];
    snap.vertex_count = 1;
    let mut snap2 = RenderSnapshot::empty();
    snap2.vertex_data = vec![0; 16];
    snap2.vertex_count = 2;
    match &mut c.widget {
        Widget::RendererCanvas(rc) => {
            rc.receive(vec![snap, snap2]);
            assert_eq!(rc.latest_snapshot().vertex_count, 2);
            assert_eq!(rc.shader_wgsl(), "shader");
            assert_eq!(rc.vertex_layout().array_stride, 8);
            rc.receive(Vec::new());
            assert_eq!(rc.latest_snapshot().vertex_count, 2);
        }
        _ => panic!("not a canvas"),
    }
    c.draw(&mut r, 0, 0);
    assert_eq!(r.custom_draws.len(), 1);
    let d = &r.custom_draws[0];
    assert_eq!((d.x, d.y, d.w, d.h, d.snapshot.vertex_count), (5, 6, 70, 80, 2));
}
