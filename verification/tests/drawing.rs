use musesp::component::{Button, ComponentBase, Image, Label, ListItem, ScrollList};
use musesp::renderer::{FrameDrawList, UIRenderer};
use musesp::types::{ImageData, ImageMode};
use musesp::widgets::with_child;

#[test]
fn clips_nest_and_pop() {
    let mut r = UIRenderer::new();
    r.push_clip(10, 10, 100, 100);
    r.push_clip(50, 0, 100, 30);
    assert_eq!(r.clip_stack.last(), Some(&(50, 10, 60, 20)));
    r.draw_rect(0, 0, 5, 5, (1, 2, 3, 4));
    assert_eq!(r.rects[0].clip_rect, Some((50, 10, 60, 20)));
    r.pop_clip();
    assert_eq!(r.clip_stack, vec![(10, 10, 100, 100)]);
    r.push_clip(200, 200, 10, 10);
    assert_eq!(r.clip_stack.last(), Some(&(200, 200, 0, 0)));
    r.pop_clip();
    r.pop_clip();
    r.draw_text("hi", 1, 2, 3, 4, 12, (9, 9, 9));
    assert_eq!(r.texts[0].clip_rect, None);
    r.pop_clip();
    assert!(r.clip_stack.is_empty());
}

#[test]
fn negative_clip_corners_are_reported_as_zero() {
    let mut r = UIRenderer::new();
    r.push_clip(-5, -6, 20, 30);
    r.draw_rect(0, 0, 1, 1, (0, 0, 0, 0));
    assert_eq!(r.rects[0].clip_rect, Some((0, 0, 20, 30)));
}

#[test]
fn missing_picture_draws_nothing() {
    let mut r = UIRenderer::new();
    r.draw_image(0, 0, 10, 10, None);
    assert!(r.images.is_empty());
}

#[test]
fn label_draws_its_text_in_its_box() {
    let l = Label::new("abc", 5, 6, 70, 20, 16, (1, 2, 3));
    let mut r = UIRenderer::new();
    l.draw(&mut r, 100, 200);
    assert_eq!(r.texts.len(), 1);
    let t = &r.texts[0];
    assert_eq!((t.text.as_str(), t.x, t.y, t.w, t.h, t.font_size, t.color), ("abc", 105, 206, 70, 20, 16, (1, 2, 3)));
}

#[test]
fn button_background_follows_its_state() {
    let mut b = Button::new("ok", 0, 0, 50, 20, 12);
    let mut r = UIRenderer::new();
    b.draw(&mut r, 0, 0);
    assert_eq!(r.rects[0].color, (80, 80, 80, 255));
    assert_eq!(r.texts[0].text, "ok");
    b.hovered = true;
    let mut r = UIRenderer::new();
    b.draw(&mut r, 0, 0);
    assert_eq!(r.rects[0].color, (140, 140, 140, 255));
    b.pressed = true;
    let mut r = UIRenderer::new();
    b.draw(&mut r, 0, 0);
    assert_eq!(r.rects[0].color, (100, 100, 100, 255));
    b.disable();
    let mut r = UIRenderer::new();
    b.draw(&mut r, 0, 0);
    assert_eq!(r.rects[0].color, (80, 80, 80, 255));
    assert_eq!(r.rects[1].color, (0, 0, 0, 128));
}

fn pixels(w: u32, h: u32) -> ImageData {
    ImageData { rgba: vec![0; (w * h * 4) as usize], width: w, height: h }
}

#[test]
fn keep_rate_picture_is_scaled_and_centred() {
    let img = Image::new("p.png", 0, 0, 200, 100, ImageMode::KeepRate, ImageMode::Cover, Some(pixels(50, 25)));
    let mut r = UIRenderer::new();
    img.draw(&mut r, 0, 0);
    let d = &r.images[0];
    assert_eq!((d.x, d.y, d.w, d.h), (0, 0, 200, 100));
    let img = Image::new("p.png", 0, 0, 200, 100, ImageMode::Centered, ImageMode::Centered, Some(pixels(50, 20)));
    let mut r = UIRenderer::new();
    img.draw(&mut r, 10, 10);
    let d = &r.images[0];
    assert_eq!((d.x, d.y, d.w, d.h), (85, 50, 50, 20));
}

#[test]
fn cover_picture_fills_its_box() {
    let img = Image::new("p.png", 3, 4, 30, 40, ImageMode::Cover, ImageMode::Cover, Some(pixels(8, 8)));
    let mut r = UIRenderer::new();
    img.draw(&mut r, 0, 0);
    let d = &r.images[0];
    assert_eq!((d.x, d.y, d.w, d.h), (3, 4, 30, 40));
}

#[test]
fn scroll_list_draws_background_bar_and_shown_items() {
    let mut l = ScrollList::new(0, 0, 100, 100, 40);
    l.set_items(vec![
        ListItem::new(0, 0, 0, 0, "a", "A", "x"),
        ListItem::new(0, 0, 0, 0, "b", "B", "y"),
        ListItem::new(0, 0, 0, 0, "c", "C", "z"),
        ListItem::new(0, 0, 0, 0, "d", "D", "w"),
    ]);
    let mut r = UIRenderer::new();
    l.draw(&mut r, 0, 0);
    assert_eq!(r.rects[0].color, (30, 30, 30, 255));
    let bar = &r.rects[1];
    assert_eq!((bar.x, bar.y, bar.w, bar.h, bar.color), (94, 0, 4, 62, (100, 100, 100, 255)));
    assert_eq!(r.texts.len(), 6);
    assert_eq!(r.texts[0].text, "A");
    assert_eq!((r.texts[0].y, r.texts[0].font_size, r.texts[0].color), (4, 20, (255, 255, 255)));
    assert_eq!((r.texts[1].y, r.texts[1].font_size, r.texts[1].color), (28, 14, (160, 160, 160)));
    assert_eq!(r.texts[0].clip_rect, Some((0, 0, 100, 100)));
    assert!(r.clip_stack.is_empty());
}

#[test]
fn debug_outline_draws_four_edges_per_component() {
    let t = with_child(ComponentBase::new(10, 10, 100, 50), ComponentBase::new(5, 5, 20, 20));
    let mut r = UIRenderer::new();
    t.draw_debug(&mut r, false, 0, 0);
    assert!(r.rects.is_empty());
    t.draw_debug(&mut r, true, 0, 0);
    assert_eq!(r.rects.len(), 8);
    let top = &r.rects[0];
    assert_eq!((top.x, top.y, top.w, top.h, top.color), (10, 10, 100, 2, (0, 255, 0, 255)));
    let bottom = &r.rects[1];
    assert_eq!((bottom.x, bottom.y), (10, 58));
    let child_left = &r.rects[6];
    assert_eq!((child_left.x, child_left.y, child_left.w, child_left.h), (15, 15, 2, 20));
}

#[test]
fn frame_list_takes_the_draws() {
    let mut r = UIRenderer::new();
    r.push_clip(0, 0, 10, 10);
    r.draw_rect(0, 0, 1, 1, (0, 0, 0, 0));
    r.draw_text("t", 0, 0, 1, 1, 10, (0, 0, 0));
    let f: FrameDrawList<()> = FrameDrawList::from_renderer(&mut r);
    assert_eq!(f.rects.len(), 1);
    assert_eq!(f.texts.len(), 1);
    assert!(!f.is_empty());
    assert!(r.rects.is_empty() && r.texts.is_empty());
    assert_eq!(r.clip_stack.len(), 1);
    let d = f.prep_data(640, 480);
    assert_eq!((d.screen_w, d.screen_h), (640, 480));
    assert_eq!(d.texts.len(), 1);
    assert_eq!(d.texts[0].text, "t");
    let mut f = f;
    f.clear();
    assert!(f.is_empty());
    let e: FrameDrawList<()> = FrameDrawList::new();
    assert!(e.is_empty() && e.shaped_text_buffers.is_none());
}

#[test]
fn display_size_follows_the_modes() {
    let img = Image::new("p.png", 0, 0, 200, 100, ImageMode::KeepRate, ImageMode::Cover, None);
    assert_eq!(img.display_size(50, 25), (200, 100));
    assert_eq!(img.display_size(1, 1000), (1, 100));
    let img = Image::new("p.png", 0, 0, 200, 100, ImageMode::Cover, ImageMode::KeepRate, None);
    assert_eq!(img.display_size(40, 10), (200, 50));
    let img = Image::new("p.png", 0, 0, 200, 100, ImageMode::Centered, ImageMode::Origin, None);
    assert_eq!(img.display_size(40, 10), (40, 10));
}
