use pixelwave::geom::{Point, Rect};
use pixelwave::sprite::{BlendMode, Flip, Sprite};

#[test]
fn render_defaults() {
    let s = Sprite::new(1, 64, 32);
    let c = s.render(10, 20, None);
    assert_eq!(c.texture, 1);
    assert_eq!(c.src, None);
    assert_eq!(c.dst, Rect::new(10, 20, 64, 32));
    assert_eq!(c.angle_degrees, 0);
    assert_eq!(c.pivot, None);
    assert!(!c.flip_h);
    assert!(!c.flip_v);
    assert_eq!((c.mod_r, c.mod_g, c.mod_b, c.mod_a), (255, 255, 255, 255));
    assert_eq!(c.blend, BlendMode::Replace);
}

#[test]
fn render_with_clip_sizes_destination_by_clip() {
    let s = Sprite::new(2, 640, 480);
    let clip = Rect::new(100, 0, 100, 100);
    let c = s.render(540, 0, Some(clip));
    assert_eq!(c.src, Some(clip));
    assert_eq!(c.dst, Rect::new(540, 0, 100, 100));
}

#[test]
fn render_transformed_identity_matches_plain_render() {
    let s = Sprite::new(3, 120, 80);
    let clips = [None, Some(Rect::new(5, 6, 30, 40))];
    for clip in clips {
        let plain = s.render(-7, 9, clip);
        let transformed = s.render_ex(-7, 9, clip, 0, None, Flip::NoFlip);
        assert_eq!(plain, transformed);
    }
}

#[test]
fn render_transformed_carries_rotation_pivot_and_flip() {
    let s = Sprite::new(4, 50, 50);
    let c = s.render_ex(0, 0, None, 90, Some(Point::new(25, 25)), Flip::Horizontal);
    assert_eq!(c.angle_degrees, 90);
    assert_eq!(c.pivot, Some(Point::new(25, 25)));
    assert!(c.flip_h);
    assert!(!c.flip_v);
    let v = s.render_ex(0, 0, None, -30, None, Flip::Vertical);
    assert_eq!(v.angle_degrees, -30);
    assert!(!v.flip_h);
    assert!(v.flip_v);
}

#[test]
fn modulation_state_affects_only_later_draws() {
    let mut s = Sprite::new(5, 10, 10);
    let before = s.render(0, 0, None);
    s.set_color(10, 20, 30);
    s.set_alpha(40);
    s.set_blend_mode(BlendMode::AlphaBlend);
    let after = s.render(0, 0, None);
    assert_eq!((before.mod_r, before.mod_g, before.mod_b, before.mod_a), (255, 255, 255, 255));
    assert_eq!(before.blend, BlendMode::Replace);
    assert_eq!((after.mod_r, after.mod_g, after.mod_b, after.mod_a), (10, 20, 30, 40));
    assert_eq!(after.blend, BlendMode::AlphaBlend);
}

#[test]
fn setters_are_idempotent() {
    let mut a = Sprite::new(6, 10, 10);
    let mut b = Sprite::new(6, 10, 10);
    a.set_color(1, 2, 3);
    b.set_color(1, 2, 3);
    b.set_color(1, 2, 3);
    a.set_blend_mode(BlendMode::Modulate);
    b.set_blend_mode(BlendMode::Modulate);
    b.set_blend_mode(BlendMode::Modulate);
    assert_eq!(a.render(4, 4, None), b.render(4, 4, None));
}

#[test]
fn sprite_reports_its_dimensions() {
    let s = Sprite::new(7, 321, 123);
    assert_eq!(s.width(), 321);
    assert_eq!(s.height(), 123);
}

#[test]
fn rect_contains_point_is_half_open() {
    let r = Rect::new(10, 20, 5, 5);
    assert!(r.contains_point(Point::new(10, 20)));
    assert!(r.contains_point(Point::new(14, 24)));
    assert!(!r.contains_point(Point::new(15, 24)));
    assert!(!r.contains_point(Point::new(14, 25)));
    assert!(!r.contains_point(Point::new(9, 20)));
}

#[test]
fn rect_intersects_shares_a_pixel() {
    let a = Rect::new(0, 0, 10, 10);
    assert!(a.intersects(&Rect::new(9, 9, 10, 10)));
    assert!(!a.intersects(&Rect::new(10, 0, 10, 10)));
    assert!(!a.intersects(&Rect::new(0, 10, 10, 10)));
    assert!(a.intersects(&Rect::new(-9, -9, 10, 10)));
}
