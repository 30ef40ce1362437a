use pixelwave::geom::{Point, Rect};
use pixelwave::sprite::Sprite;
use pixelwave::tile_field::TileField;

#[test]
fn build_places_tiles_in_raster_order() {
    let f = TileField::build(2, 3, 4, 4, 8);
    assert_eq!(f.tile_count(), 6);
    assert_eq!(f.tile(0).position, Point::new(0, 0));
    assert_eq!(f.tile(1).position, Point::new(4, 0));
    assert_eq!(f.tile(2).position, Point::new(8, 0));
    assert_eq!(f.tile(3).position, Point::new(0, 4));
    assert_eq!(f.tile(4).position, Point::new(4, 4));
    assert_eq!(f.tile(5).position, Point::new(8, 4));
}

#[test]
fn build_walks_the_atlas_with_column_wrap() {
    // Two atlas columns: the clip column wraps every second tile and the
    // atlas row advances on each wrap.
    let f = TileField::build(3, 3, 4, 4, 2);
    assert_eq!(f.tile(0).clip, Rect::new(0, 0, 4, 4));
    assert_eq!(f.tile(1).clip, Rect::new(4, 0, 4, 4));
    assert_eq!(f.tile(2).clip, Rect::new(0, 4, 4, 4));
    assert_eq!(f.tile(5).clip, Rect::new(4, 8, 4, 4));
    assert_eq!(f.tile(8).clip, Rect::new(0, 16, 4, 4));
}

#[test]
fn build_wraps_the_atlas_row_after_eight_rows() {
    // One tile per atlas row: the row counter hits eight at tile 8 and
    // wraps back to the first atlas row.
    let f = TileField::build(3, 4, 4, 4, 1);
    assert_eq!(f.tile(7).clip, Rect::new(0, 28, 4, 4));
    assert_eq!(f.tile(8).clip, Rect::new(0, 0, 4, 4));
    assert_eq!(f.tile(9).clip, Rect::new(0, 4, 4, 4));
}

#[test]
fn render_all_issues_one_draw_per_tile() {
    let f = TileField::build(5, 4, 8, 8, 8);
    let s = Sprite::new(1, 64, 64);
    let cmds = f.render_viewport(&s, Point::new(0, 0), 16, 16, true);
    assert_eq!(cmds.len(), 20);
    for i in 0..20 {
        assert_eq!(cmds[i].src, Some(f.tile(i).clip));
        assert_eq!(cmds[i].dst.x, f.tile(i).position.x);
        assert_eq!(cmds[i].dst.y, f.tile(i).position.y);
    }
}

#[test]
fn render_all_applies_the_offset() {
    let f = TileField::build(2, 2, 8, 8, 8);
    let s = Sprite::new(1, 64, 64);
    let cmds = f.render_viewport(&s, Point::new(3, -5), 16, 16, true);
    assert_eq!(cmds[3].dst.x, 8 - 3);
    assert_eq!(cmds[3].dst.y, 8 + 5);
}

#[test]
fn culled_draws_are_a_subset_of_the_full_draws() {
    let f = TileField::build(10, 10, 8, 8, 8);
    let s = Sprite::new(1, 64, 64);
    let offset = Point::new(37, 22);
    let full = f.render_viewport(&s, offset, 24, 24, true);
    let culled = f.render_viewport(&s, offset, 24, 24, false);
    assert!(culled.len() <= full.len());
    for c in culled.iter() {
        assert!(full.contains(c));
    }
}

#[test]
fn culling_keeps_every_tile_overlapping_the_viewport() {
    let f = TileField::build(10, 10, 8, 8, 8);
    let s = Sprite::new(1, 64, 64);
    let offset = Point::new(37, 22);
    let (vw, vh) = (24i64, 24i64);
    let culled = f.render_viewport(&s, offset, vw as u32, vh as u32, false);
    for i in 0..f.tile_count() {
        let t = f.tile(i);
        let sx = (t.position.x - offset.x) as i64;
        let sy = (t.position.y - offset.y) as i64;
        let overlaps = sx < vw && sx + 8 > 0 && sy < vh && sy + 8 > 0;
        if overlaps {
            let cmd = s.render(sx as i32, sy as i32, Some(t.clip));
            assert!(culled.contains(&cmd));
        }
    }
}

#[test]
fn culling_drops_far_away_tiles() {
    let f = TileField::build(10, 10, 8, 8, 8);
    let s = Sprite::new(1, 64, 64);
    // The viewport with one-tile padding covers screen x in [-8, 32):
    // only tiles 0..4 of each visible row survive in x.
    let culled = f.render_viewport(&s, Point::new(0, 0), 24, 24, false);
    assert_eq!(culled.len(), 16);
}

#[test]
fn large_field_viewport_draw_count_is_independent_of_field_size() {
    // 200 x 200 tiles of 64 x 64 px seen through 1280 x 960: the padded
    // viewport admits 22 columns and 17 rows, 374 draws out of 40000.
    let f = TileField::build(200, 200, 64, 64, 8);
    let s = Sprite::new(1, 512, 512);
    let full = f.render_viewport(&s, Point::new(640, 640), 1280, 960, true);
    assert_eq!(full.len(), 40000);
    let culled = f.render_viewport(&s, Point::new(640, 640), 1280, 960, false);
    assert_eq!(culled.len(), 22 * 17);
}

#[test]
fn baking_then_sampling_matches_a_full_draw() {
    let mut f = TileField::build(4, 6, 8, 8, 8);
    let s = Sprite::new(1, 64, 64);
    assert!(!f.baked());
    let baked = f.bake_to_cache(&s);
    assert!(f.baked());
    assert_eq!(baked.len(), 24);

    let offset = Point::new(11, -3);
    let view = f.render_viewport(&s, offset, 16, 16, true);
    assert_eq!(view.len(), baked.len());
    for i in 0..view.len() {
        // The viewport draw is the baked draw shifted by -offset:
        // sampling the cache's sub-rectangle at `offset` lands each baked
        // pixel exactly where the per-tile draw puts it.
        assert_eq!(view[i].dst.x, baked[i].dst.x - offset.x);
        assert_eq!(view[i].dst.y, baked[i].dst.y - offset.y);
        assert_eq!(view[i].dst.w, baked[i].dst.w);
        assert_eq!(view[i].dst.h, baked[i].dst.h);
        assert_eq!(view[i].src, baked[i].src);
    }
    let src = f.cache_src_rect(offset, 16, 16);
    assert_eq!(src, Rect::new(11, -3, 16, 16));
}
