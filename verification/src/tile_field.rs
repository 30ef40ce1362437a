//! A large fixed grid of tiles clipped out of one shared atlas texture,
//! rendered each frame with viewport culling or baked once into a cache.

use vstd::prelude::*;
use vstd::arithmetic::mul::{lemma_mul_inequality, lemma_mul_nonnegative};
use vstd::arithmetic::div_mod::lemma_multiply_divide_lt;
use crate::geom::{Point, Rect};
use crate::sprite::{DrawCmd, Sprite};

verus! {

/// Number of tile rows in the atlas; the raster walk over the atlas wraps
/// its row counter back to zero after this many rows.
pub const ATLAS_ROWS: u32 = 8;

/// One grid cell: where it sits in the field and which atlas region it shows.
#[derive(Clone, Copy, Debug, PartialEq, Eq, Structural)]
pub struct Tile {
    /// Field-space pixel position of the tile's top-left corner.
    pub position: Point,
    /// Sub-rectangle of the shared atlas holding the tile's pixels.
    pub clip: Rect,
}

/// The tile a raster walk assigns to index `i` of a field `cols` tiles wide.
///
/// Positions advance in row-major raster order over the field. The atlas
/// clip advances one atlas column per tile, wrapping to the next atlas row
/// after `per_row` steps and back to atlas row zero after [`ATLAS_ROWS`]
/// rows, independent of the field's size.
pub open spec fn spec_tile_at(i: int, cols: u32, tile_w: u32, tile_h: u32, per_row: u32) -> Tile {
    Tile {
        position: Point {
            x: ((i % (cols as int)) * tile_w) as i32,
            y: ((i / (cols as int)) * tile_h) as i32,
        },
        clip: Rect {
            x: ((i % (per_row as int)) * tile_w) as i32,
            y: (((i / (per_row as int)) % (ATLAS_ROWS as int)) * tile_h) as i32,
            w: tile_w,
            h: tile_h,
        },
    }
}

/// Horizontal screen position of a tile drawn with the view shifted by `offset`.
pub open spec fn spec_screen_x(t: Tile, offset: Point) -> int {
    t.position.x - offset.x
}

/// Vertical screen position of a tile drawn with the view shifted by `offset`.
pub open spec fn spec_screen_y(t: Tile, offset: Point) -> int {
    t.position.y - offset.y
}

/// Whether a tile survives culling: its screen position lies within the
/// viewport rectangle padded by one tile's dimensions on every side, so a
/// tile whose origin is just outside but whose extent overlaps the
/// viewport is still drawn.
pub open spec fn spec_visible(t: Tile, offset: Point, vw: u32, vh: u32, tw: u32, th: u32) -> bool {
    &&& -(tw as int) <= spec_screen_x(t, offset) < vw + tw
    &&& -(th as int) <= spec_screen_y(t, offset) < vh + th
}

/// Whether the tile's unpadded screen rectangle (its origin at the screen
/// position, its extent one tile) shares at least one pixel with the
/// viewport rectangle `[0, vw) x [0, vh)`.
pub open spec fn spec_screen_rect_intersects_viewport(
    t: Tile,
    offset: Point,
    vw: u32,
    vh: u32,
    tw: u32,
    th: u32,
) -> bool {
    &&& spec_screen_x(t, offset) < vw && 0 < spec_screen_x(t, offset) + tw
    &&& spec_screen_y(t, offset) < vh && 0 < spec_screen_y(t, offset) + th
}

/// The draw command issued for one tile: the sprite draws the tile's atlas
/// clip at the tile's screen position.
pub open spec fn spec_tile_cmd(sprite: Sprite, t: Tile, offset: Point) -> DrawCmd {
    sprite.spec_render(
        spec_screen_x(t, offset) as i32,
        spec_screen_y(t, offset) as i32,
        Option::Some(t.clip),
    )
}

/// An ordered, fixed-length grid of tiles over one shared atlas texture,
/// built once in raster order, with an optional baked cache.
pub struct TileField {
    tiles: Vec<Tile>,
    rows: u32,
    cols: u32,
    tile_w: u32,
    tile_h: u32,
    per_atlas_row: u32,
    baked: bool,
}

impl TileField {
    pub closed spec fn spec_tiles(self) -> Seq<Tile> {
        self.tiles@
    }

    pub closed spec fn spec_rows(self) -> u32 {
        self.rows
    }

    pub closed spec fn spec_cols(self) -> u32 {
        self.cols
    }

    pub closed spec fn spec_tile_w(self) -> u32 {
        self.tile_w
    }

    pub closed spec fn spec_tile_h(self) -> u32 {
        self.tile_h
    }

    pub closed spec fn spec_per_atlas_row(self) -> u32 {
        self.per_atlas_row
    }

    /// Whether the field has been baked into a cache since construction.
    pub closed spec fn spec_baked(self) -> bool {
        self.baked
    }

    /// Well-formedness: the tile count equals `rows * cols` and never
    /// changes after construction, every tile is the one the raster walk
    /// assigns to its index, and all pixel coordinates fit in `i32`.
    pub open spec fn wf(self) -> bool {
        &&& 1 <= self.spec_rows()
        &&& 1 <= self.spec_cols()
        &&& 1 <= self.spec_per_atlas_row()
        &&& self.spec_tiles().len() == self.spec_rows() * self.spec_cols()
        &&& self.spec_cols() * self.spec_tile_w() <= i32::MAX
        &&& self.spec_rows() * self.spec_tile_h() <= i32::MAX
        &&& self.spec_per_atlas_row() * self.spec_tile_w() <= i32::MAX
        &&& ATLAS_ROWS * self.spec_tile_h() <= i32::MAX
        &&& forall|i: int|
            0 <= i < self.spec_tiles().len() ==> #[trigger] self.spec_tiles()[i] == spec_tile_at(
                i,
                self.spec_cols(),
                self.spec_tile_w(),
                self.spec_tile_h(),
                self.spec_per_atlas_row(),
            )
        &&& forall|i: int|
            0 <= i < self.spec_tiles().len() ==> 0 <= #[trigger] self.spec_tiles()[i].position.x
                <= self.spec_cols() * self.spec_tile_w() - self.spec_tile_w()
        &&& forall|i: int|
            0 <= i < self.spec_tiles().len() ==> 0 <= #[trigger] self.spec_tiles()[i].position.y
                <= self.spec_rows() * self.spec_tile_h() - self.spec_tile_h()
    }

    /// The commands issued for the first `n` tiles: each tile in order,
    /// kept when `render_all` is set or when it survives culling.
    pub open spec fn spec_cmds_upto(
        self,
        sprite: Sprite,
        offset: Point,
        vw: u32,
        vh: u32,
        render_all: bool,
        n: int,
    ) -> Seq<DrawCmd>
        decreases n,
    {
        if n <= 0 {
            Seq::empty()
        } else {
            let prefix = self.spec_cmds_upto(sprite, offset, vw, vh, render_all, n - 1);
            let t = self.spec_tiles()[n - 1];
            if render_all || spec_visible(t, offset, vw, vh, self.spec_tile_w(), self.spec_tile_h()) {
                prefix.push(spec_tile_cmd(sprite, t, offset))
            } else {
                prefix
            }
        }
    }

    /// The full command list one `render_viewport` call issues.
    pub open spec fn spec_viewport_cmds(
        self,
        sprite: Sprite,
        offset: Point,
        vw: u32,
        vh: u32,
        render_all: bool,
    ) -> Seq<DrawCmd> {
        self.spec_cmds_upto(sprite, offset, vw, vh, render_all, self.spec_tiles().len() as int)
    }

    /// Overflow bounds for a view shifted by `offset`: every tile's screen
    /// position fits in `i32`.
    pub open spec fn spec_offset_in_range(self, offset: Point) -> bool {
        &&& self.spec_cols() * self.spec_tile_w() - offset.x <= i32::MAX
        &&& self.spec_rows() * self.spec_tile_h() - offset.y <= i32::MAX
    }

    /// Build a field of `rows * cols` tiles of `tile_w * tile_h` pixels in
    /// raster order, assigning each tile's atlas clip by the raster walk
    /// over an atlas `tiles_per_atlas_row` tiles wide and [`ATLAS_ROWS`]
    /// tiles high.
    pub fn build(
        rows: u32,
        cols: u32,
        tile_w: u32,
        tile_h: u32,
        tiles_per_atlas_row: u32,
    ) -> (field: TileField)
        requires
            1 <= rows,
            1 <= cols,
            1 <= tiles_per_atlas_row,
            rows * cols <= usize::MAX,
            cols * tile_w <= i32::MAX,
            rows * tile_h <= i32::MAX,
            tiles_per_atlas_row * tile_w <= i32::MAX,
            ATLAS_ROWS * tile_h <= i32::MAX,
        ensures
            field.wf(),
            field.spec_rows() == rows,
            field.spec_cols() == cols,
            field.spec_tile_w() == tile_w,
            field.spec_tile_h() == tile_h,
            field.spec_per_atlas_row() == tiles_per_atlas_row,
            field.spec_tiles().len() == rows * cols,
            !field.spec_baked(),
    {
        let count: usize = (rows as usize) * (cols as usize);
        let colsz: usize = cols as usize;
        let perz: usize = tiles_per_atlas_row as usize;
        let mut tiles: Vec<Tile> = Vec::new();
        let mut i: usize = 0;
        while i < count
            invariant
                count == rows * cols,
                colsz == cols,
                perz == tiles_per_atlas_row,
                1 <= rows,
                1 <= cols,
                1 <= tiles_per_atlas_row,
                cols * tile_w <= i32::MAX,
                rows * tile_h <= i32::MAX,
                tiles_per_atlas_row * tile_w <= i32::MAX,
                ATLAS_ROWS * tile_h <= i32::MAX,
                i <= count,
                tiles@.len() == i,
                forall|j: int|
                    0 <= j < i ==> #[trigger] tiles@[j] == spec_tile_at(
                        j,
                        cols,
                        tile_w,
                        tile_h,
                        tiles_per_atlas_row,
                    ),
                forall|j: int|
                    0 <= j < i ==> 0 <= #[trigger] tiles@[j].position.x <= cols * tile_w - tile_w,
                forall|j: int|
                    0 <= j < i ==> 0 <= #[trigger] tiles@[j].position.y <= rows * tile_h - tile_h,
            decreases count - i,
        {
            let col: usize = i % colsz;
            let row: usize = i / colsz;
            let acol: usize = i % perz;
            let arow: usize = (i / perz) % (ATLAS_ROWS as usize);
            proof {
                lemma_multiply_divide_lt(i as int, cols as int, rows as int);
                lemma_mul_inequality(col as int, cols as int - 1, tile_w as int);
                lemma_mul_inequality(row as int, rows as int - 1, tile_h as int);
                lemma_mul_inequality(acol as int, tiles_per_atlas_row as int - 1, tile_w as int);
                lemma_mul_inequality(arow as int, ATLAS_ROWS as int - 1, tile_h as int);
                assert((cols as int - 1) * tile_w == cols * tile_w - tile_w) by (nonlinear_arith);
                assert((rows as int - 1) * tile_h == rows * tile_h - tile_h) by (nonlinear_arith);
                assert((tiles_per_atlas_row as int - 1) * tile_w == tiles_per_atlas_row * tile_w
                    - tile_w) by (nonlinear_arith);
                assert((ATLAS_ROWS as int - 1) * tile_h == ATLAS_ROWS * tile_h - tile_h)
                    by (nonlinear_arith);
                lemma_mul_nonnegative(col as int, tile_w as int);
                lemma_mul_nonnegative(row as int, tile_h as int);
                lemma_mul_nonnegative(acol as int, tile_w as int);
                lemma_mul_nonnegative(arow as int, tile_h as int);
            }
            let px: i32 = ((col as u64) * (tile_w as u64)) as i32;
            let py: i32 = ((row as u64) * (tile_h as u64)) as i32;
            let ax: i32 = ((acol as u64) * (tile_w as u64)) as i32;
            let ay: i32 = ((arow as u64) * (tile_h as u64)) as i32;
            tiles.push(
                Tile {
                    position: Point { x: px, y: py },
                    clip: Rect { x: ax, y: ay, w: tile_w, h: tile_h },
                },
            );
            i = i + 1;
        }
        TileField {
            tiles,
            rows,
            cols,
            tile_w,
            tile_h,
            per_atlas_row: tiles_per_atlas_row,
            baked: false,
        }
    }

    /// Issue one frame's draws for a view of `viewport_w * viewport_h`
    /// pixels shifted by `offset`: every tile when `render_all` is set,
    /// otherwise exactly the tiles whose screen position lies within the
    /// viewport padded by one tile's dimensions on every side.
    ///
    /// A full draw issues one command per tile regardless of visibility;
    /// a culled draw issues only the visible ones.
    pub fn render_viewport(
        &self,
        sprite: &Sprite,
        offset: Point,
        viewport_w: u32,
        viewport_h: u32,
        render_all: bool,
    ) -> (cmds: Vec<DrawCmd>)
        requires
            self.wf(),
            self.spec_offset_in_range(offset),
        ensures
            cmds@ == self.spec_viewport_cmds(*sprite, offset, viewport_w, viewport_h, render_all),
            render_all ==> cmds@.len() == self.spec_tiles().len() && forall|i: int|
                0 <= i < cmds@.len() ==> cmds@[i] == spec_tile_cmd(
                    *sprite,
                    self.spec_tiles()[i],
                    offset,
                ),
    {
        let tw: i64 = self.tile_w as i64;
        let th: i64 = self.tile_h as i64;
        let vw: i64 = viewport_w as i64;
        let vh: i64 = viewport_h as i64;
        let mut cmds: Vec<DrawCmd> = Vec::new();
        let n: usize = self.tiles.len();
        let mut i: usize = 0;
        while i < n
            invariant
                self.wf(),
                self.spec_offset_in_range(offset),
                tw == self.spec_tile_w(),
                th == self.spec_tile_h(),
                vw == viewport_w,
                vh == viewport_h,
                n == self.spec_tiles().len(),
                i <= n,
                cmds@ == self.spec_cmds_upto(
                    *sprite,
                    offset,
                    viewport_w,
                    viewport_h,
                    render_all,
                    i as int,
                ),
                render_all ==> cmds@.len() == i && forall|j: int|
                    0 <= j < i ==> cmds@[j] == spec_tile_cmd(*sprite, self.spec_tiles()[j], offset),
            decreases n - i,
        {
            let t = self.tiles[i];
            let sx64: i64 = t.position.x as i64 - offset.x as i64;
            let sy64: i64 = t.position.y as i64 - offset.y as i64;
            let sx: i32 = sx64 as i32;
            let sy: i32 = sy64 as i32;
            let visible: bool = -tw <= sx64 && sx64 < vw + tw && -th <= sy64 && sy64 < vh + th;
            if render_all || visible {
                let cmd = sprite.render(sx, sy, Option::Some(t.clip));
                cmds.push(cmd);
            }
            i = i + 1;
        }
        cmds
    }

    /// The pixel width of the whole field.
    pub fn field_w(&self) -> (w: u32)
        requires
            self.wf(),
        ensures
            w == self.spec_cols() * self.spec_tile_w(),
    {
        self.cols * self.tile_w
    }

    /// The pixel height of the whole field.
    pub fn field_h(&self) -> (h: u32)
        requires
            self.wf(),
        ensures
            h == self.spec_rows() * self.spec_tile_h(),
    {
        self.rows * self.tile_h
    }

    /// Render the entire field once at offset zero, producing the command
    /// list that flattens it into a single cached texture. Later frames
    /// may blit one sub-rectangle of that cache (see [`Self::cache_src_rect`])
    /// instead of re-issuing one draw per tile.
    ///
    /// The cache is marked fresh; it goes stale silently on any later
    /// tile-content change until this is called again.
    pub fn bake_to_cache(&mut self, sprite: &Sprite) -> (cmds: Vec<DrawCmd>)
        requires
            old(self).wf(),
        ensures
            final(self).wf(),
            final(self).spec_tiles() == old(self).spec_tiles(),
            final(self).spec_rows() == old(self).spec_rows(),
            final(self).spec_cols() == old(self).spec_cols(),
            final(self).spec_tile_w() == old(self).spec_tile_w(),
            final(self).spec_tile_h() == old(self).spec_tile_h(),
            final(self).spec_per_atlas_row() == old(self).spec_per_atlas_row(),
            final(self).spec_baked(),
            cmds@.len() == old(self).spec_tiles().len(),
            forall|i: int|
                0 <= i < cmds@.len() ==> cmds@[i] == spec_tile_cmd(
                    *sprite,
                    old(self).spec_tiles()[i],
                    (Point { x: 0, y: 0 }),
                ),
    {
        let w: u32 = self.field_w();
        let h: u32 = self.field_h();
        let cmds = self.render_viewport(sprite, Point { x: 0, y: 0 }, w, h, true);
        self.baked = true;
        cmds
    }

    /// The sub-rectangle of the baked cache that a frame at `offset` blits
    /// to a `viewport_w * viewport_h` destination: one draw in place of one
    /// per tile.
    pub fn cache_src_rect(&self, offset: Point, viewport_w: u32, viewport_h: u32) -> (src: Rect)
        ensures
            src == (Rect { x: offset.x, y: offset.y, w: viewport_w, h: viewport_h }),
    {
        Rect { x: offset.x, y: offset.y, w: viewport_w, h: viewport_h }
    }

    /// The number of tiles in the field: always `rows * cols`.
    pub fn tile_count(&self) -> (n: usize)
        ensures
            n == self.spec_tiles().len(),
    {
        self.tiles.len()
    }

    /// The tile at raster index `i`.
    pub fn tile(&self, i: usize) -> (t: Tile)
        requires
            i < self.spec_tiles().len(),
        ensures
            t == self.spec_tiles()[i as int],
    {
        self.tiles[i]
    }

    /// Whether a cache has been baked since construction.
    pub fn baked(&self) -> (b: bool)
        ensures
            b == self.spec_baked(),
    {
        self.baked
    }

    /// A full draw issues exactly one command per tile, in raster order:
    /// for a field of `R` rows and `C` columns, exactly `R * C` draws.
    pub proof fn lemma_render_all_upto(
        self,
        sprite: Sprite,
        offset: Point,
        vw: u32,
        vh: u32,
        n: int,
    )
        requires
            0 <= n <= self.spec_tiles().len(),
        ensures
            self.spec_cmds_upto(sprite, offset, vw, vh, true, n).len() == n,
            forall|j: int|
                0 <= j < n ==> self.spec_cmds_upto(sprite, offset, vw, vh, true, n)[j]
                    == spec_tile_cmd(sprite, self.spec_tiles()[j], offset),
        decreases n,
    {
        if n > 0 {
            self.lemma_render_all_upto(sprite, offset, vw, vh, n - 1);
        }
    }

    /// Culling only removes draws: every command a culled draw issues also
    /// stands, at some index, in the list the full draw issues.
    pub proof fn lemma_culled_subset_upto(
        self,
        sprite: Sprite,
        offset: Point,
        vw: u32,
        vh: u32,
        n: int,
    )
        requires
            0 <= n <= self.spec_tiles().len(),
        ensures
            forall|i: int|
                0 <= i < self.spec_cmds_upto(sprite, offset, vw, vh, false, n).len()
                    ==> exists|j: int|
                    0 <= j < n && #[trigger] self.spec_cmds_upto(sprite, offset, vw, vh, false, n)[i]
                        == spec_tile_cmd(sprite, self.spec_tiles()[j], offset),
        decreases n,
    {
        if n > 0 {
            self.lemma_culled_subset_upto(sprite, offset, vw, vh, n - 1);
            let prev = self.spec_cmds_upto(sprite, offset, vw, vh, false, n - 1);
            let cur = self.spec_cmds_upto(sprite, offset, vw, vh, false, n);
            assert forall|i: int| 0 <= i < cur.len() implies exists|j: int|
                0 <= j < n && #[trigger] cur[i] == spec_tile_cmd(
                    sprite,
                    self.spec_tiles()[j],
                    offset,
                ) by {
                if i < prev.len() {
                    assert(cur[i] == prev[i]);
                    let j = choose|j: int|
                        0 <= j < n - 1 && prev[i] == spec_tile_cmd(
                            sprite,
                            self.spec_tiles()[j],
                            offset,
                        );
                    assert(cur[i] == spec_tile_cmd(sprite, self.spec_tiles()[j], offset));
                } else {
                    assert(cur[i] == spec_tile_cmd(sprite, self.spec_tiles()[n - 1], offset));
                }
            }
        }
    }

    /// The culled list is a subset of the full list: whatever a culled
    /// draw issues, a full draw at the same offset issues too.
    pub proof fn lemma_culled_subset(self, sprite: Sprite, offset: Point, vw: u32, vh: u32)
        ensures
            forall|i: int|
                0 <= i < self.spec_viewport_cmds(sprite, offset, vw, vh, false).len()
                    ==> self.spec_viewport_cmds(sprite, offset, vw, vh, true).contains(
                    #[trigger] self.spec_viewport_cmds(sprite, offset, vw, vh, false)[i],
                ),
    {
        let n = self.spec_tiles().len() as int;
        let culled = self.spec_viewport_cmds(sprite, offset, vw, vh, false);
        let full = self.spec_viewport_cmds(sprite, offset, vw, vh, true);
        self.lemma_culled_subset_upto(sprite, offset, vw, vh, n);
        self.lemma_render_all_upto(sprite, offset, vw, vh, n);
        assert forall|i: int| 0 <= i < culled.len() implies full.contains(#[trigger] culled[i]) by {
            let j = choose|j: int|
                0 <= j < n && culled[i] == spec_tile_cmd(sprite, self.spec_tiles()[j], offset);
            assert(full[j] == culled[i]);
        }
    }

    /// A tile that survives culling is issued: its command stands in the
    /// culled list.
    pub proof fn lemma_visible_is_issued_upto(
        self,
        sprite: Sprite,
        offset: Point,
        vw: u32,
        vh: u32,
        k: int,
        n: int,
    )
        requires
            0 <= k < n <= self.spec_tiles().len(),
            spec_visible(
                self.spec_tiles()[k],
                offset,
                vw,
                vh,
                self.spec_tile_w(),
                self.spec_tile_h(),
            ),
        ensures
            self.spec_cmds_upto(sprite, offset, vw, vh, false, n).contains(
                spec_tile_cmd(sprite, self.spec_tiles()[k], offset),
            ),
        decreases n,
    {
        let cur = self.spec_cmds_upto(sprite, offset, vw, vh, false, n);
        let cmd = spec_tile_cmd(sprite, self.spec_tiles()[k], offset);
        if k == n - 1 {
            assert(cur[cur.len() - 1] == cmd);
        } else {
            self.lemma_visible_is_issued_upto(sprite, offset, vw, vh, k, n - 1);
            let prev = self.spec_cmds_upto(sprite, offset, vw, vh, false, n - 1);
            let i = choose|i: int| 0 <= i < prev.len() && prev[i] == cmd;
            assert(cur[i] == cmd);
        }
    }

    /// The culled list is a superset of the necessary draws: every tile
    /// whose unpadded screen rectangle intersects the viewport survives
    /// culling (the padding only widens the kept region), so its command
    /// is issued.
    pub proof fn lemma_culled_covers_intersecting(
        self,
        sprite: Sprite,
        offset: Point,
        vw: u32,
        vh: u32,
        k: int,
    )
        requires
            0 <= k < self.spec_tiles().len(),
            spec_screen_rect_intersects_viewport(
                self.spec_tiles()[k],
                offset,
                vw,
                vh,
                self.spec_tile_w(),
                self.spec_tile_h(),
            ),
        ensures
            self.spec_viewport_cmds(sprite, offset, vw, vh, false).contains(
                spec_tile_cmd(sprite, self.spec_tiles()[k], offset),
            ),
    {
        self.lemma_visible_is_issued_upto(
            sprite,
            offset,
            vw,
            vh,
            k,
            self.spec_tiles().len() as int,
        );
    }
}

/// Whether `v` is `b` with its destination shifted left by `dx` and up by
/// `dy`, everything else equal: the draw `v` puts the same pixels at the
/// shifted place.
pub open spec fn spec_shifted_cmd(b: DrawCmd, v: DrawCmd, dx: int, dy: int) -> bool {
    &&& v.dst.x == b.dst.x - dx
    &&& v.dst.y == b.dst.y - dy
    &&& v.dst.w == b.dst.w
    &&& v.dst.h == b.dst.h
    &&& v.texture == b.texture
    &&& v.src == b.src
    &&& v.angle_degrees == b.angle_degrees
    &&& v.pivot == b.pivot
    &&& v.flip_h == b.flip_h
    &&& v.flip_v == b.flip_v
    &&& v.mod_r == b.mod_r
    &&& v.mod_g == b.mod_g
    &&& v.mod_b == b.mod_b
    &&& v.mod_a == b.mod_a
    &&& v.blend == b.blend
}

impl TileField {
    /// Baking then sampling reproduces a full draw: the command list a
    /// full draw at `offset` issues equals, draw for draw, the baked list
    /// (the full draw at offset zero) with every destination shifted by
    /// `-offset` - exactly what blitting the cache's sub-rectangle at
    /// `offset` puts on screen. The two frames are pixel-identical.
    pub proof fn lemma_bake_then_sample_matches_viewport(self, sprite: Sprite, offset: Point)
        requires
            self.wf(),
            self.spec_offset_in_range(offset),
        ensures
            forall|i: int|
                0 <= i < self.spec_tiles().len() ==> spec_shifted_cmd(
                    #[trigger] spec_tile_cmd(sprite, self.spec_tiles()[i], (Point { x: 0, y: 0 })),
                    spec_tile_cmd(sprite, self.spec_tiles()[i], offset),
                    offset.x as int,
                    offset.y as int,
                ),
    {
        assert forall|i: int| 0 <= i < self.spec_tiles().len() implies spec_shifted_cmd(
            #[trigger] spec_tile_cmd(sprite, self.spec_tiles()[i], (Point { x: 0, y: 0 })),
            spec_tile_cmd(sprite, self.spec_tiles()[i], offset),
            offset.x as int,
            offset.y as int,
        ) by {
            let t = self.spec_tiles()[i];
            assert(0 <= t.position.x <= self.spec_cols() * self.spec_tile_w()
                - self.spec_tile_w());
            assert(0 <= t.position.y <= self.spec_rows() * self.spec_tile_h()
                - self.spec_tile_h());
            assert(i32::MIN <= t.position.x - offset.x <= i32::MAX);
            assert(i32::MIN <= t.position.y - offset.y <= i32::MAX);
        }
    }
}

} // verus!
