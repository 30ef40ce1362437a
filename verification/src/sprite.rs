//! Sprites: one texture handle plus mutable modulation state, drawn by
//! emitting plain draw commands that the presentation layer executes.

use vstd::prelude::*;
use crate::geom::{Point, Rect};

verus! {

/// How source pixels are combined with destination pixels.
#[derive(Clone, Copy, Debug, PartialEq, Eq, Structural)]
pub enum BlendMode {
    /// Source replaces destination.
    Replace,
    /// Source is blended by its alpha value.
    AlphaBlend,
    /// Source is added to destination.
    Additive,
    /// Destination is multiplied by source.
    Modulate,
}

/// Mirroring applied to the destination composite of a draw.
#[derive(Clone, Copy, Debug, PartialEq, Eq, Structural)]
pub enum Flip {
    NoFlip,
    Horizontal,
    Vertical,
}

/// One fully-resolved draw: everything the presentation layer needs to
/// copy a texture region to the destination, with the modulation state
/// captured at the moment the draw was issued.
#[derive(Clone, Copy, Debug, PartialEq, Eq, Structural)]
pub struct DrawCmd {
    /// Arena-indexed handle of the texture to copy from.
    pub texture: u32,
    /// Sub-rectangle of the texture to copy; `None` copies the whole texture.
    pub src: Option<Rect>,
    /// Destination rectangle, unscaled: its extent equals the source extent.
    pub dst: Rect,
    /// Clockwise rotation of the destination composite, in whole degrees.
    pub angle_degrees: i32,
    /// Rotation pivot; `None` means the geometric center of `dst`.
    pub pivot: Option<Point>,
    /// Mirror the destination composite horizontally.
    pub flip_h: bool,
    /// Mirror the destination composite vertically.
    pub flip_v: bool,
    /// Red, green and blue channel multipliers at draw time.
    pub mod_r: u8,
    pub mod_g: u8,
    pub mod_b: u8,
    /// Alpha multiplier at draw time.
    pub mod_a: u8,
    /// Blend mode at draw time.
    pub blend: BlendMode,
}

/// A drawable texture with its current modulation and blend state.
///
/// Mutating the state affects only draws issued afterwards: each emitted
/// [`DrawCmd`] carries a snapshot of the state it was issued under.
#[derive(Clone, Copy, Debug, PartialEq, Eq, Structural)]
pub struct Sprite {
    texture: u32,
    width: u32,
    height: u32,
    mod_r: u8,
    mod_g: u8,
    mod_b: u8,
    mod_a: u8,
    blend: BlendMode,
}

impl Sprite {
    pub closed spec fn spec_texture(self) -> u32 {
        self.texture
    }

    pub closed spec fn spec_width(self) -> u32 {
        self.width
    }

    pub closed spec fn spec_height(self) -> u32 {
        self.height
    }

    pub closed spec fn spec_color_mod(self) -> (u8, u8, u8) {
        (self.mod_r, self.mod_g, self.mod_b)
    }

    pub closed spec fn spec_alpha_mod(self) -> u8 {
        self.mod_a
    }

    pub closed spec fn spec_blend_mode(self) -> BlendMode {
        self.blend
    }

    /// The command emitted for a draw of `clip` (or the whole texture) at
    /// `(x, y)` with rotation `angle_degrees` about `pivot`, mirrored by
    /// `flip`, under the sprite's current state.
    pub open spec fn spec_render_ex(
        self,
        x: i32,
        y: i32,
        clip: Option<Rect>,
        angle_degrees: i32,
        pivot: Option<Point>,
        flip: Flip,
    ) -> DrawCmd {
        let w = match clip {
            Option::Some(c) => c.w,
            Option::None => self.spec_width(),
        };
        let h = match clip {
            Option::Some(c) => c.h,
            Option::None => self.spec_height(),
        };
        DrawCmd {
            texture: self.spec_texture(),
            src: clip,
            dst: Rect { x, y, w, h },
            angle_degrees,
            pivot,
            flip_h: flip is Horizontal,
            flip_v: flip is Vertical,
            mod_r: self.spec_color_mod().0,
            mod_g: self.spec_color_mod().1,
            mod_b: self.spec_color_mod().2,
            mod_a: self.spec_alpha_mod(),
            blend: self.spec_blend_mode(),
        }
    }

    /// The command emitted for a plain draw: no rotation, default pivot,
    /// no mirroring.
    pub open spec fn spec_render(self, x: i32, y: i32, clip: Option<Rect>) -> DrawCmd {
        self.spec_render_ex(x, y, clip, 0, Option::None, Flip::NoFlip)
    }

    /// A freshly created sprite draws the texture unmodified: full color
    /// and alpha multipliers, replacing blend.
    pub fn new(texture: u32, width: u32, height: u32) -> (s: Sprite)
        ensures
            s.spec_texture() == texture,
            s.spec_width() == width,
            s.spec_height() == height,
            s.spec_color_mod() == (255u8, 255u8, 255u8),
            s.spec_alpha_mod() == 255u8,
            s.spec_blend_mode() == BlendMode::Replace,
    {
        Sprite {
            texture,
            width,
            height,
            mod_r: 255,
            mod_g: 255,
            mod_b: 255,
            mod_a: 255,
            blend: BlendMode::Replace,
        }
    }

    pub fn width(&self) -> (w: u32)
        ensures
            w == self.spec_width(),
    {
        self.width
    }

    pub fn height(&self) -> (h: u32)
        ensures
            h == self.spec_height(),
    {
        self.height
    }

    /// Set the color channel multipliers; only later draws are affected.
    pub fn set_color(&mut self, r: u8, g: u8, b: u8)
        ensures
            final(self).spec_color_mod() == (r, g, b),
            final(self).spec_texture() == old(self).spec_texture(),
            final(self).spec_width() == old(self).spec_width(),
            final(self).spec_height() == old(self).spec_height(),
            final(self).spec_alpha_mod() == old(self).spec_alpha_mod(),
            final(self).spec_blend_mode() == old(self).spec_blend_mode(),
    {
        self.mod_r = r;
        self.mod_g = g;
        self.mod_b = b;
    }

    /// Set the alpha multiplier; only later draws are affected.
    pub fn set_alpha(&mut self, alpha: u8)
        ensures
            final(self).spec_alpha_mod() == alpha,
            final(self).spec_texture() == old(self).spec_texture(),
            final(self).spec_width() == old(self).spec_width(),
            final(self).spec_height() == old(self).spec_height(),
            final(self).spec_color_mod() == old(self).spec_color_mod(),
            final(self).spec_blend_mode() == old(self).spec_blend_mode(),
    {
        self.mod_a = alpha;
    }

    /// Set the blend mode; only later draws are affected.
    pub fn set_blend_mode(&mut self, blend_mode: BlendMode)
        ensures
            final(self).spec_blend_mode() == blend_mode,
            final(self).spec_texture() == old(self).spec_texture(),
            final(self).spec_width() == old(self).spec_width(),
            final(self).spec_height() == old(self).spec_height(),
            final(self).spec_color_mod() == old(self).spec_color_mod(),
            final(self).spec_alpha_mod() == old(self).spec_alpha_mod(),
    {
        self.blend = blend_mode;
    }

    /// Issue a plain draw of `clip` (or the whole texture) at `(x, y)`.
    pub fn render(&self, x: i32, y: i32, clip: Option<Rect>) -> (cmd: DrawCmd)
        ensures
            cmd == self.spec_render(x, y, clip),
    {
        self.render_ex(x, y, clip, 0, Option::None, Flip::NoFlip)
    }

    /// Issue a draw rotated clockwise by `angle_degrees` about `pivot`
    /// (`None`: the center of the destination rectangle), then mirrored
    /// per `flip`. Rotation and mirroring apply to the destination
    /// composite; the source pixels are never changed.
    pub fn render_ex(
        &self,
        x: i32,
        y: i32,
        clip: Option<Rect>,
        angle_degrees: i32,
        pivot: Option<Point>,
        flip: Flip,
    ) -> (cmd: DrawCmd)
        ensures
            cmd == self.spec_render_ex(x, y, clip, angle_degrees, pivot, flip),
    {
        let (flip_h, flip_v) = match flip {
            Flip::NoFlip => (false, false),
            Flip::Horizontal => (true, false),
            Flip::Vertical => (false, true),
        };
        let (w, h) = match clip {
            Option::Some(c) => (c.w, c.h),
            Option::None => (self.width, self.height),
        };
        DrawCmd {
            texture: self.texture,
            src: clip,
            dst: Rect { x, y, w, h },
            angle_degrees,
            pivot,
            flip_h,
            flip_v,
            mod_r: self.mod_r,
            mod_g: self.mod_g,
            mod_b: self.mod_b,
            mod_a: self.mod_a,
            blend: self.blend,
        }
    }
}

/// A rotation of zero degrees about the default pivot with no mirroring
/// leaves the draw exactly as the plain one: the two commands are equal,
/// so the two draws are pixel-identical.
pub proof fn lemma_render_ex_identity(s: Sprite, x: i32, y: i32, clip: Option<Rect>)
    ensures
        s.spec_render_ex(x, y, clip, 0, Option::None, Flip::NoFlip) == s.spec_render(x, y, clip),
{
}

} // verus!
