//! A clickable screen region that tracks the mouse and picks its sprite
//! clip from a four-state sheet.

use vstd::prelude::*;
use crate::geom::{Point, Rect};
use crate::sprite::{DrawCmd, Sprite};

verus! {

/// Pixel width of one button cell in the button sprite sheet.
pub const BUTTON_WIDTH: u32 = 300;

/// Pixel height of one button cell in the button sprite sheet.
pub const BUTTON_HEIGHT: u32 = 200;

/// The button's visual state, set by the last mouse event it saw.
#[derive(Clone, Copy, Debug, PartialEq, Eq, Structural)]
pub enum ButtonType {
    MouseOut,
    MouseOver,
    MouseDown,
    MouseUp,
}

/// The kind of mouse event handed to a button, stripped to what the
/// button reads: motion, a press, a release, or anything else.
#[derive(Clone, Copy, Debug, PartialEq, Eq, Structural)]
pub enum MouseEventKind {
    Motion,
    ButtonDown,
    ButtonUp,
    Other,
}

/// The state a button enters on a mouse event at `(x, y)`: outside its
/// rectangle it always shows `MouseOut`; inside, motion, press and
/// release select their states and any other event leaves the state
/// alone.
pub open spec fn spec_button_transition(
    rect: Rect,
    state: ButtonType,
    kind: MouseEventKind,
    x: int,
    y: int,
) -> ButtonType {
    if rect.spec_contains(x, y) {
        match kind {
            MouseEventKind::Motion => ButtonType::MouseOver,
            MouseEventKind::ButtonDown => ButtonType::MouseDown,
            MouseEventKind::ButtonUp => ButtonType::MouseUp,
            MouseEventKind::Other => state,
        }
    } else {
        ButtonType::MouseOut
    }
}

/// The sprite-sheet row a state selects: the sheet stacks the four cells
/// vertically in the order out, over, down, up.
pub open spec fn spec_button_clip(state: ButtonType) -> Rect {
    let row: int = match state {
        ButtonType::MouseOut => 0,
        ButtonType::MouseOver => 1,
        ButtonType::MouseDown => 2,
        ButtonType::MouseUp => 3,
    };
    Rect { x: 0, y: (row * BUTTON_HEIGHT) as i32, w: BUTTON_WIDTH, h: BUTTON_HEIGHT }
}

/// A clickable region with its current visual state.
pub struct Button {
    rect: Rect,
    button_type: ButtonType,
}

impl Button {
    pub closed spec fn spec_rect(self) -> Rect {
        self.rect
    }

    pub closed spec fn spec_button_type(self) -> ButtonType {
        self.button_type
    }

    /// A new button covering the given rectangle, with the mouse assumed
    /// outside.
    pub fn new(x: i32, y: i32, width: u32, height: u32) -> (b: Button)
        ensures
            b.spec_rect() == (Rect { x, y, w: width, h: height }),
            b.spec_button_type() == ButtonType::MouseOut,
    {
        Button { rect: Rect { x, y, w: width, h: height }, button_type: ButtonType::MouseOut }
    }

    /// Whether `(x, y)` lies inside the button's rectangle.
    pub fn is_mouse_inside(&self, x: i32, y: i32) -> (r: bool)
        ensures
            r == self.spec_rect().spec_contains(x as int, y as int),
    {
        self.rect.contains_point(Point { x, y })
    }

    /// Track a mouse event at `(x, y)`: the state becomes what the
    /// transition table says; the rectangle never changes.
    pub fn on_mouse_event(&mut self, kind: MouseEventKind, x: i32, y: i32)
        ensures
            final(self).spec_rect() == old(self).spec_rect(),
            final(self).spec_button_type() == spec_button_transition(
                old(self).spec_rect(),
                old(self).spec_button_type(),
                kind,
                x as int,
                y as int,
            ),
    {
        if self.is_mouse_inside(x, y) {
            match kind {
                MouseEventKind::Motion => self.button_type = ButtonType::MouseOver,
                MouseEventKind::ButtonDown => self.button_type = ButtonType::MouseDown,
                MouseEventKind::ButtonUp => self.button_type = ButtonType::MouseUp,
                MouseEventKind::Other => {},
            }
        } else {
            self.button_type = ButtonType::MouseOut;
        }
    }

    /// Issue the button's draw: the sheet cell its state selects, drawn
    /// at the button's corner under the sprite's current modulation.
    pub fn render(&self, sprite: &Sprite) -> (cmd: DrawCmd)
        ensures
            cmd == sprite.spec_render(
                self.spec_rect().x,
                self.spec_rect().y,
                Option::Some(spec_button_clip(self.spec_button_type())),
            ),
    {
        let row: i32 = match self.button_type {
            ButtonType::MouseOut => 0,
            ButtonType::MouseOver => 1,
            ButtonType::MouseDown => 2,
            ButtonType::MouseUp => 3,
        };
        let clip = Rect {
            x: 0,
            y: row * (BUTTON_HEIGHT as i32),
            w: BUTTON_WIDTH,
            h: BUTTON_HEIGHT,
        };
        sprite.render(self.rect.x, self.rect.y, Option::Some(clip))
    }
}

} // verus!
