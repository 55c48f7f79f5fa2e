//! Hit-testing of pointer events against a widget's local bounds, and the
//! per-frame hover / press state derived from it.
use vstd::prelude::*;
use crate::event::{GuiEvent, MouseEventType, PointerButton, Position};

verus! {

/// Visual state of a clickable widget, re-derived every frame.
#[derive(Clone, Copy, Debug, PartialEq, Eq, Structural)]
pub enum ButtonState {
    Default,
    Hover,
    Pressed,
}

/// The cumulative draw transform: a local point `p` is drawn at screen
/// position `(p.x * scale_x + tx, p.y * scale_y + ty)`.
#[derive(Clone, Copy, Debug, PartialEq, Eq, Structural)]
pub struct Transform {
    pub tx: i64,
    pub ty: i64,
    pub scale_x: u32,
    pub scale_y: u32,
}

/// A rectangle in local coordinates: `left <= x < right`, `top <= y < bottom`.
#[derive(Clone, Copy, Debug, PartialEq, Eq, Structural)]
pub struct Bounds {
    pub left: i64,
    pub top: i64,
    pub right: i64,
    pub bottom: i64,
}

/// The result of hit-testing one frame's event.
#[derive(Clone, Copy, Debug, PartialEq, Eq, Structural)]
pub struct ButtonEvent {
    pub state: ButtonState,
    /// The button whose press is reported to the widget's click handler.
    pub clicked: Option<PointerButton>,
}

impl Transform {
    /// Invertible: both scales are positive.
    pub open spec fn wf(self) -> bool {
        self.scale_x > 0 && self.scale_y > 0
    }

    /// Screen position `p`, mapped back to local coordinates, lies in `b`.
    /// Written multiplied out, so the test is exact.
    pub open spec fn maps_into(self, b: Bounds, p: Position) -> bool {
        &&& b.left * self.scale_x <= p.x - self.tx < b.right * self.scale_x
        &&& b.top * self.scale_y <= p.y - self.ty < b.bottom * self.scale_y
    }

    pub fn identity() -> (r: Transform)
        ensures
            r == (Transform { tx: 0, ty: 0, scale_x: 1, scale_y: 1 }),
            r.wf(),
    {
        Transform { tx: 0, ty: 0, scale_x: 1, scale_y: 1 }
    }

    /// This transform followed, in local space, by a move of `(dx, dy)`.
    pub fn translated(&self, dx: i32, dy: i32) -> (r: Transform)
        requires
            i64::MIN <= self.tx + dx * self.scale_x <= i64::MAX,
            i64::MIN <= self.ty + dy * self.scale_y <= i64::MAX,
        ensures
            r.tx == self.tx + dx * self.scale_x,
            r.ty == self.ty + dy * self.scale_y,
            r.scale_x == self.scale_x,
            r.scale_y == self.scale_y,
    {
        proof {
            lemma_small_product(dx as int, self.scale_x as int);
            lemma_small_product(dy as int, self.scale_y as int);
        }
        let tx: i64 = (self.tx as i128 + (dx as i128) * (self.scale_x as i128)) as i64;
        let ty: i64 = (self.ty as i128 + (dy as i128) * (self.scale_y as i128)) as i64;
        Transform { tx, ty, scale_x: self.scale_x, scale_y: self.scale_y }
    }

    /// Whether screen position `p` falls inside local bounds `b`.
    pub fn contains(&self, b: &Bounds, p: Position) -> (r: bool)
        requires
            self.wf(),
        ensures
            r == self.maps_into(*b, p),
    {
        proof {
            lemma_wide_product(b.left as int, self.scale_x as int);
            lemma_wide_product(b.right as int, self.scale_x as int);
            lemma_wide_product(b.top as int, self.scale_y as int);
            lemma_wide_product(b.bottom as int, self.scale_y as int);
        }
        let dx: i128 = p.x as i128 - self.tx as i128;
        let dy: i128 = p.y as i128 - self.ty as i128;
        let sx: i128 = self.scale_x as i128;
        let sy: i128 = self.scale_y as i128;
        (b.left as i128) * sx <= dx && dx < (b.right as i128) * sx && (b.top as i128) * sy <= dy
            && dy < (b.bottom as i128) * sy
    }
}

proof fn lemma_small_product(d: int, s: int)
    requires
        -0x8000_0000 <= d < 0x8000_0000,
        0 <= s < 0x1_0000_0000,
    ensures
        -0x80_0000_0000_0000_0000 <= d * s <= 0x80_0000_0000_0000_0000,
{
    assert(-0x80_0000_0000_0000_0000 <= d * s <= 0x80_0000_0000_0000_0000) by (nonlinear_arith)
        requires
            -0x8000_0000 <= d < 0x8000_0000,
            0 <= s < 0x1_0000_0000,
    ;
}

proof fn lemma_wide_product(d: int, s: int)
    requires
        -0x8000_0000_0000_0000 <= d < 0x8000_0000_0000_0000,
        0 <= s < 0x1_0000_0000,
    ensures
        -0x1_0000_0000_0000_0000_0000_0000 <= d * s <= 0x1_0000_0000_0000_0000_0000_0000,
{
    assert(-0x1_0000_0000_0000_0000_0000_0000 <= d * s <= 0x1_0000_0000_0000_0000_0000_0000)
        by (nonlinear_arith)
        requires
            -0x8000_0000_0000_0000 <= d < 0x8000_0000_0000_0000,
            0 <= s < 0x1_0000_0000,
    ;
}

/// The state a frame's event gives a widget with local `bounds` drawn under
/// `transform`: pressed on a pointer-down inside, hovered on any other
/// pointer event inside, default otherwise (no event, a key event, or a
/// pointer outside). No state is carried over from earlier frames.
pub open spec fn state_for(transform: Transform, bounds: Bounds, event: Option<GuiEvent>) -> ButtonState {
    match event {
        Some(e) => match e.pointer_position() {
            Some(p) => if transform.maps_into(bounds, p) {
                if e.pressed_button().is_some() {
                    ButtonState::Pressed
                } else {
                    ButtonState::Hover
                }
            } else {
                ButtonState::Default
            },
            None => ButtonState::Default,
        },
        None => ButtonState::Default,
    }
}

/// A pointer that moves inside the bounds hovers, a press inside them
/// presses and reports its button once, and a pointer outside leaves the
/// default state, whatever the widget showed before.
pub proof fn lemma_button_outcomes(transform: Transform, bounds: Bounds, p: Position, b: PointerButton)
    ensures
        transform.maps_into(bounds, p) ==> state_for(
            transform,
            bounds,
            Some(GuiEvent::MouseEvent(MouseEventType::Moved, p)),
        ) == ButtonState::Hover,
        transform.maps_into(bounds, p) ==> state_for(
            transform,
            bounds,
            Some(GuiEvent::MouseEvent(MouseEventType::MouseDown(b), p)),
        ) == ButtonState::Pressed,
        !transform.maps_into(bounds, p) ==> forall|kind: MouseEventType|
            #[trigger] state_for(transform, bounds, Some(GuiEvent::MouseEvent(kind, p)))
                == ButtonState::Default,
{
}

/// Hit-tests this frame's event. A pointer-down inside the bounds is reported
/// once, as `clicked`, on the frame of the press.
pub fn handle_event(transform: &Transform, bounds: &Bounds, event: Option<GuiEvent>) -> (r: ButtonEvent)
    requires
        transform.wf(),
    ensures
        r.state == state_for(*transform, *bounds, event),
        r.clicked == (if r.state == ButtonState::Pressed {
            event.unwrap().pressed_button()
        } else {
            None
        }),
{
    match event {
        Some(GuiEvent::MouseEvent(kind, pos)) => {
            if transform.contains(bounds, pos) {
                match kind {
                    MouseEventType::MouseDown(b) => ButtonEvent {
                        state: ButtonState::Pressed,
                        clicked: Some(b),
                    },
                    _ => ButtonEvent { state: ButtonState::Hover, clicked: None },
                }
            } else {
                ButtonEvent { state: ButtonState::Default, clicked: None }
            }
        },
        _ => ButtonEvent { state: ButtonState::Default, clicked: None },
    }
}

} // verus!
