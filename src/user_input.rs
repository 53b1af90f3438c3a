use vstd::prelude::*;

verus! {

/// A screen position in pixels.
pub type Pixel = (i32, i32);

/// The three buttons a mouse reports.
#[derive(Clone, Copy, Debug, PartialEq, Eq, Structural)]
pub enum MouseButton {
    Left,
    Middle,
    Right,
}

impl MouseButton {
    /// The button's slot: 0 for left, 1 for middle, 2 for right.
    pub open spec fn slot(self) -> int {
        match self {
            MouseButton::Left => 0,
            MouseButton::Middle => 1,
            MouseButton::Right => 2,
        }
    }

    pub fn index(&self) -> (r: usize)
        ensures
            r == self.slot(),
    {
        match self {
            MouseButton::Left => 0,
            MouseButton::Middle => 1,
            MouseButton::Right => 2,
        }
    }
}

/// What a mouse tracker knows: where each button went down (for a button
/// that is held), and the two most recent pointer positions.
pub struct MouseView {
    pub pressed: Seq<Option<Pixel>>,
    pub last: Option<Pixel>,
    pub current: Option<Pixel>,
}

/// Collects mouse events into the state that a frame reads: clicks, the
/// pointer position, and the movement since the previous event.
#[derive(Clone, Copy, Debug)]
pub struct Mouse {
    button_downed: [Option<Pixel>; 3],
    last_position: Option<Pixel>,
    current_position: Option<Pixel>,
}

impl View for Mouse {
    type V = MouseView;

    closed spec fn view(&self) -> MouseView {
        MouseView {
            pressed: self.button_downed@,
            last: self.last_position,
            current: self.current_position,
        }
    }
}

/// The pointer history after a move to `p`: the previous position, if any,
/// becomes the last one.
pub open spec fn moved(m: MouseView, p: Pixel) -> MouseView {
    MouseView {
        pressed: m.pressed,
        last: if m.current is Some { m.current } else { m.last },
        current: Some(p),
    }
}

/// The tracker after an event at `p` that sets the slot of `button` to `slot`,
/// when `button` names one of the three buttons.
pub open spec fn button_event(m: MouseView, p: Pixel, button: i32, slot: Option<Pixel>) -> MouseView {
    let n = moved(m, p);
    if 0 <= button <= 2 {
        MouseView { pressed: n.pressed.update(button as int, slot), ..n }
    } else {
        n
    }
}

/// `a - b`, wrapped into the range of `i32`.
pub open spec fn wrapped_diff(a: i32, b: i32) -> i32 {
    let d = a - b;
    if d > i32::MAX {
        (d - 0x1_0000_0000) as i32
    } else if d < i32::MIN {
        (d + 0x1_0000_0000) as i32
    } else {
        d as i32
    }
}

/// The movement from the last position to the current one, while `button`
/// is held and both positions are known; coordinates wrap as `i32` does.
pub open spec fn drag_of(m: MouseView, button: MouseButton) -> Option<Pixel> {
    if m.pressed[button.slot()] is Some && m.last is Some && m.current is Some {
        let (x0, y0) = m.last->0;
        let (x1, y1) = m.current->0;
        Some((wrapped_diff(x1, x0), wrapped_diff(y1, y0)))
    } else {
        None
    }
}

impl Mouse {
    /// A tracker that has seen no event.
    pub fn new() -> (r: Mouse)
        ensures
            r@.pressed == seq![None::<Pixel>, None, None],
            r@.last is None,
            r@.current is None,
    {
        let r = Mouse { button_downed: [None, None, None], last_position: None, current_position: None };
        assert(r@.pressed =~= seq![None::<Pixel>, None, None]);
        r
    }

    /// Records a button press at `(x, y)`; `button` is 0, 1 or 2 for the
    /// left, middle or right button, and any other value only moves the pointer.
    pub fn add_mousedown(&mut self, x: i32, y: i32, button: i32)
        ensures
            final(self)@ == button_event(old(self)@, (x, y), button, Some((x, y))),
    {
        self.add_position(x, y);
        if 0 <= button && button <= 2 {
            self.button_downed[button as usize] = Some((x, y));
        }
    }

    /// Records a button release at `(x, y)`; `button` as in `add_mousedown`.
    pub fn add_mouseup(&mut self, x: i32, y: i32, button: i32)
        ensures
            final(self)@ == button_event(old(self)@, (x, y), button, None),
    {
        self.add_position(x, y);
        if 0 <= button && button <= 2 {
            self.button_downed[button as usize] = None;
        }
    }

    /// Records a pointer move to `(x, y)`.
    pub fn add_mousemove(&mut self, x: i32, y: i32)
        ensures
            final(self)@ == moved(old(self)@, (x, y)),
    {
        self.add_position(x, y);
    }

    fn add_position(&mut self, x: i32, y: i32)
        ensures
            final(self)@ == moved(old(self)@, (x, y)),
    {
        if let Some(c) = self.current_position {
            self.last_position = Some(c);
        }
        self.current_position = Some((x, y));
    }

    /// The most recent pointer position.
    pub fn current_position(&self) -> (r: Option<Pixel>)
        ensures
            r == self@.current,
    {
        self.current_position
    }

    /// Where `button` went down, while it is held.
    pub fn click(&self, button: MouseButton) -> (r: Option<Pixel>)
        ensures
            r == self@.pressed[button.slot()],
    {
        self.button_downed[button.index()]
    }

    /// The pointer movement of the latest event, while `button` is held.
    pub fn drag(&self, button: MouseButton) -> (r: Option<Pixel>)
        ensures
            r == drag_of(self@, button),
    {
        if self.button_downed[button.index()].is_none() {
            return None;
        }
        match (self.last_position, self.current_position) {
            (Some((x0, y0)), Some((x1, y1))) => Some((x1.wrapping_sub(x0), y1.wrapping_sub(y0))),
            _ => None,
        }
    }
}

} // verus!
