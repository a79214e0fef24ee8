//! Input state shared between the runtime and the game: the mouse and the
//! keyboard as the event loop last saw them, and the window configuration.
use std::collections::HashSet;
use vstd::prelude::*;

verus! {

broadcast use vstd::std_specs::hash::group_hash_axioms;

/// Size of the window the game asks for.
pub struct GameConfig {
    pub window_width: u32,
    pub window_height: u32,
}

/// Mouse state.  `left` / `right` are true only in the frame in which the
/// button went down; `left_held` / `right_held` stay true while it is down.
#[derive(Clone, Copy, Debug, Default, PartialEq, Eq)]
pub struct Mouse {
    pub position: (i32, i32),
    pub wheel: (i32, i32),
    pub position_rel: (i32, i32),
    pub left: bool,
    pub right: bool,
    pub left_held: bool,
    pub right_held: bool,
}

impl Mouse {
    /// The state after a left-button-down event: a press is reported only
    /// when the button was not already held.
    pub open spec fn pressing_left(self) -> Mouse {
        Mouse { left: !self.left_held, left_held: true, ..self }
    }

    /// The state after a left-button-up event.
    pub open spec fn releasing_left(self) -> Mouse {
        Mouse { left: false, left_held: false, ..self }
    }

    /// The state after a right-button-down event.
    pub open spec fn pressing_right(self) -> Mouse {
        Mouse { right: !self.right_held, right_held: true, ..self }
    }

    /// The state after a right-button-up event.
    pub open spec fn releasing_right(self) -> Mouse {
        Mouse { right: false, right_held: false, ..self }
    }

    /// The state after a motion event: the cursor is at `(x, y)`, and the
    /// relative motion is added to what was accumulated.
    pub open spec fn moved(self, x: i32, y: i32, xrel: i32, yrel: i32) -> Mouse {
        Mouse {
            position: (x, y),
            position_rel: ((self.position_rel.0 + xrel) as i32, (self.position_rel.1 + yrel) as i32),
            ..self
        }
    }

    /// The state at the start of a new frame: accumulated motion and wheel
    /// reset, buttons and position kept.
    pub open spec fn cleared(self) -> Mouse {
        Mouse { position_rel: (0, 0), wheel: (0, 0), ..self }
    }

    /// A mouse with no button down, at the origin.
    pub fn new() -> (r: Mouse)
        ensures
            r == (Mouse {
                position: (0, 0),
                wheel: (0, 0),
                position_rel: (0, 0),
                left: false,
                right: false,
                left_held: false,
                right_held: false,
            }),
    {
        Mouse {
            position: (0, 0),
            wheel: (0, 0),
            position_rel: (0, 0),
            left: false,
            right: false,
            left_held: false,
            right_held: false,
        }
    }

    /// Records that the left button went up.
    pub fn release_left(&mut self)
        ensures
            *final(self) == old(self).releasing_left(),
    {
        self.left = false;
        self.left_held = false;
    }

    /// Records that the left button is down.
    pub fn press_left(&mut self)
        ensures
            *final(self) == old(self).pressing_left(),
    {
        self.left = !self.left_held;
        self.left_held = true;
    }

    /// Records that the right button is down.
    pub fn press_right(&mut self)
        ensures
            *final(self) == old(self).pressing_right(),
    {
        self.right = !self.right_held;
        self.right_held = true;
    }

    /// Records that the right button went up.
    pub fn release_right(&mut self)
        ensures
            *final(self) == old(self).releasing_right(),
    {
        self.right = false;
        self.right_held = false;
    }

    /// Whether the left button went down in this frame.
    pub fn left_pressed(&self) -> (r: bool)
        ensures
            r == self.left,
    {
        self.left
    }

    /// Whether the left button is down.
    pub fn left_held(&self) -> (r: bool)
        ensures
            r == self.left_held,
    {
        self.left_held
    }

    /// Whether the right button went down in this frame.
    pub fn right_pressed(&self) -> (r: bool)
        ensures
            r == self.right,
    {
        self.right
    }

    /// Whether the right button is down.
    pub fn right_held(&self) -> (r: bool)
        ensures
            r == self.right_held,
    {
        self.right_held
    }

    /// The cursor position in window pixels.
    pub fn position(&self) -> (r: (i32, i32))
        ensures
            r == self.position,
    {
        self.position
    }

    /// The motion accumulated since the last `clear`.
    pub fn position_rel(&self) -> (r: (i32, i32))
        ensures
            r == self.position_rel,
    {
        self.position_rel
    }

    /// Records a wheel event.
    pub fn set_wheel(&mut self, x: i32, y: i32)
        ensures
            *final(self) == (Mouse { wheel: (x, y), ..*old(self) }),
    {
        self.wheel = (x, y);
    }

    /// The last wheel motion since the last `clear`.
    pub fn wheel(&self) -> (r: (i32, i32))
        ensures
            r == self.wheel,
    {
        self.wheel
    }

    /// Records a motion event: the cursor is now at `(x, y)`, and the
    /// relative motion is added to what was accumulated.
    pub fn set_position(&mut self, x: i32, y: i32, xrel: i32, yrel: i32)
        requires
            i32::MIN <= old(self).position_rel.0 + xrel <= i32::MAX,
            i32::MIN <= old(self).position_rel.1 + yrel <= i32::MAX,
        ensures
            *final(self) == old(self).moved(x, y, xrel, yrel),
    {
        self.position = (x, y);
        self.position_rel.0 = self.position_rel.0 + xrel;
        self.position_rel.1 = self.position_rel.1 + yrel;
    }

    /// Starts a new frame: the accumulated motion and wheel are reset; the
    /// buttons keep their state.
    pub fn clear(&mut self)
        ensures
            *final(self) == old(self).cleared(),
    {
        self.position_rel = (0, 0);
        self.wheel = (0, 0);
    }
}

/// A button-down event is reported as a press exactly when the button was
/// not held before, and the button is held afterwards; so of two button-down
/// events in a row only the first is a press, and after a button-up event
/// the next button-down event is a press again.
pub proof fn lemma_press_reported_once(m: Mouse)
    ensures
        m.pressing_left().left == !m.left_held,
        m.pressing_left().left_held,
        !m.pressing_left().pressing_left().left,
        m.releasing_left().pressing_left().left,
        !m.releasing_left().left && !m.releasing_left().left_held,
        m.pressing_right().right == !m.right_held,
        m.pressing_right().right_held,
        !m.pressing_right().pressing_right().right,
        m.releasing_right().pressing_right().right,
        !m.releasing_right().right && !m.releasing_right().right_held,
{
}

/// The position read back is the one of the last motion event: a motion
/// event overwrites the position (it does not add to it), the relative
/// motion adds up until the frame is cleared, and clearing keeps the
/// position.
pub proof fn lemma_position_after_motion(m: Mouse, x: i32, y: i32, xrel: i32, yrel: i32, x2: i32, y2: i32, xrel2: i32, yrel2: i32)
    requires
        i32::MIN <= m.position_rel.0 + xrel <= i32::MAX,
        i32::MIN <= m.position_rel.1 + yrel <= i32::MAX,
        i32::MIN <= m.position_rel.0 + xrel + xrel2 <= i32::MAX,
        i32::MIN <= m.position_rel.1 + yrel + yrel2 <= i32::MAX,
    ensures
        m.moved(x, y, xrel, yrel).position == (x, y),
        m.moved(x, y, xrel, yrel).moved(x2, y2, xrel2, yrel2).position == (x2, y2),
        m.moved(x, y, xrel, yrel).moved(x2, y2, xrel2, yrel2).position_rel == (
            (m.position_rel.0 + xrel + xrel2) as i32,
            (m.position_rel.1 + yrel + yrel2) as i32,
        ),
        m.moved(x, y, xrel, yrel).cleared().position == (x, y),
        m.cleared().position == m.position,
        m.moved(x, y, xrel, yrel).cleared().position_rel == (0i32, 0i32),
{
}

/// The left and the right button are independent: an event of one leaves
/// the state of the other as it was.
pub proof fn lemma_buttons_independent(m: Mouse)
    ensures
        m.pressing_left().right == m.right && m.pressing_left().right_held == m.right_held,
        m.releasing_left().right == m.right && m.releasing_left().right_held == m.right_held,
        m.pressing_right().left == m.left && m.pressing_right().left_held == m.left_held,
        m.releasing_right().left == m.left && m.releasing_right().left_held == m.left_held,
{
}

/// Keyboard state: the keys held down, and the keys pressed in this frame,
/// each by its SDL key code.
pub struct Keyboard {
    pub held: HashSet<i32>,
    pub pressed: HashSet<i32>,
}

impl Keyboard {
    /// No key held or pressed.
    pub fn new() -> (r: Keyboard)
        ensures
            r.held@ == Set::<i32>::empty(),
            r.pressed@ == Set::<i32>::empty(),
    {
        Keyboard { held: HashSet::new(), pressed: HashSet::new() }
    }

    /// Starts a new frame: no key counts as pressed.
    pub fn clear_pressed(&mut self)
        ensures
            final(self).pressed@ == Set::<i32>::empty(),
            final(self).held@ == old(self).held@,
    {
        self.pressed.clear();
    }

    /// Records that `key` went up.
    pub fn release(&mut self, key: i32)
        ensures
            final(self).pressed@ == old(self).pressed@.remove(key),
            final(self).held@ == old(self).held@,
    {
        self.pressed.remove(&key);
    }

    /// Records that `key` went down.
    pub fn press(&mut self, key: i32)
        ensures
            final(self).pressed@ == old(self).pressed@.insert(key),
            final(self).held@ == old(self).held@,
    {
        self.pressed.insert(key);
    }

    /// Whether `key` went down in this frame.
    pub fn pressed(&self, key: i32) -> (r: bool)
        ensures
            r == self.pressed@.contains(key),
    {
        self.pressed.contains(&key)
    }

    /// Replaces the set of held keys.
    pub fn hold(&mut self, keys: HashSet<i32>)
        ensures
            final(self).held@ == keys@,
            final(self).pressed@ == old(self).pressed@,
    {
        self.held.clear();
        self.held = keys;
    }

    /// Whether `key` is held down.
    pub fn held(&self, key: i32) -> (r: bool)
        ensures
            r == self.held@.contains(key),
    {
        self.held.contains(&key)
    }
}

impl Default for Keyboard {
    /// No key held or pressed.
    fn default() -> (r: Keyboard)
        ensures
            r.held@ == Set::<i32>::empty(),
            r.pressed@ == Set::<i32>::empty(),
    {
        Keyboard::new()
    }
}

/// After `press(k)`, `k` counts as pressed; after `release(k)` or
/// `clear_pressed`, it does not; other keys are not touched by either.
pub proof fn lemma_press_release(pressed: Set<i32>, k: i32, other: i32)
    requires
        other != k,
    ensures
        pressed.insert(k).contains(k),
        !pressed.remove(k).contains(k),
        !Set::<i32>::empty().contains(k),
        pressed.insert(k).contains(other) == pressed.contains(other),
        pressed.remove(k).contains(other) == pressed.contains(other),
{
}

} // verus!
