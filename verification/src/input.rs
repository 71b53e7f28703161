use vstd::prelude::*;

verus! {

/// The keys the player character reacts to. Every other key of the
/// keyboard is `Other`.
#[derive(Clone, Copy, Debug, PartialEq, Eq, Structural)]
pub enum KeyCode {
    KeyW,
    ArrowUp,
    KeyA,
    ArrowLeft,
    KeyS,
    ArrowDown,
    KeyD,
    ArrowRight,
    Other,
}

/// Which of the four movement keys are currently held down.
#[derive(Clone, Copy, Debug, PartialEq, Eq, Structural)]
pub struct InputState {
    pub up: bool,
    pub down: bool,
    pub left: bool,
    pub right: bool,
}

/// The input state after the key `code` went down (`pressed`) or up.
/// W and the up arrow drive `up`, A and the left arrow drive `left`,
/// S and the down arrow drive `down`, D and the right arrow drive `right`;
/// any other key leaves the state as it is.
pub open spec fn after_key(s: InputState, code: KeyCode, pressed: bool) -> InputState {
    match code {
        KeyCode::KeyW | KeyCode::ArrowUp => InputState { up: pressed, ..s },
        KeyCode::KeyA | KeyCode::ArrowLeft => InputState { left: pressed, ..s },
        KeyCode::KeyS | KeyCode::ArrowDown => InputState { down: pressed, ..s },
        KeyCode::KeyD | KeyCode::ArrowRight => InputState { right: pressed, ..s },
        KeyCode::Other => s,
    }
}

/// Horizontal direction asked for by the held keys, in units of the
/// player's acceleration: right counts +1, left counts -1.
pub open spec fn direction_of(s: InputState) -> int {
    (if s.right { 1int } else { 0int }) - (if s.left { 1int } else { 0int })
}

/// The decisions of one simulation step of the player, made from the held
/// keys and whether the player stands on the ground.
#[derive(Clone, Copy, Debug, PartialEq, Eq, Structural)]
pub struct StepPlan {
    /// -1, 0 or 1: the sign of the horizontal acceleration.
    pub direction: i8,
    /// Friction slows the horizontal velocity when no direction is held.
    pub apply_friction: bool,
    /// The player starts a jump this step.
    pub jump: bool,
    /// Whether the player is still on the ground after the jump decision.
    pub grounded: bool,
}

impl Default for InputState {
    fn default() -> (s: Self)
        ensures
            s == (InputState { up: false, down: false, left: false, right: false }),
    {
        InputState { up: false, down: false, left: false, right: false }
    }
}

impl InputState {
    /// Records that the key `code` went down (`pressed`) or was released.
    pub fn handle_key(&mut self, code: KeyCode, pressed: bool)
        ensures
            *final(self) == after_key(*old(self), code, pressed),
            final(self).up == (if code == KeyCode::KeyW || code == KeyCode::ArrowUp {
                pressed
            } else {
                old(self).up
            }),
            final(self).left == (if code == KeyCode::KeyA || code == KeyCode::ArrowLeft {
                pressed
            } else {
                old(self).left
            }),
            final(self).down == (if code == KeyCode::KeyS || code == KeyCode::ArrowDown {
                pressed
            } else {
                old(self).down
            }),
            final(self).right == (if code == KeyCode::KeyD || code == KeyCode::ArrowRight {
                pressed
            } else {
                old(self).right
            }),
    {
        match code {
            KeyCode::KeyW | KeyCode::ArrowUp => {
                self.up = pressed;
            },
            KeyCode::KeyA | KeyCode::ArrowLeft => {
                self.left = pressed;
            },
            KeyCode::KeyS | KeyCode::ArrowDown => {
                self.down = pressed;
            },
            KeyCode::KeyD | KeyCode::ArrowRight => {
                self.right = pressed;
            },
            KeyCode::Other => {},
        }
    }

    /// The sign of the horizontal acceleration: left and right held
    /// together cancel out.
    pub fn horizontal_direction(&self) -> (d: i8)
        ensures
            d as int == direction_of(*self),
            -1 <= d <= 1,
            d == (if self.right { 1i8 } else { 0i8 }) - (if self.left { 1i8 } else { 0i8 }),
    {
        let mut d: i8 = 0;
        if self.left {
            d = d - 1;
        }
        if self.right {
            d = d + 1;
        }
        d
    }

    /// The decisions of one player update: which way to accelerate,
    /// whether friction applies, and whether a jump starts. A jump needs
    /// the up key and ground under the player, and leaves the ground.
    pub fn plan_update(&self, grounded: bool) -> (p: StepPlan)
        ensures
            p.direction as int == direction_of(*self),
            p.direction == (if self.right { 1i8 } else { 0i8 }) - (if self.left { 1i8 } else { 0i8 }),
            p.apply_friction == (self.left == self.right),
            p.apply_friction == (direction_of(*self) == 0),
            p.jump == (self.up && grounded),
            p.grounded == (grounded && !self.up),
    {
        let direction = self.horizontal_direction();
        let jump = self.up && grounded;
        StepPlan {
            direction,
            apply_friction: direction == 0,
            jump,
            grounded: grounded && !jump,
        }
    }
}

/// Pressing a key and then releasing it leaves every held key as it was
/// before the press, provided that key was not held already.
pub proof fn lemma_press_release(s: InputState, code: KeyCode)
    requires
        after_key(s, code, false) == s,
    ensures
        after_key(after_key(s, code, true), code, false) == s,
{
}

/// The two keys bound to one direction have the same effect.
pub proof fn lemma_key_pairs_agree(s: InputState, pressed: bool)
    ensures
        after_key(s, KeyCode::KeyW, pressed) == after_key(s, KeyCode::ArrowUp, pressed),
        after_key(s, KeyCode::KeyA, pressed) == after_key(s, KeyCode::ArrowLeft, pressed),
        after_key(s, KeyCode::KeyS, pressed) == after_key(s, KeyCode::ArrowDown, pressed),
        after_key(s, KeyCode::KeyD, pressed) == after_key(s, KeyCode::ArrowRight, pressed),
{
}

/// A key event changes at most the one direction its key is bound to.
pub proof fn lemma_key_changes_one_direction(s: InputState, code: KeyCode, pressed: bool)
    ensures
        ({
            let t = after_key(s, code, pressed);
            &&& (t.up != s.up ==> (code == KeyCode::KeyW || code == KeyCode::ArrowUp))
            &&& (t.left != s.left ==> (code == KeyCode::KeyA || code == KeyCode::ArrowLeft))
            &&& (t.down != s.down ==> (code == KeyCode::KeyS || code == KeyCode::ArrowDown))
            &&& (t.right != s.right ==> (code == KeyCode::KeyD || code == KeyCode::ArrowRight))
        }),
{
}

/// Whether `code` is bound to a direction, and if so whether `s` holds it.
pub open spec fn key_held(s: InputState, code: KeyCode) -> Option<bool> {
    match code {
        KeyCode::KeyW | KeyCode::ArrowUp => Some(s.up),
        KeyCode::KeyA | KeyCode::ArrowLeft => Some(s.left),
        KeyCode::KeyS | KeyCode::ArrowDown => Some(s.down),
        KeyCode::KeyD | KeyCode::ArrowRight => Some(s.right),
        KeyCode::Other => None,
    }
}

/// After a key event, the direction bound to the key is held exactly when
/// the event was a press, whatever it was before; a repeated event (such
/// as keyboard auto-repeat) changes nothing more.
pub proof fn lemma_key_sets_its_direction(s: InputState, code: KeyCode, pressed: bool)
    ensures
        code != KeyCode::Other ==> key_held(after_key(s, code, pressed), code) == Some(pressed),
        after_key(after_key(s, code, pressed), code, pressed) == after_key(s, code, pressed),
{
}

/// The horizontal direction is right minus left; the up and down keys play
/// no part in it.
pub proof fn lemma_direction_from_left_right(s: InputState, up: bool, down: bool)
    ensures
        direction_of(s) == (if s.right { 1int } else { 0int }) - (if s.left { 1int } else { 0int }),
        direction_of(s) == direction_of(InputState { up, down, ..s }),
        s.left && !s.right ==> direction_of(s) == -1,
        s.right && !s.left ==> direction_of(s) == 1,
        direction_of(s) == 0 <==> s.left == s.right,
{
}

} // verus!
