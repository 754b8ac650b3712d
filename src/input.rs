//! Key state and the motion of the paddles it commands.

use vstd::prelude::*;

verus! {

/// Key codes of the keys that move the paddles: `w` and `s` move the left
/// paddle up and down, `i` and `k` the right one.
pub const KEY_W: i32 = 0x77;

pub const KEY_S: i32 = 0x73;

pub const KEY_I: i32 = 0x69;

pub const KEY_K: i32 = 0x6B;

/// One of the four paddle commands.
#[derive(Clone, Copy, Debug, PartialEq, Eq, Structural)]
pub enum Control {
    LeftUp,
    LeftDown,
    RightUp,
    RightDown,
}

/// Which of the four commands are held down.
#[derive(Clone, Copy, Debug, PartialEq, Eq, Structural)]
pub struct Keys {
    pub left_up: bool,
    pub left_down: bool,
    pub right_up: bool,
    pub right_down: bool,
}

/// The command that a key code stands for, if any.
pub open spec fn control_spec(code: int) -> Option<Control> {
    if code == KEY_W {
        Some(Control::LeftUp)
    } else if code == KEY_S {
        Some(Control::LeftDown)
    } else if code == KEY_I {
        Some(Control::RightUp)
    } else if code == KEY_K {
        Some(Control::RightDown)
    } else {
        None
    }
}

/// `keys` with the flag of `c` set to `pressed`.
pub open spec fn with_control(keys: Keys, c: Control, pressed: bool) -> Keys {
    match c {
        Control::LeftUp => Keys { left_up: pressed, ..keys },
        Control::LeftDown => Keys { left_down: pressed, ..keys },
        Control::RightUp => Keys { right_up: pressed, ..keys },
        Control::RightDown => Keys { right_down: pressed, ..keys },
    }
}

/// `keys` after the key `code` was pressed or released: keys that command
/// nothing leave it as it is.
pub open spec fn with_key(keys: Keys, code: int, pressed: bool) -> Keys {
    match control_spec(code) {
        Some(c) => with_control(keys, c, pressed),
        None => keys,
    }
}

/// Top of a paddle after one tick: up by `speed` if only `up` is held and it is
/// below the top edge, down by `speed` if only `down` is held and it is above
/// `limit`, each move stopping at the edge. Both held cancel out.
pub open spec fn paddle_moved(top: int, up: bool, down: bool, speed: int, limit: int) -> int {
    if up && !down && top > 0 {
        if top - speed < 0 {
            0
        } else {
            top - speed
        }
    } else if down && !up && top < limit {
        if top + speed > limit {
            limit
        } else {
            top + speed
        }
    } else {
        top
    }
}

impl Keys {
    /// No key held.
    pub fn released() -> (r: Keys)
        ensures
            !r.left_up && !r.left_down && !r.right_up && !r.right_down,
    {
        Keys { left_up: false, left_down: false, right_up: false, right_down: false }
    }

    /// Sets the flag of `c` to `pressed`, leaving the others.
    pub fn set(&mut self, c: Control, pressed: bool)
        ensures
            *final(self) == with_control(*old(self), c, pressed),
    {
        match c {
            Control::LeftUp => self.left_up = pressed,
            Control::LeftDown => self.left_down = pressed,
            Control::RightUp => self.right_up = pressed,
            Control::RightDown => self.right_down = pressed,
        }
    }
}

/// The command that a key code stands for, if any.
pub fn control_of_key(code: i32) -> (r: Option<Control>)
    ensures
        r == control_spec(code as int),
{
    if code == KEY_W {
        Some(Control::LeftUp)
    } else if code == KEY_S {
        Some(Control::LeftDown)
    } else if code == KEY_I {
        Some(Control::RightUp)
    } else if code == KEY_K {
        Some(Control::RightDown)
    } else {
        None
    }
}

/// Moves a paddle's top coordinate by one tick of the held keys.
pub fn move_paddle(top: i64, up: bool, down: bool, speed: i64, limit: i64) -> (r: i64)
    requires
        0 <= top <= limit,
        0 <= speed <= i64::MAX / 2,
        limit <= i64::MAX / 2,
    ensures
        r == paddle_moved(top as int, up, down, speed as int, limit as int),
        up && down ==> r == top,
        0 <= r <= limit,
{
    if up && !down && top > 0 {
        if top < speed {
            0
        } else {
            top - speed
        }
    } else if down && !up && top < limit {
        if top + speed > limit {
            limit
        } else {
            top + speed
        }
    } else {
        top
    }
}

/// However many ticks pass, with whatever keys held, a paddle that starts in
/// `[0, limit]` stays there.
pub proof fn lemma_paddle_stays_in_range(top: int, up: bool, down: bool, speed: int, limit: int)
    requires
        0 <= top <= limit,
        speed >= 0,
    ensures
        0 <= paddle_moved(top, up, down, speed, limit) <= limit,
{
}

} // verus!
