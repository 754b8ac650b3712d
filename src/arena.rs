//! The fixed dimensions and rules of a match.

use vstd::prelude::*;

verus! {

/// Bound on every dimension and speed, so that positions stay far from overflow.
pub const LIMIT: i64 = 0x4000_0000;

/// Side length of the square ball in the standard layout.
pub const BALL_SIZE: i64 = 20;

/// Horizontal ball speed, paddle speed and largest vertical serve speed of the
/// standard layout, in pixels per tick.
pub const SPEED: i64 = 8;

/// A side wins the match when its score goes above this.
pub const WINNING_SCORE: u32 = 14;

/// Width and height of the standard arena.
pub const STANDARD_WIDTH: i64 = 1366;

pub const STANDARD_HEIGHT: i64 = 768;

/// Dimensions of the arena, the ball and the paddles, their speeds, and the
/// score that must be exceeded to win.
#[derive(Clone, Copy, Debug, PartialEq, Eq, Structural)]
pub struct Arena {
    pub width: i64,
    pub height: i64,
    pub ball_size: i64,
    /// Horizontal speed of the ball, which only ever changes direction.
    pub ball_speed: i64,
    /// A serve gives the ball a vertical speed in `[-serve_speed, serve_speed]`.
    pub serve_speed: i64,
    pub paddle_width: i64,
    pub paddle_height: i64,
    pub paddle_speed: i64,
    /// Horizontal centres of the two paddles.
    pub left_paddle_x: i64,
    pub right_paddle_x: i64,
    pub winning_score: u32,
}

impl Arena {
    pub open spec fn wf(self) -> bool {
        &&& 0 < self.width <= LIMIT
        &&& 0 < self.height <= LIMIT
        &&& 0 <= self.ball_size <= LIMIT
        &&& 0 < self.ball_speed <= LIMIT
        &&& 0 <= self.serve_speed <= LIMIT
        &&& 0 < self.paddle_width <= LIMIT
        &&& 0 < self.paddle_height <= self.height
        &&& 0 <= self.paddle_speed <= LIMIT
        &&& 0 <= self.left_paddle_x <= self.width
        &&& 0 <= self.right_paddle_x <= self.width
        &&& self.winning_score < u32::MAX
    }

    /// The lowest top coordinate a paddle may have: it then touches the bottom edge.
    pub open spec fn paddle_limit(self) -> int {
        self.height - self.paddle_height
    }

    /// An arena of the given size with the standard proportions: paddles a
    /// fiftieth of the width wide and a tenth of the height tall, centred a
    /// twentieth of the width in from each side wall.
    pub fn sized(width: i64, height: i64) -> (r: Arena)
        requires
            50 <= width <= LIMIT,
            10 <= height <= LIMIT,
        ensures
            r.wf(),
            r == Arena::sized_spec(width as int, height as int),
    {
        Arena {
            width,
            height,
            ball_size: BALL_SIZE,
            ball_speed: SPEED,
            serve_speed: SPEED,
            paddle_width: width / 50,
            paddle_height: height / 10,
            paddle_speed: SPEED,
            left_paddle_x: width / 20,
            right_paddle_x: (width / 20) * 19,
            winning_score: WINNING_SCORE,
        }
    }

    /// The standard 1366 by 768 arena.
    pub fn standard() -> (r: Arena)
        ensures
            r.wf(),
            r == Arena::sized_spec(STANDARD_WIDTH as int, STANDARD_HEIGHT as int),
    {
        Arena::sized(STANDARD_WIDTH, STANDARD_HEIGHT)
    }

    /// What `sized` returns.
    pub open spec fn sized_spec(width: int, height: int) -> Arena {
        Arena {
            width: width as i64,
            height: height as i64,
            ball_size: BALL_SIZE,
            ball_speed: SPEED,
            serve_speed: SPEED,
            paddle_width: (width / 50) as i64,
            paddle_height: (height / 10) as i64,
            paddle_speed: SPEED,
            left_paddle_x: (width / 20) as i64,
            right_paddle_x: ((width / 20) * 19) as i64,
            winning_score: WINNING_SCORE,
        }
    }
}

} // verus!
