//! The state of a match and its advance by one tick: the ball moves, bounces
//! off the paddles and the top and bottom walls, a point is scored when it
//! leaves the arena sideways, and the paddles follow the held keys.

use crate::arena::{Arena, LIMIT};
use crate::geometry::{deflection, gen_y_offset, hit_rect, lemma_deflection_bounded};
use crate::input::{
    control_of_key, move_paddle, paddle_moved, with_control, with_key, Control, Keys,
};
use crate::random::random_below;
use vstd::prelude::*;

verus! {

/// Top coordinate of both paddles at the start, unless the arena is too short.
pub const PADDLE_START: i64 = 40;

/// One of the two players.
#[derive(Clone, Copy, Debug, PartialEq, Eq, Structural)]
pub enum Side {
    Left,
    Right,
}

/// What a tick led to.
#[derive(Clone, Copy, Debug, PartialEq, Eq, Structural)]
pub enum Round {
    /// No point: play goes on.
    InPlay,
    /// The side scored and the ball was served again.
    Point(Side),
    /// The side's score went above the winning score: both scores are back to
    /// zero and the ball was served for a new match.
    Match(Side),
}

/// A match: the ball (top-left corner and speed per tick), the top coordinate of
/// each paddle, the held keys and the scores.
#[derive(Clone, Copy, Debug)]
pub struct Pong {
    pub arena: Arena,
    pub ball_x: i64,
    pub ball_y: i64,
    pub x_velocity: i64,
    pub y_velocity: i64,
    pub left_top: i64,
    pub right_top: i64,
    pub keys: Keys,
    pub left_score: u32,
    pub right_score: u32,
}

/// `v` held to `[-LIMIT, LIMIT]`.
pub open spec fn clamp_speed(v: int) -> int {
    if v < -LIMIT {
        -LIMIT as int
    } else if v > LIMIT {
        LIMIT as int
    } else {
        v
    }
}

/// The paddle centred horizontally on `centre_x` with its top at `top` holds `(x, y)`.
pub open spec fn on_paddle(a: Arena, centre_x: int, top: int, x: int, y: int) -> bool {
    let left = centre_x - a.paddle_width / 2;
    &&& left <= x <= left + a.paddle_width
    &&& top <= y <= top + a.paddle_height
}

/// Centre of the ball.
pub open spec fn centre_x(s: Pong) -> int {
    s.ball_x + s.arena.ball_size / 2
}

pub open spec fn centre_y(s: Pong) -> int {
    s.ball_y + s.arena.ball_size / 2
}

/// The deflection of the ball by a paddle it hits: the left one when moving
/// left, the right one when moving right, each only if it holds the ball's centre.
pub open spec fn paddle_hit(s: Pong) -> Option<int> {
    let a = s.arena;
    if s.x_velocity < 0 && on_paddle(a, a.left_paddle_x as int, s.left_top as int, centre_x(s), centre_y(s)) {
        Some(deflection(s.left_top as int, a.paddle_height as int, centre_y(s)))
    } else if s.x_velocity > 0 && on_paddle(a, a.right_paddle_x as int, s.right_top as int, centre_x(s), centre_y(s)) {
        Some(deflection(s.right_top as int, a.paddle_height as int, centre_y(s)))
    } else {
        None
    }
}

/// The ball moved by its speed.
pub open spec fn moved(s: Pong) -> Pong {
    Pong { ball_x: (s.ball_x + s.x_velocity) as i64, ball_y: (s.ball_y + s.y_velocity) as i64, ..s }
}

/// A paddle hit adds its deflection to the vertical speed, which stays within
/// `[-LIMIT, LIMIT]`.
pub open spec fn deflected(s: Pong) -> Pong {
    match paddle_hit(s) {
        Some(d) => Pong { y_velocity: clamp_speed(s.y_velocity + d) as i64, ..s },
        None => s,
    }
}

/// A paddle hit deflects the ball and reverses its horizontal speed.
pub open spec fn after_paddle(s: Pong) -> Pong {
    if paddle_hit(s) is Some {
        Pong { x_velocity: -s.x_velocity as i64, ..deflected(s) }
    } else {
        s
    }
}

/// Beyond the top or bottom wall and still moving outward, the ball turns back.
pub open spec fn after_walls(s: Pong) -> Pong {
    if (s.ball_y < 0 && s.y_velocity < 0) || (s.ball_y > s.arena.height && s.y_velocity > 0) {
        Pong { y_velocity: -s.y_velocity as i64, ..s }
    } else {
        s
    }
}

/// The side that scores: the left past the right wall, the right when the ball
/// is past the left wall and still moving left.
pub open spec fn point_for(s: Pong) -> Option<Side> {
    if s.ball_x > s.arena.width {
        Some(Side::Left)
    } else if s.ball_x < 0 && s.x_velocity < 0 {
        Some(Side::Right)
    } else {
        None
    }
}

/// The ball served from the right edge moving left, or from the left edge
/// moving right, at height `y` with vertical speed `vy`.
pub open spec fn served(s: Pong, from_right: bool, vy: int, y: int) -> Pong {
    Pong {
        ball_x: if from_right { s.arena.width } else { 0 },
        ball_y: y as i64,
        x_velocity: if from_right { -s.arena.ball_speed as i64 } else { s.arena.ball_speed },
        y_velocity: vy as i64,
        ..s
    }
}

/// Both scores zero and the ball served, moving toward `toward`.
pub open spec fn new_match(s: Pong, toward: Side, vy: int, y: int) -> Pong {
    served(Pong { left_score: 0, right_score: 0, ..s }, toward == Side::Left, vy, y)
}

/// A point for `side`. Above the winning score, a new match starts with the ball
/// moving toward the loser; else the ball is served from the loser's edge
/// toward the scorer.
pub open spec fn scored(s: Pong, side: Side, vy: int, y: int) -> (Pong, Round) {
    let left = if side == Side::Left { s.left_score + 1 } else { s.left_score as int };
    let right = if side == Side::Right { s.right_score + 1 } else { s.right_score as int };
    if left > s.arena.winning_score || right > s.arena.winning_score {
        let loser = if side == Side::Left { Side::Right } else { Side::Left };
        (new_match(s, loser, vy, y), Round::Match(side))
    } else {
        (
            served(Pong { left_score: left as u32, right_score: right as u32, ..s }, side == Side::Left, vy, y),
            Round::Point(side),
        )
    }
}

/// Both paddles moved by the held keys.
pub open spec fn paddles_moved(s: Pong) -> Pong {
    let a = s.arena;
    Pong {
        left_top: paddle_moved(s.left_top as int, s.keys.left_up, s.keys.left_down, a.paddle_speed as int, a.paddle_limit()) as i64,
        right_top: paddle_moved(s.right_top as int, s.keys.right_up, s.keys.right_down, a.paddle_speed as int, a.paddle_limit()) as i64,
        ..s
    }
}

/// The ball before the scoring test of a tick: moved, then bounced off a paddle
/// and off the walls.
pub open spec fn ball_moved(s: Pong) -> Pong {
    after_walls(after_paddle(moved(s)))
}

/// One tick, with `vy` and `y` as the speed and height of the ball if it is served.
pub open spec fn step(s: Pong, vy: int, y: int) -> (Pong, Round) {
    let b = ball_moved(s);
    let (p, r) = match point_for(b) {
        Some(side) => scored(b, side, vy, y),
        None => (b, Round::InPlay),
    };
    (paddles_moved(p), r)
}

/// A vertical speed and height the ball may be served with.
pub open spec fn serve_ok(a: Arena, vy: int, y: int) -> bool {
    -a.serve_speed <= vy <= a.serve_speed && 0 <= y <= a.height
}

impl Pong {
    /// Bounds that hold between ticks: the ball is within one horizontal step of
    /// the side walls and moves back in when it is out; its vertical speed is
    /// in `[-LIMIT, LIMIT]` and it moves back in when beyond the top or bottom
    /// wall; the paddles are within the arena; no score is above the winning one.
    pub open spec fn wf(self) -> bool {
        let a = self.arena;
        &&& a.wf()
        &&& self.x_velocity == a.ball_speed || self.x_velocity == -a.ball_speed
        &&& -a.ball_speed <= self.ball_x <= a.width
        &&& self.ball_x < 0 ==> self.x_velocity > 0
        &&& -LIMIT <= self.y_velocity <= LIMIT
        &&& -LIMIT <= self.ball_y <= a.height + LIMIT
        &&& self.ball_y < 0 ==> self.y_velocity >= 0
        &&& self.ball_y > a.height ==> self.y_velocity <= 0
        &&& 0 <= self.left_top <= a.paddle_limit()
        &&& 0 <= self.right_top <= a.paddle_limit()
        &&& self.left_score <= a.winning_score
        &&& self.right_score <= a.winning_score
    }

    /// Weaker bounds that hold within a tick.
    pub open spec fn within_tick(self) -> bool {
        let a = self.arena;
        &&& a.wf()
        &&& self.x_velocity == a.ball_speed || self.x_velocity == -a.ball_speed
        &&& -3 * LIMIT <= self.ball_x <= 3 * LIMIT
        &&& -LIMIT <= self.y_velocity <= LIMIT
        &&& -3 * LIMIT <= self.ball_y <= 3 * LIMIT
        &&& 0 <= self.left_top <= a.paddle_limit()
        &&& 0 <= self.right_top <= a.paddle_limit()
        &&& self.left_score <= a.winning_score
        &&& self.right_score <= a.winning_score
    }

    /// A match in `arena` before the first serve: ball at the origin moving right
    /// and down, paddles near the top, no key held, no points.
    pub fn new(arena: Arena) -> (r: Pong)
        requires
            arena.wf(),
        ensures
            r.wf(),
            r.arena == arena,
            r.ball_x == 0 && r.ball_y == 0,
            r.x_velocity == arena.ball_speed && r.y_velocity == arena.ball_speed,
            r.left_top == r.right_top,
            r.left_top == (if PADDLE_START <= arena.paddle_limit() { PADDLE_START as int } else { arena.paddle_limit() }),
            r.keys == (Keys { left_up: false, left_down: false, right_up: false, right_down: false }),
            r.left_score == 0 && r.right_score == 0,
    {
        let limit = arena.height - arena.paddle_height;
        let top = if PADDLE_START <= limit { PADDLE_START } else { limit };
        Pong {
            arena,
            ball_x: 0,
            ball_y: 0,
            x_velocity: arena.ball_speed,
            y_velocity: arena.ball_speed,
            left_top: top,
            right_top: top,
            keys: Keys::released(),
            left_score: 0,
            right_score: 0,
        }
    }

    /// Horizontal centre of the left or right paddle.
    pub open spec fn paddle_x(self, left: bool) -> int {
        if left {
            self.arena.left_paddle_x as int
        } else {
            self.arena.right_paddle_x as int
        }
    }

    /// Top coordinate of the left or right paddle.
    pub open spec fn paddle_top(self, left: bool) -> int {
        if left {
            self.left_top as int
        } else {
            self.right_top as int
        }
    }

    /// The rectangle `[left, top, width, height]` of the left or right paddle.
    pub fn paddle_rect(&self, left: bool) -> (r: [i64; 4])
        requires
            self.within_tick(),
        ensures
            r@[0] == self.paddle_x(left) - self.arena.paddle_width / 2,
            r@[1] == self.paddle_top(left),
            r@[2] == self.arena.paddle_width,
            r@[3] == self.arena.paddle_height,
    {
        let a = self.arena;
        let x = if left { a.left_paddle_x } else { a.right_paddle_x };
        let top = if left { self.left_top } else { self.right_top };
        [x - a.paddle_width / 2, top, a.paddle_width, a.paddle_height]
    }

    /// Deflects the ball off the paddle it hits, if any, and says whether it hit one.
    pub fn hit_paddle(&mut self) -> (r: bool)
        requires
            old(self).within_tick(),
        ensures
            r == (paddle_hit(*old(self)) is Some),
            *final(self) == deflected(*old(self)),
    {
        let half = self.arena.ball_size / 2;
        let cx = self.ball_x + half;
        let cy = self.ball_y + half;
        let left = self.paddle_rect(true);
        if self.x_velocity < 0 && hit_rect(left, cx, cy) {
            proof {
                lemma_deflection_bounded(left@[1] as int, left@[3] as int, cy as int);
            }
            let d = gen_y_offset(left, cy);
            self.y_velocity = clamp_to_limit(self.y_velocity + d);
            return true;
        }
        let right = self.paddle_rect(false);
        if self.x_velocity > 0 && hit_rect(right, cx, cy) {
            proof {
                lemma_deflection_bounded(right@[1] as int, right@[3] as int, cy as int);
            }
            let d = gen_y_offset(right, cy);
            self.y_velocity = clamp_to_limit(self.y_velocity + d);
            return true;
        }
        false
    }

    /// Turns the ball back when it is beyond the top or bottom wall and moving outward.
    pub fn bounce_off_walls(&mut self)
        requires
            old(self).within_tick(),
        ensures
            *final(self) == after_walls(*old(self)),
    {
        if (self.ball_y < 0 && self.y_velocity < 0) || (self.ball_y > self.arena.height
            && self.y_velocity > 0) {
            self.y_velocity = -self.y_velocity;
        }
    }

    /// Serves the ball from the right edge moving left, or from the left edge
    /// moving right, with vertical speed `y_velocity` at height `ball_y`.
    pub fn serve(&mut self, from_right: bool, y_velocity: i64, ball_y: i64)
        requires
            old(self).arena.wf(),
        ensures
            *final(self) == served(*old(self), from_right, y_velocity as int, ball_y as int),
    {
        if from_right {
            self.ball_x = self.arena.width;
            self.x_velocity = -self.arena.ball_speed;
        } else {
            self.ball_x = 0;
            self.x_velocity = self.arena.ball_speed;
        }
        self.y_velocity = y_velocity;
        self.ball_y = ball_y;
    }

    /// Serves the ball as `serve` does, with a vertical speed and a height drawn at random.
    pub fn reset_ball(&mut self, right: bool)
        requires
            old(self).arena.wf(),
        ensures
            old(self).wf() ==> final(self).wf(),
            serve_ok(old(self).arena, final(self).y_velocity as int, final(self).ball_y as int),
            *final(self) == served(*old(self), right, final(self).y_velocity as int, final(self).ball_y as int),
    {
        let (vy, y) = draw_serve(&self.arena);
        self.serve(right, vy, y);
    }

    /// Sets both scores to zero and serves the ball toward `toward`, with
    /// vertical speed `y_velocity` at height `ball_y`.
    pub fn start_match(&mut self, toward: Side, y_velocity: i64, ball_y: i64)
        requires
            old(self).arena.wf(),
        ensures
            *final(self) == new_match(*old(self), toward, y_velocity as int, ball_y as int),
    {
        self.left_score = 0;
        self.right_score = 0;
        self.serve(toward == Side::Left, y_velocity, ball_y);
    }

    /// Starts a match with the ball moving from left to right, with a vertical
    /// speed and a height drawn at random.
    pub fn reset_game(&mut self)
        requires
            old(self).arena.wf(),
        ensures
            old(self).wf() ==> final(self).wf(),
            final(self).left_score == 0 && final(self).right_score == 0,
            serve_ok(old(self).arena, final(self).y_velocity as int, final(self).ball_y as int),
            *final(self) == new_match(*old(self), Side::Right, final(self).y_velocity as int, final(self).ball_y as int),
    {
        let (vy, y) = draw_serve(&self.arena);
        self.start_match(Side::Right, vy, y);
    }

    /// Gives `side` a point, then serves for the next round or starts a new match.
    pub fn score_point(&mut self, side: Side, y_velocity: i64, ball_y: i64) -> (r: Round)
        requires
            old(self).arena.wf(),
            old(self).left_score <= old(self).arena.winning_score,
            old(self).right_score <= old(self).arena.winning_score,
        ensures
            (*final(self), r) == scored(*old(self), side, y_velocity as int, ball_y as int),
    {
        let winning = self.arena.winning_score;
        let left = if side == Side::Left { self.left_score + 1 } else { self.left_score };
        let right = if side == Side::Right { self.right_score + 1 } else { self.right_score };
        if left > winning || right > winning {
            let loser = if side == Side::Left { Side::Right } else { Side::Left };
            self.start_match(loser, y_velocity, ball_y);
            Round::Match(side)
        } else {
            self.left_score = left;
            self.right_score = right;
            self.serve(side == Side::Left, y_velocity, ball_y);
            Round::Point(side)
        }
    }

    /// Moves both paddles by the held keys.
    pub fn update_paddles(&mut self)
        requires
            old(self).within_tick(),
        ensures
            *final(self) == paddles_moved(*old(self)),
    {
        let a = self.arena;
        let limit = a.height - a.paddle_height;
        self.left_top = move_paddle(self.left_top, self.keys.left_up, self.keys.left_down, a.paddle_speed, limit);
        self.right_top = move_paddle(self.right_top, self.keys.right_up, self.keys.right_down, a.paddle_speed, limit);
    }
    /// Advances the match by one tick. `y_velocity` and `ball_y` are the
    /// vertical speed and height the ball gets if a point is scored.
    pub fn advance(&mut self, y_velocity: i64, ball_y: i64) -> (r: Round)
        requires
            old(self).wf(),
            serve_ok(old(self).arena, y_velocity as int, ball_y as int),
        ensures
            final(self).wf(),
            (*final(self), r) == step(*old(self), y_velocity as int, ball_y as int),
    {
        let ghost start = *self;
        proof {
            lemma_ball_moved(start);
        }
        self.ball_x = self.ball_x + self.x_velocity;
        self.ball_y = self.ball_y + self.y_velocity;
        assert(*self == moved(start));
        let ghost mid = *self;
        if self.hit_paddle() {
            self.x_velocity = -self.x_velocity;
        }
        assert(*self == after_paddle(mid));
        self.bounce_off_walls();
        let r = if self.ball_x > self.arena.width {
            self.score_point(Side::Left, y_velocity, ball_y)
        } else if self.ball_x < 0 && self.x_velocity < 0 {
            self.score_point(Side::Right, y_velocity, ball_y)
        } else {
            Round::InPlay
        };
        self.update_paddles();
        proof {
            lemma_step_wf(start, y_velocity as int, ball_y as int);
        }
        r
    }

    /// Advances the match by one tick; if a point is scored, the ball is served
    /// with a vertical speed and a height drawn at random.
    pub fn update(&mut self) -> (r: Round)
        requires
            old(self).wf(),
        ensures
            final(self).wf(),
            exists|vy: int, y: int|
                serve_ok(old(self).arena, vy, y) && (*final(self), r) == step(*old(self), vy, y),
    {
        let (vy, y) = draw_serve(&self.arena);
        self.advance(vy, y)
    }

    /// Records that the command `c` is now held or released.
    pub fn set_control(&mut self, c: Control, pressed: bool)
        ensures
            *final(self) == (Pong { keys: with_control(old(self).keys, c, pressed), ..*old(self) }),
    {
        self.keys.set(c, pressed);
    }

    /// Records that the key with code `key` was pressed; other keys than the
    /// four paddle keys change nothing.
    pub fn set_pressed(&mut self, key: i32)
        ensures
            *final(self) == (Pong { keys: with_key(old(self).keys, key as int, true), ..*old(self) }),
    {
        if let Some(c) = control_of_key(key) {
            self.set_control(c, true);
        }
    }

    /// Records that the key with code `key` was released; other keys than the
    /// four paddle keys change nothing.
    pub fn set_released(&mut self, key: i32)
        ensures
            *final(self) == (Pong { keys: with_key(old(self).keys, key as int, false), ..*old(self) }),
    {
        if let Some(c) = control_of_key(key) {
            self.set_control(c, false);
        }
    }

}

/// `v` held to `[-LIMIT, LIMIT]`.
fn clamp_to_limit(v: i64) -> (r: i64)
    requires
        -2 * LIMIT <= v <= 2 * LIMIT,
    ensures
        r == clamp_speed(v as int),
{
    if v < -LIMIT {
        -LIMIT
    } else if v > LIMIT {
        LIMIT
    } else {
        v
    }
}

/// A vertical speed and a height for a serve, drawn at random.
fn draw_serve(a: &Arena) -> (r: (i64, i64))
    requires
        a.wf(),
    ensures
        serve_ok(*a, r.0 as int, r.1 as int),
{
    let vy = random_below(-a.serve_speed, a.serve_speed + 1);
    let y = random_below(0, a.height + 1);
    (vy, y)
}

/// Within a tick the ball stays within bounds, and unless a point is scored
/// it ends the tick as `wf` asks.
proof fn lemma_ball_moved(s: Pong)
    requires
        s.wf(),
    ensures
        moved(s).within_tick(),
        after_paddle(moved(s)).within_tick(),
        ball_moved(s).within_tick(),
        point_for(ball_moved(s)) is None ==> ball_moved(s).wf(),
{
    let m = moved(s);
    let p = after_paddle(m);
    let b = ball_moved(s);
    if let Some(d) = paddle_hit(m) {
        let a = m.arena;
        let cy = centre_y(m);
        if m.x_velocity < 0 && on_paddle(a, a.left_paddle_x as int, m.left_top as int, centre_x(m), cy) {
            lemma_deflection_bounded(m.left_top as int, a.paddle_height as int, cy);
        } else {
            lemma_deflection_bounded(m.right_top as int, a.paddle_height as int, cy);
        }
    }
    assert(p.within_tick());
    assert(b.ball_x == m.ball_x && b.x_velocity == p.x_velocity);
}

/// A tick keeps a well-formed match well-formed.
proof fn lemma_step_wf(s: Pong, vy: int, y: int)
    requires
        s.wf(),
        serve_ok(s.arena, vy, y),
    ensures
        step(s, vy, y).0.wf(),
{
    lemma_ball_moved(s);
    let b = ball_moved(s);
    let p = match point_for(b) {
        Some(side) => scored(b, side, vy, y).0,
        None => b,
    };
    assert(p.wf());
    crate::input::lemma_paddle_stays_in_range(p.left_top as int, p.keys.left_up, p.keys.left_down, p.arena.paddle_speed as int, p.arena.paddle_limit());
    crate::input::lemma_paddle_stays_in_range(p.right_top as int, p.keys.right_up, p.keys.right_down, p.arena.paddle_speed as int, p.arena.paddle_limit());
}

/// The paddles after one tick for each key state of `keys`, in order.
pub open spec fn paddles_driven(s: Pong, keys: Seq<Keys>) -> Pong
    decreases keys.len(),
{
    if keys.len() == 0 {
        s
    } else {
        paddles_driven(paddles_moved(Pong { keys: keys[0], ..s }), keys.drop_first())
    }
}

/// When the ball, once moved, is past the right wall, the left side scores
/// exactly one point and the ball is served again from the right edge, with the
/// given speed and height. (At the winning score the match ends instead.)
pub proof fn lemma_left_scores_past_right_wall(s: Pong, vy: int, y: int)
    requires
        s.wf(),
        serve_ok(s.arena, vy, y),
        s.ball_x + s.x_velocity > s.arena.width,
        s.left_score < s.arena.winning_score,
    ensures
        step(s, vy, y).1 == Round::Point(Side::Left),
        step(s, vy, y).0.left_score == s.left_score + 1,
        step(s, vy, y).0.right_score == s.right_score,
        step(s, vy, y).0.ball_x == s.arena.width,
        step(s, vy, y).0.x_velocity == -s.arena.ball_speed,
        step(s, vy, y).0.ball_y == y,
        step(s, vy, y).0.y_velocity == vy,
{
    lemma_ball_moved(s);
    assert(ball_moved(s).ball_x == moved(s).ball_x);
}

/// A tick never lowers a score, and raises their sum by at most one, except
/// when a match ends: then both scores are zero.
pub proof fn lemma_scores_never_decrease(s: Pong, vy: int, y: int)
    requires
        s.wf(),
        serve_ok(s.arena, vy, y),
    ensures
        step(s, vy, y).1 is Match ==> step(s, vy, y).0.left_score == 0 && step(s, vy, y).0.right_score == 0,
        !(step(s, vy, y).1 is Match) ==> {
            &&& step(s, vy, y).0.left_score >= s.left_score
            &&& step(s, vy, y).0.right_score >= s.right_score
            &&& step(s, vy, y).0.left_score + step(s, vy, y).0.right_score <= s.left_score + s.right_score + 1
        },
{
    lemma_ball_moved(s);
}

/// A new match starts with both scores at zero.
pub proof fn lemma_new_match_scores_zero(s: Pong, toward: Side, vy: int, y: int)
    ensures
        new_match(s, toward, vy, y).left_score == 0,
        new_match(s, toward, vy, y).right_score == 0,
{
}

/// A point that takes a score above the winning score ends the match: both
/// scores go back to zero and the ball is served toward the loser.
pub proof fn lemma_win_starts_new_match(s: Pong, side: Side, vy: int, y: int)
    requires
        s.wf(),
        serve_ok(s.arena, vy, y),
        point_for(ball_moved(s)) == Some(side),
        (if side == Side::Left { s.left_score } else { s.right_score }) + 1 > s.arena.winning_score,
    ensures
        step(s, vy, y).1 == Round::Match(side),
        step(s, vy, y).0.left_score == 0,
        step(s, vy, y).0.right_score == 0,
        step(s, vy, y).0.ball_x == (if side == Side::Left { 0 } else { s.arena.width }),
        step(s, vy, y).0.x_velocity == (if side == Side::Left { s.arena.ball_speed as int } else { -s.arena.ball_speed }),
{
    lemma_ball_moved(s);
}

/// However many ticks pass, with whatever keys held at each, the top of each
/// paddle stays in `[0, height - paddle_height]`, inside `[0, height]`.
pub proof fn lemma_paddles_stay_in_arena(s: Pong, keys: Seq<Keys>)
    requires
        s.arena.wf(),
        0 <= s.left_top <= s.arena.paddle_limit(),
        0 <= s.right_top <= s.arena.paddle_limit(),
    ensures
        0 <= paddles_driven(s, keys).left_top <= paddles_driven(s, keys).arena.paddle_limit(),
        0 <= paddles_driven(s, keys).right_top <= paddles_driven(s, keys).arena.paddle_limit(),
        paddles_driven(s, keys).arena == s.arena,
        paddles_driven(s, keys).arena.paddle_limit() <= s.arena.height,
    decreases keys.len(),
{
    if keys.len() > 0 {
        let t = Pong { keys: keys[0], ..s };
        crate::input::lemma_paddle_stays_in_range(t.left_top as int, t.keys.left_up, t.keys.left_down, t.arena.paddle_speed as int, t.arena.paddle_limit());
        crate::input::lemma_paddle_stays_in_range(t.right_top as int, t.keys.right_up, t.keys.right_down, t.arena.paddle_speed as int, t.arena.paddle_limit());
        lemma_paddles_stay_in_arena(paddles_moved(t), keys.drop_first());
    }
}

} // verus!
