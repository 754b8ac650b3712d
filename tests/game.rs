use pong::arena::Arena;
use pong::game::{Pong, Round, Side};
use pong::input::{control_of_key, Control, KEY_I, KEY_K, KEY_S, KEY_W};

fn standard() -> Pong {
    Pong::new(Arena::standard())
}

#[test]
fn standard_arena_proportions() {
    let a = Arena::standard();
    assert_eq!((a.width, a.height), (1366, 768));
    assert_eq!(a.ball_size, 20);
    assert_eq!((a.paddle_width, a.paddle_height), (27, 76));
    assert_eq!((a.left_paddle_x, a.right_paddle_x), (68, 1292));
    assert_eq!((a.ball_speed, a.paddle_speed, a.serve_speed), (8, 8, 8));
    assert_eq!(a.winning_score, 14);
}

#[test]
fn new_match_state() {
    let p = standard();
    assert_eq!((p.ball_x, p.ball_y), (0, 0));
    assert_eq!((p.x_velocity, p.y_velocity), (8, 8));
    assert_eq!((p.left_top, p.right_top), (40, 40));
    assert_eq!((p.left_score, p.right_score), (0, 0));
    assert!(!p.keys.left_up && !p.keys.left_down && !p.keys.right_up && !p.keys.right_down);
}

#[test]
fn ball_past_right_wall_scores_for_left() {
    let mut p = Pong::new(Arena::sized(1920, 1080));
    p.ball_x = 1919;
    p.ball_y = 500;
    p.x_velocity = 8;
    p.y_velocity = 3;
    let r = p.advance(-5, 300);
    assert_eq!(r, Round::Point(Side::Left));
    assert_eq!((p.left_score, p.right_score), (1, 0));
    assert_eq!(p.ball_x, 1920);
    assert_eq!(p.x_velocity, -8);
    assert_eq!((p.ball_y, p.y_velocity), (300, -5));
}

#[test]
fn random_serve_after_point_stays_in_range() {
    let mut p = Pong::new(Arena::sized(1920, 1080));
    p.ball_x = 1919;
    p.ball_y = 500;
    p.x_velocity = 8;
    p.y_velocity = 3;
    let r = p.update();
    assert_eq!(r, Round::Point(Side::Left));
    assert_eq!(p.left_score, 1);
    assert_eq!(p.ball_x, 1920);
    assert!(-8 <= p.y_velocity && p.y_velocity <= 8);
    assert!(0 <= p.ball_y && p.ball_y <= 1080);
}

#[test]
fn ball_past_left_wall_moving_left_scores_for_right() {
    let mut p = standard();
    p.ball_x = 3;
    p.ball_y = 300;
    p.x_velocity = -8;
    p.y_velocity = 0;
    let r = p.advance(4, 200);
    assert_eq!(r, Round::Point(Side::Right));
    assert_eq!((p.left_score, p.right_score), (0, 1));
    assert_eq!((p.ball_x, p.x_velocity), (0, 8));
    assert_eq!((p.ball_y, p.y_velocity), (200, 4));
}

#[test]
fn ball_past_left_wall_moving_right_is_no_point() {
    let mut p = standard();
    p.ball_x = -5;
    p.ball_y = 300;
    p.x_velocity = 8;
    p.y_velocity = 0;
    let r = p.advance(4, 200);
    assert_eq!(r, Round::InPlay);
    assert_eq!((p.ball_x, p.ball_y), (3, 300));
    assert_eq!((p.left_score, p.right_score), (0, 0));
}

#[test]
fn left_win_starts_new_match_toward_right() {
    let mut p = standard();
    p.left_score = 14;
    p.right_score = 9;
    p.ball_x = 1360;
    p.ball_y = 300;
    p.x_velocity = 8;
    let r = p.advance(2, 100);
    assert_eq!(r, Round::Match(Side::Left));
    assert_eq!((p.left_score, p.right_score), (0, 0));
    assert_eq!((p.ball_x, p.x_velocity), (0, 8));
    assert_eq!((p.ball_y, p.y_velocity), (100, 2));
}

#[test]
fn right_win_starts_new_match_toward_left() {
    let mut p = standard();
    p.left_score = 3;
    p.right_score = 14;
    p.ball_x = 2;
    p.ball_y = 300;
    p.x_velocity = -8;
    let r = p.advance(-1, 50);
    assert_eq!(r, Round::Match(Side::Right));
    assert_eq!((p.left_score, p.right_score), (0, 0));
    assert_eq!((p.ball_x, p.x_velocity), (1366, -8));
    assert_eq!((p.ball_y, p.y_velocity), (50, -1));
}

#[test]
fn thirteen_to_fourteen_is_a_point_not_a_win() {
    let mut p = standard();
    p.left_score = 13;
    p.ball_x = 1366;
    p.ball_y = 300;
    p.x_velocity = 8;
    assert_eq!(p.advance(0, 0), Round::Point(Side::Left));
    assert_eq!(p.left_score, 14);
}

#[test]
fn full_match_until_win() {
    let mut p = standard();
    let mut points: u32 = 0;
    while points < 15 {
        p.ball_x = 1366;
        p.x_velocity = 8;
        let r = p.advance(0, 300);
        points += 1;
        if points < 15 {
            assert_eq!(r, Round::Point(Side::Left));
            assert_eq!(p.left_score, points);
        } else {
            assert_eq!(r, Round::Match(Side::Left));
            assert_eq!((p.left_score, p.right_score), (0, 0));
        }
    }
}

#[test]
fn bounce_off_top_wall_only_when_moving_outward() {
    let mut p = standard();
    p.ball_x = 600;
    p.ball_y = 2;
    p.x_velocity = 8;
    p.y_velocity = -5;
    assert_eq!(p.advance(0, 0), Round::InPlay);
    assert_eq!((p.ball_x, p.ball_y), (608, -3));
    assert_eq!(p.y_velocity, 5);
    assert_eq!(p.advance(0, 0), Round::InPlay);
    assert_eq!((p.ball_y, p.y_velocity), (2, 5));
}

#[test]
fn bounce_off_bottom_wall() {
    let mut p = standard();
    p.ball_x = 600;
    p.ball_y = 765;
    p.x_velocity = -8;
    p.y_velocity = 6;
    assert_eq!(p.advance(0, 0), Round::InPlay);
    assert_eq!((p.ball_y, p.y_velocity), (771, -6));
}

#[test]
fn left_paddle_hit_at_top_edge_deflects_up() {
    let mut p = standard();
    p.ball_x = 70;
    p.ball_y = 30;
    p.x_velocity = -8;
    p.y_velocity = 0;
    assert_eq!(p.advance(0, 0), Round::InPlay);
    assert_eq!((p.ball_x, p.ball_y), (62, 30));
    assert_eq!((p.x_velocity, p.y_velocity), (8, -2));
}

#[test]
fn left_paddle_hit_below_centre_adds_to_vertical_speed() {
    let mut p = standard();
    p.ball_x = 70;
    p.ball_y = 84;
    p.x_velocity = -8;
    p.y_velocity = 3;
    assert_eq!(p.advance(0, 0), Round::InPlay);
    assert_eq!(p.ball_y, 87);
    assert_eq!((p.x_velocity, p.y_velocity), (8, 4));
}

#[test]
fn right_paddle_hit_at_centre_keeps_vertical_speed() {
    let mut p = standard();
    p.ball_x = 1270;
    p.ball_y = 68;
    p.x_velocity = 8;
    p.y_velocity = 0;
    assert_eq!(p.advance(0, 0), Round::InPlay);
    assert_eq!(p.ball_x, 1278);
    assert_eq!((p.x_velocity, p.y_velocity), (-8, 0));
}

#[test]
fn paddle_moving_away_is_not_hit() {
    let mut p = standard();
    p.ball_x = 50;
    p.ball_y = 68;
    p.x_velocity = 8;
    p.y_velocity = 0;
    assert_eq!(p.advance(0, 0), Round::InPlay);
    assert_eq!((p.ball_x, p.x_velocity), (58, 8));
}

#[test]
fn hit_paddle_reports_and_deflects() {
    let mut p = standard();
    p.ball_x = 62;
    p.ball_y = 30;
    p.x_velocity = -8;
    p.y_velocity = 1;
    assert!(p.hit_paddle());
    assert_eq!((p.x_velocity, p.y_velocity), (-8, -1));
    p.ball_y = 300;
    assert!(!p.hit_paddle());
    assert_eq!(p.y_velocity, -1);
}

#[test]
fn paddles_stay_in_arena_after_many_ticks() {
    let mut p = standard();
    p.set_pressed(KEY_S);
    p.set_pressed(KEY_I);
    for _ in 0..200 {
        p.update_paddles();
        assert!(0 <= p.left_top && p.left_top <= 768 - 76);
        assert!(0 <= p.right_top && p.right_top <= 768);
    }
    assert_eq!((p.left_top, p.right_top), (692, 0));
    p.set_released(KEY_S);
    p.set_pressed(KEY_W);
    p.set_released(KEY_I);
    p.set_pressed(KEY_K);
    for _ in 0..200 {
        p.update_paddles();
    }
    assert_eq!((p.left_top, p.right_top), (0, 692));
}

#[test]
fn paddle_stops_at_edge_without_overshoot() {
    let mut p = standard();
    p.left_top = 3;
    p.set_pressed(KEY_W);
    p.update_paddles();
    assert_eq!(p.left_top, 0);
    p.set_released(KEY_W);
    p.left_top = 689;
    p.set_pressed(KEY_S);
    p.update_paddles();
    assert_eq!(p.left_top, 692);
}

#[test]
fn both_keys_held_cancel_out() {
    let mut p = standard();
    p.set_pressed(KEY_W);
    p.set_pressed(KEY_S);
    p.update_paddles();
    assert_eq!(p.left_top, 40);
    p.left_top = 3;
    p.update_paddles();
    assert_eq!(p.left_top, 3);
    p.left_top = 0;
    p.update_paddles();
    assert_eq!(p.left_top, 0);
    p.left_top = 692;
    p.update_paddles();
    assert_eq!(p.left_top, 692);
}

#[test]
fn keys_map_to_controls() {
    assert_eq!(control_of_key(KEY_W), Some(Control::LeftUp));
    assert_eq!(control_of_key(KEY_S), Some(Control::LeftDown));
    assert_eq!(control_of_key(KEY_I), Some(Control::RightUp));
    assert_eq!(control_of_key(KEY_K), Some(Control::RightDown));
    assert_eq!(control_of_key(0x61), None);
    assert_eq!(KEY_W, 'w' as i32);
}

#[test]
fn press_and_release_set_flags() {
    let mut p = standard();
    p.set_pressed(KEY_I);
    assert!(p.keys.right_up && !p.keys.left_up && !p.keys.left_down && !p.keys.right_down);
    p.set_pressed(0x61);
    assert!(p.keys.right_up && !p.keys.left_up && !p.keys.left_down && !p.keys.right_down);
    p.set_control(Control::LeftDown, true);
    assert!(p.keys.left_down);
    p.set_released(KEY_I);
    assert!(!p.keys.right_up && p.keys.left_down);
}

#[test]
fn reset_game_zeroes_scores_and_serves_from_left() {
    let mut p = standard();
    p.left_score = 7;
    p.right_score = 5;
    p.x_velocity = -8;
    p.reset_game();
    assert_eq!((p.left_score, p.right_score), (0, 0));
    assert_eq!((p.ball_x, p.x_velocity), (0, 8));
    assert!(-8 <= p.y_velocity && p.y_velocity <= 8);
    assert!(0 <= p.ball_y && p.ball_y <= 768);
}

#[test]
fn reset_ball_draws_varied_serves() {
    let mut p = standard();
    let mut speeds = Vec::new();
    let mut heights = Vec::new();
    for _ in 0..100 {
        p.reset_ball(true);
        assert_eq!((p.ball_x, p.x_velocity), (1366, -8));
        assert!(-8 <= p.y_velocity && p.y_velocity <= 8);
        assert!(0 <= p.ball_y && p.ball_y <= 768);
        speeds.push(p.y_velocity);
        heights.push(p.ball_y);
    }
    assert!(speeds.iter().any(|v| *v != speeds[0]));
    assert!(heights.iter().any(|y| *y != heights[0]));
}

#[test]
fn serve_from_each_edge() {
    let mut p = standard();
    p.serve(false, 7, 12);
    assert_eq!((p.ball_x, p.ball_y, p.x_velocity, p.y_velocity), (0, 12, 8, 7));
    p.serve(true, -8, 768);
    assert_eq!((p.ball_x, p.ball_y, p.x_velocity, p.y_velocity), (1366, 768, -8, -8));
}

#[test]
fn score_point_counts_and_serves() {
    let mut p = standard();
    assert_eq!(p.score_point(Side::Right, 1, 2), Round::Point(Side::Right));
    assert_eq!((p.left_score, p.right_score), (0, 1));
    assert_eq!((p.ball_x, p.x_velocity), (0, 8));
    p.right_score = 14;
    assert_eq!(p.score_point(Side::Right, 1, 2), Round::Match(Side::Right));
    assert_eq!((p.left_score, p.right_score), (0, 0));
}

#[test]
fn long_rally_keeps_state_in_bounds() {
    let mut p = standard();
    p.reset_game();
    p.set_pressed(KEY_S);
    p.set_pressed(KEY_K);
    for _ in 0..5000 {
        p.update();
        assert!(p.left_score <= 14 && p.right_score <= 14);
        assert!(-8 <= p.ball_x && p.ball_x <= 1366);
        assert!(0 <= p.left_top && p.left_top <= 692);
    }
}
