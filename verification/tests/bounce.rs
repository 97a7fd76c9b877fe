use pong::collision::{bounce_direction, bounce_velocity};
use pong::units::Vector2;

const HEIGHT: i32 = 100_000;

fn v(x: i32, y: i32) -> Vector2 {
    Vector2 { x, y }
}

#[test]
fn a_hit_on_the_centre_rebounds_level() {
    assert_eq!(bounce_direction(0, 0, HEIGHT, 3000), v(1000, 0));
    assert_eq!(bounce_direction(0, 0, HEIGHT, -3000), v(-1000, 0));
    assert_eq!(bounce_direction(-77_000, -77_000, HEIGHT, 1), v(1000, 0));
    assert_eq!(bounce_velocity(12_345, 12_345, HEIGHT, 500_000), v(500_000, 0));
    assert_eq!(bounce_velocity(12_345, 12_345, HEIGHT, -500_000), v(-500_000, 0));
    assert_eq!(bounce_velocity(0, 0, 1, -1), v(-500_000, 0));
}

#[test]
fn a_hit_off_the_centre_trades_speed_across_for_speed_up_or_down() {
    assert_eq!(bounce_direction(33_000, 0, HEIGHT, 1), v(670, 330));
    assert_eq!(bounce_velocity(33_000, 0, HEIGHT, 1), v(335_000, 165_000));
    assert_eq!(bounce_velocity(-33_000, 0, HEIGHT, 1), v(335_000, -165_000));
    assert_eq!(bounce_velocity(33_000, 0, HEIGHT, -1), v(-335_000, 165_000));
    assert_eq!(bounce_velocity(-33_000, 0, HEIGHT, -1), v(-335_000, -165_000));
    assert_eq!(bounce_velocity(110_000, 100_000, HEIGHT, 400_000), v(450_000, 50_000));
    assert_eq!(bounce_velocity(-60_000, -35_000, HEIGHT, -400_000), v(-375_000, -125_000));
}

#[test]
fn the_offset_is_measured_from_the_centre_of_the_paddle() {
    assert_eq!(bounce_direction(250_000, 240_000, HEIGHT, 1), v(900, 100));
    assert_eq!(bounce_direction(-250_000, -240_000, HEIGHT, 1), v(900, -100));
    assert_eq!(bounce_direction(5_000, -5_000, HEIGHT, 1), v(900, 100));
}

#[test]
fn a_hit_on_the_edge_is_deflected_by_half_a_unit() {
    assert_eq!(bounce_direction(50_000, 0, HEIGHT, 1), v(500, 500));
    assert_eq!(bounce_direction(-50_000, 0, HEIGHT, 1), v(500, -500));
    assert_eq!(bounce_velocity(50_000, 0, HEIGHT, 1), v(250_000, 250_000));
    assert_eq!(bounce_velocity(-50_000, 0, HEIGHT, -1), v(-250_000, -250_000));
}

#[test]
fn a_hit_beyond_the_edge_is_deflected_no_more() {
    assert_eq!(bounce_direction(50_001, 0, HEIGHT, 1), v(500, 500));
    assert_eq!(bounce_direction(75_000, 0, HEIGHT, -1), v(-500, 500));
    assert_eq!(bounce_direction(-1_000_000, 0, HEIGHT, 1), v(500, -500));
    assert_eq!(bounce_velocity(2_000_000_000, -2_000_000_000, HEIGHT, 1), v(250_000, 250_000));
    assert_eq!(bounce_velocity(i32::MIN, i32::MAX, 1, -1), v(-250_000, -250_000));
    assert_eq!(bounce_velocity(i32::MAX, i32::MIN, i32::MAX, 1), v(250_000, 250_000));
}

#[test]
fn a_hit_just_inside_the_edge_is_not_capped() {
    assert_eq!(bounce_direction(49_999, 0, HEIGHT, 1), v(501, 499));
    assert_eq!(bounce_direction(-49_999, 0, HEIGHT, 1), v(501, -499));
    assert_eq!(bounce_direction(49_900, 0, HEIGHT, 1), v(501, 499));
}

#[test]
fn the_deflection_is_rounded_towards_zero() {
    assert_eq!(bounce_direction(1, 0, 3, 1), v(667, 333));
    assert_eq!(bounce_direction(-1, 0, 3, 1), v(667, -333));
    assert_eq!(bounce_velocity(1, 0, 3, 1), v(333_500, 166_500));
    assert_eq!(bounce_velocity(-1, 0, 3, -1), v(-333_500, -166_500));
    assert_eq!(bounce_direction(99, 0, HEIGHT, 1), v(1000, 0));
    assert_eq!(bounce_direction(-99, 0, HEIGHT, 1), v(1000, 0));
    assert_eq!(bounce_direction(100, 0, HEIGHT, 1), v(999, 1));
}

#[test]
fn the_ball_keeps_its_heading() {
    let offsets = [-2_000_000, -50_000, -49_999, -1, 0, 1, 20_000, 50_000, 2_000_000];
    let heights = [1, 3, 999, HEIGHT, i32::MAX];
    for offset in offsets {
        for height in heights {
            for vx in [1, 3000, 500_000, i32::MAX] {
                assert!(bounce_velocity(offset, 0, height, vx).x > 0);
                assert!(bounce_direction(offset, 0, height, vx).x > 0);
            }
            for vx in [-1, -3000, -500_000, i32::MIN] {
                assert!(bounce_velocity(offset, 0, height, vx).x < 0);
                assert!(bounce_direction(offset, 0, height, vx).x < 0);
            }
        }
    }
}

#[test]
fn a_ball_without_motion_across_leaves_to_the_right() {
    assert_eq!(bounce_direction(0, 0, HEIGHT, 0), v(1000, 0));
    assert_eq!(bounce_velocity(25_000, 0, HEIGHT, 0), v(375_000, 125_000));
}

#[test]
fn the_deflection_stays_within_half_a_unit() {
    let positions = [i32::MIN, -1_000_000, -50_001, -50_000, -3, 0, 7, 49_999, 50_000, i32::MAX];
    for ball_y in positions {
        for paddle_y in positions {
            for height in [1, 2, 100, HEIGHT, i32::MAX] {
                let direction = bounce_direction(ball_y, paddle_y, height, 1);
                assert!(-500 <= direction.y && direction.y <= 500);
                assert_eq!(direction.x, 1000 - direction.y.abs());
                let offset = ball_y as i64 - paddle_y as i64;
                if 2 * offset >= height as i64 {
                    assert_eq!(direction.y, 500);
                }
                if 2 * offset <= -(height as i64) {
                    assert_eq!(direction.y, -500);
                }
                if offset == 0 {
                    assert_eq!(direction.y, 0);
                }
            }
        }
    }
}

#[test]
fn the_velocity_is_the_direction_at_the_speed_of_a_ball() {
    for offset in [-60_000, -12_345, 0, 1, 999, 31_415, 50_000] {
        for vx in [-7, 0, 7] {
            let direction = bounce_direction(offset, 0, HEIGHT, vx);
            let velocity = bounce_velocity(offset, 0, HEIGHT, vx);
            assert_eq!(velocity, v(direction.x * 500, direction.y * 500));
            assert_eq!(velocity.x.abs() + velocity.y.abs(), 500_000);
        }
    }
}
