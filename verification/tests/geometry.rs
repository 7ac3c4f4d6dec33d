use endless_runner::geometry::{overlaps, Point, Size};
use endless_runner::units::{ground_size, player_size, GROUND_Y, UNIT};

fn at(x: i64, y: i64) -> Point {
    Point { x, y }
}

fn sized(width: u64, height: u64) -> Size {
    Size { width, height }
}

#[test]
fn a_box_overlaps_itself() {
    assert!(overlaps(at(3, 4), sized(10, 20), at(3, 4), sized(10, 20)));
    assert!(overlaps(at(-7, 9), sized(1, 1), at(-7, 9), sized(1, 1)));
    assert!(overlaps(at(0, 0), sized(0, 0), at(0, 0), sized(0, 0)));
    assert!(overlaps(
        at(i64::MIN, i64::MAX),
        sized(u64::MAX, u64::MAX),
        at(i64::MIN, i64::MAX),
        sized(u64::MAX, u64::MAX)
    ));
}

#[test]
fn overlap_is_symmetric() {
    let boxes: Vec<(Point, Size)> = vec![
        (at(0, 0), sized(10, 10)),
        (at(10, 0), sized(10, 10)),
        (at(11, 0), sized(10, 10)),
        (at(0, 9), sized(2, 8)),
        (at(-4, -4), sized(3, 3)),
        (at(100, 100), sized(1, 1)),
    ];
    for a in boxes.iter() {
        for b in boxes.iter() {
            assert_eq!(overlaps(a.0, a.1, b.0, b.1), overlaps(b.0, b.1, a.0, a.1));
        }
    }
}

#[test]
fn boxes_that_touch_overlap() {
    assert!(overlaps(at(0, 0), sized(10, 10), at(10, 0), sized(10, 10)));
    assert!(!overlaps(at(0, 0), sized(10, 10), at(11, 0), sized(10, 10)));
    assert!(overlaps(at(0, 0), sized(10, 10), at(0, -10), sized(10, 10)));
    assert!(!overlaps(at(0, 0), sized(10, 10), at(0, -11), sized(10, 10)));
    assert!(overlaps(at(0, 0), sized(10, 10), at(10, 10), sized(10, 10)));
}

#[test]
fn boxes_of_odd_size_meet_at_half_ticks() {
    assert!(overlaps(at(0, 0), sized(3, 3), at(3, 0), sized(3, 3)));
    assert!(!overlaps(at(0, 0), sized(3, 3), at(4, 0), sized(4, 3)));
    assert!(overlaps(at(0, 0), sized(3, 3), at(4, 0), sized(5, 3)));
}

#[test]
fn boxes_apart_on_one_axis_do_not_overlap() {
    assert!(!overlaps(at(0, 0), sized(10, 10), at(0, 50), sized(10, 10)));
    assert!(!overlaps(at(0, 0), sized(10, 10), at(50, 0), sized(10, 10)));
    assert!(overlaps(at(0, 0), sized(10, 10), at(4, 4), sized(2, 2)));
}

#[test]
fn far_boxes_do_not_wrap_around() {
    assert!(!overlaps(at(i64::MIN, 0), sized(10, 10), at(i64::MAX, 0), sized(10, 10)));
    assert!(overlaps(at(i64::MIN, 0), sized(u64::MAX, 10), at(i64::MAX, 0), sized(u64::MAX, 10)));
}

#[test]
fn player_over_a_ground_segment_overlaps_it() {
    assert!(overlaps(at(0, GROUND_Y + 40 * UNIT), player_size(), at(0, GROUND_Y), ground_size()));
    assert!(overlaps(at(0, GROUND_Y + 60 * UNIT), player_size(), at(0, GROUND_Y), ground_size()));
    assert!(!overlaps(at(0, GROUND_Y + 60 * UNIT + 1), player_size(), at(0, GROUND_Y), ground_size()));
    assert!(overlaps(at(0, 0), player_size(), at(0, 0), ground_size()));
}

#[test]
fn box_sizes_are_those_of_the_game() {
    assert_eq!(player_size(), sized(140 * 10_000_000, 90 * 10_000_000));
    assert_eq!(ground_size(), sized(2700 * 10_000_000, 30 * 10_000_000));
    assert_eq!(endless_runner::units::enemy_size(), sized(50 * 10_000_000, 50 * 10_000_000));
    assert_eq!(endless_runner::units::power_up_size(), sized(70 * 10_000_000, 70 * 10_000_000));
}
