use baton::{Control, DeadzoneShape, InputKind, InputSource, Key, Pair};

fn control_at(raw: u32) -> Control {
    let mut control = Control::new();
    control.update(&vec![InputSource::Key(Key::A)], &vec![raw], 0, InputKind::Keyboard);
    control
}

fn compose(
    left: u32,
    right: u32,
    up: u32,
    down: u32,
    deadzone: u32,
    shape: DeadzoneShape,
) -> Pair {
    let mut pair = Pair::new();
    pair.update(
        &control_at(left),
        &control_at(right),
        &control_at(up),
        &control_at(down),
        deadzone,
        shape,
    );
    pair
}

fn length_squared(v: (i32, i32)) -> i64 {
    (v.0 as i64) * (v.0 as i64) + (v.1 as i64) * (v.1 as i64)
}

#[test]
fn new_pair_is_at_rest() {
    assert_eq!(Pair::new().raw_value(), (0, 0));
    assert_eq!(Pair::new().value(), (0, 0));
    assert_eq!(Pair::default().raw_value(), (0, 0));
    assert_eq!(Pair::default().value(), (0, 0));
}

#[test]
fn x_is_right_minus_left_and_y_is_down_minus_up() {
    let pair = compose(100_000, 400_000, 700_000, 200_000, 0, DeadzoneShape::Circle);
    assert_eq!(pair.raw_value(), (300_000, -500_000));
    assert_eq!(pair.value(), (300_000, -500_000));
}

#[test]
fn full_diagonal_is_clamped_to_unit_length() {
    let pair = compose(0, 1_000_000, 0, 1_000_000, 250_000, DeadzoneShape::Circle);
    let raw = pair.raw_value();
    assert_eq!(raw, (707_106, 707_106));
    assert_eq!(raw.0, raw.1);
    assert!(length_squared(raw) <= 1_000_000_000_000);
    assert!(length_squared(raw) >= 999_990_000_000);
    assert_eq!(pair.value(), raw);
}

#[test]
fn clamped_diagonal_points_the_same_way() {
    let pair = compose(1_000_000, 0, 0, 1_000_000, 0, DeadzoneShape::Square);
    assert_eq!(pair.raw_value(), (-707_106, 707_106));
    assert_eq!(pair.value(), (-707_106, 707_106));
}

#[test]
fn circle_keeps_a_vector_whose_length_reaches_the_deadzone() {
    let pair = compose(0, 400_000, 0, 400_000, 500_000, DeadzoneShape::Circle);
    assert_eq!(pair.raw_value(), (400_000, 400_000));
    assert_eq!(pair.value(), (400_000, 400_000));
    assert!(length_squared(pair.value()) >= 250_000_000_000);
}

#[test]
fn square_zeroes_each_axis_below_the_deadzone() {
    let pair = compose(0, 400_000, 0, 400_000, 500_000, DeadzoneShape::Square);
    assert_eq!(pair.raw_value(), (400_000, 400_000));
    assert_eq!(pair.value(), (0, 0));
}

#[test]
fn circle_zeroes_a_vector_shorter_than_the_deadzone() {
    let pair = compose(0, 300_000, 0, 300_000, 500_000, DeadzoneShape::Circle);
    assert_eq!(pair.raw_value(), (300_000, 300_000));
    assert_eq!(pair.value(), (0, 0));
}

#[test]
fn circle_threshold_is_inclusive() {
    let pair = compose(0, 300_000, 0, 400_000, 500_000, DeadzoneShape::Circle);
    assert_eq!(pair.value(), (300_000, 400_000));
    let pair = compose(0, 300_000, 0, 399_999, 500_000, DeadzoneShape::Circle);
    assert_eq!(pair.value(), (0, 0));
}

#[test]
fn square_treats_each_axis_alone() {
    let pair = compose(0, 600_000, 400_000, 0, 500_000, DeadzoneShape::Square);
    assert_eq!(pair.raw_value(), (600_000, -400_000));
    assert_eq!(pair.value(), (600_000, 0));
    let pair = compose(500_000, 0, 0, 499_999, 500_000, DeadzoneShape::Square);
    assert_eq!(pair.value(), (-500_000, 0));
}

#[test]
fn clamped_vector_counts_as_full_length_under_a_circle() {
    let pair = compose(0, 1_000_000, 0, 1_000_000, 1_000_000, DeadzoneShape::Circle);
    assert_eq!(pair.value(), (707_106, 707_106));
}

#[test]
fn opposite_controls_cancel_out() {
    let pair = compose(700_000, 700_000, 200_000, 200_000, 0, DeadzoneShape::Circle);
    assert_eq!(pair.raw_value(), (0, 0));
    assert_eq!(pair.value(), (0, 0));
    let pair = compose(0, 0, 0, 0, 500_000, DeadzoneShape::Square);
    assert_eq!(pair.raw_value(), (0, 0));
    assert_eq!(pair.value(), (0, 0));
}

#[test]
fn pair_never_exceeds_unit_length() {
    let steps = [0u32, 250_000, 500_000, 750_000, 1_000_000];
    for &l in &steps {
        for &r in &steps {
            for &u in &steps {
                for &d in &steps {
                    for shape in [DeadzoneShape::Circle, DeadzoneShape::Square] {
                        let pair = compose(l, r, u, d, 300_000, shape);
                        assert!(length_squared(pair.raw_value()) <= 1_000_000_000_000);
                        assert!(length_squared(pair.value()) <= 1_000_000_000_000);
                    }
                }
            }
        }
    }
}
