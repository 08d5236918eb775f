use entangled::input::{Input, KeyCode, MouseScrollUnit, MouseWheel};
use entangled::level::resizable::{
    apply_scale_factors, collect_scales, compute_anchored, compute_effective_scale,
    compute_scroll_delta, find_group, handle_keyboard_input, handle_mouse_scrolling,
    lookup_scale, reset_scales, scale_transform, setup_groups, sum_changes, update_scale,
    update_selection, ChangeScaleEvent, Scalable, Scale, ScaleDirection, ScaleGroup,
    SelectFactorEvent, SelectedGroup, MAX_GROUP_SCALE, MIN_GROUP_SCALE,
};
use entangled::math::{Scalar, Transform, Vector};

fn s(raw: i64) -> Scalar {
    Scalar::from_raw(raw)
}

fn units(n: i32) -> Scalar {
    Scalar::from_int(n)
}

fn platform(direction: ScaleDirection) -> Scalable {
    Scalable {
        factor: units(1),
        direction,
        position: Vector::new(units(0), units(0)),
        size: Vector::new(units(100), units(50)),
        min: s(-100_000_000),
        max: s(100_000_000),
    }
}

fn scaled(scalable: Scalable, accumulator: Scalar) -> Transform {
    let mut transform = Transform::from_translation(scalable.position);
    scale_transform(&scalable, accumulator, &mut transform);
    transform
}

fn keys(just_pressed: Vec<KeyCode>) -> Input {
    Input { pressed: just_pressed.clone(), just_pressed }
}

fn changes(raws: &[i64]) -> Vec<ChangeScaleEvent> {
    let mut events = Vec::new();
    for raw in raws {
        events.push(ChangeScaleEvent(s(*raw)));
    }
    events
}

#[test]
fn the_left_edge_of_a_platform_growing_right_never_moves() {
    let scalable = platform(ScaleDirection::Right);
    let accumulators: [i64; 9] =
        [-900_000, -500_000, -1, 0, 1, 333_333, 1_000_000, 2_500_000, 4_000_000];
    for accumulator in accumulators {
        let transform = scaled(scalable, s(accumulator));
        let scale = transform.scale.x.raw();
        assert_eq!(scale, 1_000_000 + accumulator);
        // left edge = x - s * 50
        assert_eq!(transform.translation.x.raw() - scale * 50, -50_000_000);
        assert_eq!(transform.translation.y, units(0));
        assert_eq!(transform.scale.y, units(1));
    }
}

#[test]
fn the_fixed_edge_of_each_direction_stays() {
    // stretched to 1.5: a width of 100 grows by 50, a height of 50 by 25
    let right = scaled(platform(ScaleDirection::Right), s(500_000));
    assert_eq!(right.translation, Vector::new(units(25), units(0)));
    assert_eq!(right.scale, Vector::new(s(1_500_000), units(1)));
    let left = scaled(platform(ScaleDirection::Left), s(500_000));
    assert_eq!(left.translation, Vector::new(units(-25), units(0)));
    assert_eq!(left.scale, Vector::new(s(1_500_000), units(1)));
    let up = scaled(platform(ScaleDirection::Up), s(500_000));
    assert_eq!(up.translation, Vector::new(units(0), s(12_500_000)));
    assert_eq!(up.scale, Vector::new(units(1), s(1_500_000)));
    let down = scaled(platform(ScaleDirection::Down), s(500_000));
    assert_eq!(down.translation, Vector::new(units(0), s(-12_500_000)));
    assert_eq!(down.scale, Vector::new(units(1), s(1_500_000)));
}

#[test]
fn a_shrunk_platform_moves_toward_its_fixed_edge() {
    let mut scalable = platform(ScaleDirection::Up);
    scalable.position = Vector::new(units(10), units(20));
    let transform = scaled(scalable, s(-500_000));
    // height 50 shrinks to 25: the centre sinks by 12.5
    assert_eq!(transform.scale.y, s(500_000));
    assert_eq!(transform.translation, Vector::new(units(10), s(7_500_000)));
}

#[test]
fn the_effective_scale_is_one_plus_accumulator_times_factor() {
    let mut scalable = platform(ScaleDirection::Right);
    scalable.factor = s(2_500_000);
    assert_eq!(compute_effective_scale(s(400_000), &scalable), s(2_000_000));
    scalable.factor = s(-1_000_000);
    assert_eq!(compute_effective_scale(s(400_000), &scalable), s(600_000));
    scalable.factor = s(333_333);
    // 1 + 0.5 * 0.333333 = 1.1666665, truncated
    assert_eq!(compute_effective_scale(s(500_000), &scalable), s(1_166_666));
    // -0.5 * 0.333333 = -0.1666665, truncated toward zero
    assert_eq!(compute_effective_scale(s(-500_000), &scalable), s(833_334));
}

#[test]
fn the_effective_scale_stays_within_the_bounds_of_the_platform() {
    let mut scalable = platform(ScaleDirection::Right);
    scalable.min = s(500_000);
    scalable.max = s(1_500_000);
    assert_eq!(compute_effective_scale(s(4_000_000), &scalable), s(1_500_000));
    assert_eq!(compute_effective_scale(s(-900_000), &scalable), s(500_000));
    assert_eq!(compute_effective_scale(s(250_000), &scalable), s(1_250_000));
    scalable.factor = s(i64::MAX);
    assert_eq!(compute_effective_scale(s(i64::MAX), &scalable), s(1_500_000));
    assert_eq!(compute_effective_scale(s(i64::MIN), &scalable), s(500_000));
    assert!(scalable.is_wf());
    scalable.min = s(1_500_001);
    assert!(!scalable.is_wf());
}

#[test]
fn the_new_centre_stops_at_the_bounds_of_the_range() {
    assert_eq!(compute_anchored(true, s(i64::MAX), s(i64::MAX), s(0)), s(i64::MAX));
    assert_eq!(compute_anchored(false, s(i64::MAX), s(i64::MAX), s(0)), s(i64::MIN));
    // growth 0.5 of an extent 3: offset 0.75
    assert_eq!(compute_anchored(true, s(1_500_000), s(3_000_000), s(10)), s(750_010));
    assert_eq!(compute_anchored(false, s(1_500_000), s(3_000_000), s(10)), s(-749_990));
    // growth 0.000001 of an extent 0.000001 is dropped
    assert_eq!(compute_anchored(true, s(1_000_001), s(1), s(7)), s(7));
}

#[test]
fn scaling_twice_gives_the_same_transform() {
    let scalable = platform(ScaleDirection::Up);
    let scales = vec![(ScaleGroup::Green, Scale(s(1_234_567)))];
    let mut objects =
        vec![(scalable, Transform::from_translation(scalable.position), ScaleGroup::Green)];
    apply_scale_factors(&mut objects, &scales);
    let once = objects.clone();
    apply_scale_factors(&mut objects, &scales);
    assert_eq!(objects, once);
    assert_eq!(once[0].1.scale.y, s(2_234_567));
}

#[test]
fn every_platform_takes_the_scale_of_its_own_group() {
    let scalable = platform(ScaleDirection::Right);
    let rest = Transform::from_translation(scalable.position);
    let scales = vec![
        (ScaleGroup::Red, Scale(s(100_000))),
        (ScaleGroup::Green, Scale(s(200_000))),
        (ScaleGroup::Blue, Scale(s(300_000))),
    ];
    let mut objects = vec![
        (scalable, rest, ScaleGroup::Blue),
        (scalable, rest, ScaleGroup::Red),
        (scalable, rest, ScaleGroup::Green),
    ];
    apply_scale_factors(&mut objects, &scales);
    assert_eq!(objects[0].1.scale.x, s(1_300_000));
    assert_eq!(objects[1].1.scale.x, s(1_100_000));
    assert_eq!(objects[2].1.scale.x, s(1_200_000));
    assert_eq!(objects[0].1.translation.x, s(15_000_000));
    assert_eq!(objects[0].0, scalable);
    assert_eq!(objects[0].2, ScaleGroup::Blue);
}

#[test]
fn a_platform_whose_group_has_no_entry_is_left_alone() {
    let scalable = platform(ScaleDirection::Right);
    let mut moved = Transform::from_translation(Vector::new(units(7), units(8)));
    moved.scale = Vector::new(units(3), units(4));
    let scales = vec![(ScaleGroup::Red, Scale(s(100_000)))];
    let mut objects = vec![(scalable, moved, ScaleGroup::Blue)];
    apply_scale_factors(&mut objects, &scales);
    assert_eq!(objects[0].1, moved);
    let mut none: Vec<(Scalable, Transform, ScaleGroup)> = Vec::new();
    apply_scale_factors(&mut none, &scales);
    assert!(none.is_empty());
}

#[test]
fn the_last_entry_of_a_group_is_the_one_looked_up() {
    let scales = vec![
        (ScaleGroup::Red, Scale(s(1))),
        (ScaleGroup::Green, Scale(s(2))),
        (ScaleGroup::Red, Scale(s(3))),
    ];
    let table = collect_scales(&scales);
    assert_eq!(lookup_scale(&table, ScaleGroup::Red), Some(s(3)));
    assert_eq!(lookup_scale(&table, ScaleGroup::Green), Some(s(2)));
    assert_eq!(lookup_scale(&table, ScaleGroup::Blue), None);
    let empty = collect_scales(&Vec::new());
    assert_eq!(lookup_scale(&empty, ScaleGroup::Red), None);
}

#[test]
fn groups_are_numbered_in_cyclic_order() {
    assert_eq!(ScaleGroup::all(), vec![ScaleGroup::Red, ScaleGroup::Green, ScaleGroup::Blue]);
    assert_eq!(ScaleGroup::Red.ordinal(), 0);
    assert_eq!(ScaleGroup::Green.ordinal(), 1);
    assert_eq!(ScaleGroup::Blue.ordinal(), 2);
    assert_eq!(ScaleGroup::from_ordinal(0), Some(ScaleGroup::Red));
    assert_eq!(ScaleGroup::from_ordinal(1), Some(ScaleGroup::Green));
    assert_eq!(ScaleGroup::from_ordinal(2), Some(ScaleGroup::Blue));
    assert_eq!(ScaleGroup::from_ordinal(3), None);
    assert_eq!(ScaleGroup::from_ordinal(255), None);
}

#[test]
fn a_level_starts_with_all_groups_at_zero_and_red_selected() {
    let (scales, selected) = setup_groups();
    assert_eq!(
        scales,
        vec![
            (ScaleGroup::Red, Scale(s(0))),
            (ScaleGroup::Green, Scale(s(0))),
            (ScaleGroup::Blue, Scale(s(0))),
        ]
    );
    assert_eq!(selected, SelectedGroup(ScaleGroup::Red));
}

#[test]
fn selection_steps_round_the_cycle() {
    let mut selected = SelectedGroup(ScaleGroup::Red);
    update_selection(&mut selected, &vec![SelectFactorEvent::forward()]);
    assert_eq!(selected.0, ScaleGroup::Green);
    update_selection(&mut selected, &vec![SelectFactorEvent::forward()]);
    assert_eq!(selected.0, ScaleGroup::Blue);
    update_selection(&mut selected, &vec![SelectFactorEvent::forward()]);
    assert_eq!(selected.0, ScaleGroup::Red);
    update_selection(&mut selected, &vec![SelectFactorEvent::backward()]);
    assert_eq!(selected.0, ScaleGroup::Blue);
    update_selection(&mut selected, &vec![SelectFactorEvent::backward()]);
    assert_eq!(selected.0, ScaleGroup::Green);
    update_selection(&mut selected, &Vec::new());
    assert_eq!(selected.0, ScaleGroup::Green);
}

#[test]
fn as_many_steps_forward_as_there_are_groups_lead_back() {
    for start in ScaleGroup::all() {
        let mut selected = SelectedGroup(start);
        for _ in 0..3 {
            update_selection(&mut selected, &vec![SelectFactorEvent::forward()]);
        }
        assert_eq!(selected.0, start);
        let three = vec![
            SelectFactorEvent::backward(),
            SelectFactorEvent::backward(),
            SelectFactorEvent::backward(),
        ];
        update_selection(&mut selected, &three);
        assert_eq!(selected.0, start);
    }
}

#[test]
fn selection_requests_of_one_tick_add_up() {
    let mut selected = SelectedGroup(ScaleGroup::Red);
    update_selection(
        &mut selected,
        &vec![SelectFactorEvent::forward(), SelectFactorEvent::forward()],
    );
    assert_eq!(selected.0, ScaleGroup::Blue);
    let mut selected = SelectedGroup(ScaleGroup::Green);
    update_selection(
        &mut selected,
        &vec![
            SelectFactorEvent::forward(),
            SelectFactorEvent::backward(),
            SelectFactorEvent::backward(),
            SelectFactorEvent::backward(),
        ],
    );
    assert_eq!(selected.0, ScaleGroup::Blue);
    assert_eq!(SelectFactorEvent::forward().direction(), 1);
    assert_eq!(SelectFactorEvent::backward().direction(), -1);
}

#[test]
fn the_keyboard_asks_for_the_next_or_the_previous_group() {
    let up = handle_keyboard_input(&keys(vec![KeyCode::Up]));
    assert_eq!(up.map(|e| e.direction()), Some(1));
    let w = handle_keyboard_input(&keys(vec![KeyCode::W]));
    assert_eq!(w.map(|e| e.direction()), Some(1));
    let down = handle_keyboard_input(&keys(vec![KeyCode::Down]));
    assert_eq!(down.map(|e| e.direction()), Some(-1));
    let s_key = handle_keyboard_input(&keys(vec![KeyCode::S]));
    assert_eq!(s_key.map(|e| e.direction()), Some(-1));
    let both = handle_keyboard_input(&keys(vec![KeyCode::W, KeyCode::S]));
    assert_eq!(both.map(|e| e.direction()), Some(-1));
    assert!(handle_keyboard_input(&keys(vec![KeyCode::A, KeyCode::Space])).is_none());
    assert!(handle_keyboard_input(&Input::new()).is_none());
    // a key that is merely held asks for nothing
    let held = Input { pressed: vec![KeyCode::W], just_pressed: Vec::new() };
    assert!(handle_keyboard_input(&held).is_none());
}

#[test]
fn scrolling_is_quantized() {
    let pixel = MouseWheel { unit: MouseScrollUnit::Pixel, y: units(30) };
    assert_eq!(compute_scroll_delta(&pixel), s(100_000));
    let line = MouseWheel { unit: MouseScrollUnit::Line, y: units(5) };
    assert_eq!(compute_scroll_delta(&line), s(500_000));
    let events = handle_mouse_scrolling(&vec![pixel, line]);
    assert_eq!(events, vec![ChangeScaleEvent(s(100_000)), ChangeScaleEvent(s(500_000))]);
    assert!(handle_mouse_scrolling(&Vec::new()).is_empty());
}

#[test]
fn pixel_scrolling_rounds_a_third_to_the_nearest_whole() {
    let pixel = |raw: i64| compute_scroll_delta(&MouseWheel { unit: MouseScrollUnit::Pixel, y: s(raw) });
    // 4.5 / 3 = 1.5 -> 2 -> 0.02
    assert_eq!(pixel(4_500_000), s(20_000));
    // 4.499999 / 3 = 1.499999 -> 1 -> 0.01
    assert_eq!(pixel(4_499_999), s(10_000));
    assert_eq!(pixel(-4_500_000), s(-20_000));
    assert_eq!(pixel(-4_499_999), s(-10_000));
    assert_eq!(pixel(1_499_999), s(0));
    assert_eq!(pixel(-30_000_000), s(-100_000));
    assert_eq!(pixel(i64::MAX), s(30_744_573_456_180_000));
    let line = |raw: i64| compute_scroll_delta(&MouseWheel { unit: MouseScrollUnit::Line, y: s(raw) });
    assert_eq!(line(-1_000_000), s(-100_000));
    assert_eq!(line(9), s(0));
    assert_eq!(line(-9), s(0));
}

#[test]
fn the_changes_of_a_tick_are_added_and_then_limited_once() {
    let (mut scales, _) = setup_groups();
    let selected = SelectedGroup(ScaleGroup::Green);
    // 10 - 8 = 2: the sum passes the upper limit on the way and still counts
    update_scale(&selected, &mut scales, &changes(&[10_000_000, -8_000_000]));
    assert_eq!(scales[1], (ScaleGroup::Green, Scale(s(2_000_000))));
    assert_eq!(scales[0], (ScaleGroup::Red, Scale(s(0))));
    assert_eq!(scales[2], (ScaleGroup::Blue, Scale(s(0))));
    update_scale(&selected, &mut scales, &changes(&[2_000_001]));
    assert_eq!(scales[1].1, Scale(s(MAX_GROUP_SCALE)));
    update_scale(&selected, &mut scales, &changes(&[-4_900_001]));
    assert_eq!(scales[1].1, Scale(s(MIN_GROUP_SCALE)));
    update_scale(&selected, &mut scales, &changes(&[]));
    assert_eq!(scales[1].1, Scale(s(-900_000)));
    update_scale(&selected, &mut scales, &changes(&[400_000, 250_000]));
    assert_eq!(scales[1].1, Scale(s(-250_000)));
}

#[test]
fn the_accumulator_stays_in_range_whatever_is_added() {
    let (mut scales, _) = setup_groups();
    let selected = SelectedGroup(ScaleGroup::Blue);
    let ticks: [&[i64]; 6] = [
        &[i64::MAX, i64::MAX, i64::MAX],
        &[i64::MIN, i64::MIN],
        &[i64::MAX, i64::MIN, 1],
        &[3_999_999],
        &[1, 1, 1],
        &[-12_345_678],
    ];
    let expected: [i64; 6] = [4_000_000, -900_000, -900_000, 3_099_999, 3_100_002, -900_000];
    for (tick, want) in ticks.iter().zip(expected) {
        update_scale(&selected, &mut scales, &changes(tick));
        let raw = scales[2].1 .0.raw();
        assert!(MIN_GROUP_SCALE <= raw && raw <= MAX_GROUP_SCALE);
        assert_eq!(raw, want);
    }
    assert_eq!(sum_changes(&changes(&[i64::MAX, i64::MAX])), 2 * (i64::MAX as i128));
}

#[test]
fn an_accumulator_out_of_range_is_brought_back_by_an_empty_tick() {
    let mut scales = vec![(ScaleGroup::Red, Scale(s(9_000_000)))];
    update_scale(&SelectedGroup(ScaleGroup::Red), &mut scales, &Vec::new());
    assert_eq!(scales[0].1, Scale(s(4_000_000)));
}

#[test]
fn changes_go_to_the_first_entry_of_the_selected_group() {
    let mut scales = vec![
        (ScaleGroup::Blue, Scale(s(1))),
        (ScaleGroup::Red, Scale(s(2))),
        (ScaleGroup::Red, Scale(s(3))),
    ];
    assert_eq!(find_group(&scales, ScaleGroup::Red), Some(1));
    assert_eq!(find_group(&scales, ScaleGroup::Green), None);
    update_scale(&SelectedGroup(ScaleGroup::Red), &mut scales, &changes(&[10]));
    assert_eq!(
        scales,
        vec![
            (ScaleGroup::Blue, Scale(s(1))),
            (ScaleGroup::Red, Scale(s(12))),
            (ScaleGroup::Red, Scale(s(3))),
        ]
    );
    // a selected group without an entry: nothing happens
    update_scale(&SelectedGroup(ScaleGroup::Green), &mut scales, &changes(&[10]));
    assert_eq!(scales[1].1, Scale(s(12)));
}

#[test]
fn a_reset_puts_every_accumulator_back_to_zero() {
    let mut scales = vec![
        (ScaleGroup::Blue, Scale(s(1_000_000))),
        (ScaleGroup::Red, Scale(s(-900_000))),
        (ScaleGroup::Green, Scale(s(4_000_000))),
    ];
    reset_scales(&mut scales);
    assert_eq!(
        scales,
        vec![
            (ScaleGroup::Blue, Scale(s(0))),
            (ScaleGroup::Red, Scale(s(0))),
            (ScaleGroup::Green, Scale(s(0))),
        ]
    );
}

#[test]
fn the_fixed_edge_is_off_by_less_than_one_step_at_most() {
    let directions = [
        (ScaleDirection::Up, 1i128),
        (ScaleDirection::Down, -1),
        (ScaleDirection::Left, -1),
        (ScaleDirection::Right, 1),
    ];
    let extents: [i64; 5] = [1, 3, 50_000_001, 99_999_999, 123_456_789_012];
    let accumulators: [i64; 6] = [-900_000, -333_333, -1, 7, 1_234_567, 4_000_000];
    for (direction, sign) in directions {
        for extent in extents {
            for accumulator in accumulators {
                let mut scalable = platform(direction);
                scalable.size = Vector::new(s(extent), s(extent));
                scalable.position = Vector::new(s(-17), s(40_000_003));
                scalable.factor = s(1_000_001);
                let transform = scaled(scalable, s(accumulator));
                let vertical = sign_is_vertical(direction);
                let (centre, scale, anchor) = if vertical {
                    (transform.translation.y, transform.scale.y, scalable.position.y)
                } else {
                    (transform.translation.x, transform.scale.x, scalable.position.x)
                };
                let growth = sign * (scale.raw() as i128 - 1_000_000) * extent as i128;
                let drift = 2_000_000 * (centre.raw() as i128 - anchor.raw() as i128) - growth;
                assert!(-2_000_000 < drift && drift < 2_000_000);
                if growth % 2_000_000 == 0 {
                    assert_eq!(drift, 0);
                }
            }
        }
    }
}

fn sign_is_vertical(direction: ScaleDirection) -> bool {
    matches!(direction, ScaleDirection::Up | ScaleDirection::Down)
}
