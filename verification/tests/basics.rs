use goose_fighter::geometry::{saturating_add, Direction, Vec2, AABB};
use goose_fighter::input::{get_local_input, Input, ATTACK, JUMP, LEFT, RIGHT};

fn unit_box(x: i64, y: i64) -> AABB {
    AABB { min_x: x, min_y: y, max_x: x + 10, max_y: y + 10 }
}

#[test]
fn saturating_add_is_exact_inside_the_range() {
    assert_eq!(saturating_add(2, 3), 5);
    assert_eq!(saturating_add(-2000, 40), -1960);
    assert_eq!(saturating_add(i32::MAX, i32::MIN), -1);
    assert_eq!(saturating_add(i32::MAX - 1, 1), i32::MAX);
    assert_eq!(saturating_add(i32::MIN + 1, -1), i32::MIN);
}

#[test]
fn saturating_add_holds_at_the_ends_of_the_range() {
    assert_eq!(saturating_add(i32::MAX, 1), i32::MAX);
    assert_eq!(saturating_add(i32::MAX, i32::MAX), i32::MAX);
    assert_eq!(saturating_add(i32::MIN, -1), i32::MIN);
    assert_eq!(saturating_add(i32::MIN, i32::MIN), i32::MIN);
    assert_eq!(saturating_add(-8, i32::MIN + 3), i32::MIN);
}

#[test]
fn boxes_that_overlap_intersect() {
    let a = unit_box(0, 0);
    assert!(a.intersects(&unit_box(9, 9)));
    assert!(a.intersects(&unit_box(-9, 9)));
    assert!(a.intersects(&unit_box(0, 0)));
    assert!(a.intersects(&AABB { min_x: 2, min_y: 2, max_x: 3, max_y: 3 }));
    assert!(AABB { min_x: 2, min_y: 2, max_x: 3, max_y: 3 }.intersects(&a));
}

#[test]
fn boxes_that_only_touch_do_not_intersect() {
    let a = unit_box(0, 0);
    assert!(!a.intersects(&unit_box(10, 0)));
    assert!(!a.intersects(&unit_box(-10, 0)));
    assert!(!a.intersects(&unit_box(0, 10)));
    assert!(!a.intersects(&unit_box(0, -10)));
    assert!(!a.intersects(&unit_box(10, 10)));
    assert!(!a.intersects(&unit_box(11, 0)));
    assert!(!a.intersects(&unit_box(0, 300)));
}

#[test]
fn a_box_without_area_intersects_only_boxes_around_it() {
    let line = AABB { min_x: 5, min_y: 0, max_x: 5, max_y: 10 };
    assert!(!line.intersects(&line));
    assert!(line.intersects(&unit_box(0, 0)));
    assert!(!line.intersects(&unit_box(5, 0)));
}

#[test]
fn intersection_does_not_depend_on_the_order() {
    let boxes = [
        unit_box(0, 0),
        unit_box(10, 0),
        unit_box(5, 5),
        unit_box(-3, 8),
        AABB { min_x: 4, min_y: -20, max_x: 6, max_y: 20 },
    ];
    for a in &boxes {
        for b in &boxes {
            assert_eq!(a.intersects(b), b.intersects(a));
        }
    }
}

#[test]
fn mirroring_reflects_about_the_vertical_axis() {
    let b = AABB { min_x: 400, min_y: 0, max_x: 1200, max_y: 400 };
    let m = b.mirrored();
    assert_eq!(m, AABB { min_x: -1200, min_y: 0, max_x: -400, max_y: 400 });
    assert_eq!(m.mirrored(), b);
    let across = AABB { min_x: -3, min_y: -1, max_x: 7, max_y: 1 };
    assert_eq!(across.mirrored(), AABB { min_x: -7, min_y: -1, max_x: 3, max_y: 1 });
}

#[test]
fn translating_moves_all_four_sides() {
    let b = AABB { min_x: 400, min_y: 0, max_x: 1200, max_y: 400 };
    assert_eq!(
        b.translated(Vec2 { x: -500, y: 30 }),
        AABB { min_x: -100, min_y: 30, max_x: 700, max_y: 430 }
    );
    assert_eq!(
        b.translated(Vec2 { x: i32::MAX, y: i32::MIN }),
        AABB {
            min_x: 400 + i32::MAX as i64,
            min_y: i32::MIN as i64,
            max_x: 1200 + i32::MAX as i64,
            max_y: 400 + i32::MIN as i64,
        }
    );
}

#[test]
fn directions_are_two() {
    assert_ne!(Direction::East, Direction::West);
}

#[test]
fn input_bits_are_left_right_attack_jump() {
    assert_eq!((LEFT, RIGHT, ATTACK, JUMP), (1, 2, 4, 8));
    assert_eq!(Input::from_flags(true, false, false, false).input_bits, 1);
    assert_eq!(Input::from_flags(false, true, false, false).input_bits, 2);
    assert_eq!(Input::from_flags(false, false, true, false).input_bits, 4);
    assert_eq!(Input::from_flags(false, false, false, true).input_bits, 8);
    assert_eq!(Input::from_flags(true, true, true, true).input_bits, 15);
    assert_eq!(Input::from_flags(false, false, false, false).input_bits, 0);
}

#[test]
fn input_flags_are_independent() {
    for bits in 0u8..16 {
        let left = bits & 1 != 0;
        let right = bits & 2 != 0;
        let attack = bits & 4 != 0;
        let jump = bits & 8 != 0;
        let input = Input::from_flags(left, right, attack, jump);
        assert_eq!(input.input_bits, bits);
        assert_eq!(input.is_left_pressed(), left);
        assert_eq!(input.is_right_pressed(), right);
        assert_eq!(input.is_attack_pressed(), attack);
        assert_eq!(input.is_jump_pressed(), jump);
        assert_eq!(get_local_input(left, right, attack, jump), input);
    }
}

#[test]
fn input_survives_the_wire() {
    for byte in 0u8..=255 {
        let input = Input::from_byte(byte);
        assert_eq!(input.to_byte(), byte);
        assert_eq!(Input::from_byte(input.to_byte()), input);
    }
}

#[test]
fn input_does_not_read_the_higher_bits() {
    let input = Input::from_byte(0xf0);
    assert!(!input.is_left_pressed());
    assert!(!input.is_right_pressed());
    assert!(!input.is_attack_pressed());
    assert!(!input.is_jump_pressed());
    let input = Input::from_byte(0xf4);
    assert!(input.is_attack_pressed());
    assert!(!input.is_jump_pressed());
}
