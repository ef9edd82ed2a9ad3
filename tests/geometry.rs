use to_center::components::{Player, Position};
use to_center::consts::{FRAC_PI_2, PI, PI_2, TRIG_SCALE};
use to_center::shapes::{cosine, player, point_at, sine, Point};
use to_center::consts::LAYOUT_LEVEL_MAX;
use to_center::utils::{
    approx_eq, create_map_of_element, get_level_radius, has_run_of_three_filled,
    layout_from_draws, layout_from_slots, normalize_angle, Control, Direction, Theme,
};

#[test]
fn normalize_angle_keeps_angles_in_range() {
    assert_eq!(normalize_angle(0), 0);
    assert_eq!(normalize_angle(1_000_000), 1_000_000);
    assert_eq!(normalize_angle(PI_2 - 1), PI_2 - 1);
    assert_eq!(normalize_angle(PI_2), 0);
    assert_eq!(normalize_angle(PI_2 + 5), 5);
    assert_eq!(normalize_angle(-1), PI_2 - 1);
    assert_eq!(normalize_angle(-PI_2), 0);
    assert_eq!(normalize_angle(-PI_2 - 10), PI_2 - 10);
    assert_eq!(normalize_angle(-PI), PI);
    assert_eq!(PI_2, 2 * PI);
    for a in [-4 * PI_2 + 1, -3 * PI_2 - 7, -2 * PI_2 + 3, 2 * PI_2 + 9, 4 * PI_2 - 1] {
        let r = normalize_angle(a);
        assert!(0 <= r && r < PI_2);
    }
}

#[test]
fn normalize_angle_handles_extreme_values() {
    let r = normalize_angle(i64::MIN);
    assert!(0 <= r && r < PI_2);
    let r = normalize_angle(i64::MAX);
    assert!(0 <= r && r < PI_2);
}

#[test]
fn level_radius_values_and_order() {
    assert_eq!(get_level_radius(0), 80);
    assert_eq!(get_level_radius(1), 125);
    assert_eq!(get_level_radius(8), 440);
    assert_eq!(get_level_radius(-1), 35);
    for l in -20..20 {
        assert!(get_level_radius(l) < get_level_radius(l + 1));
    }
    assert!(get_level_radius(i32::MIN) < get_level_radius(i32::MAX));
}

#[test]
fn approx_eq_is_exact_on_whole_units() {
    assert!(approx_eq(215, 215));
    assert!(!approx_eq(215, 216));
}

#[test]
fn take_life_saturates_at_zero() {
    let mut p = Player {
        life: 0,
        speed: 0,
        speed_press_ms: 0,
        start_angle_repeat: 0,
        collision: None,
    };
    assert_eq!(p.take_life(), None);
    assert_eq!(p.life, 0);

    p.life = 3;
    assert_eq!(p.take_life(), Some(2));
    assert_eq!(p.take_life(), Some(1));
    assert_eq!(p.take_life(), Some(0));
    assert_eq!(p.life, 0);
    assert_eq!(p.take_life(), None);
    assert_eq!(p.life, 0);
}

#[test]
fn position_helpers() {
    let mut p = Position::new(3, 100);
    assert_eq!(p.radius, 215);
    assert_eq!(p.current_level, 3);
    assert_eq!(p.next_level, 3);
    assert!(!p.is_between_level());
    p.next_level = 2;
    assert!(p.is_between_level());
    p.swap_level();
    assert_eq!((p.current_level, p.next_level), (2, 3));
    p.set_level(5);
    assert_eq!((p.current_level, p.next_level, p.radius, p.angle), (5, 5, 305, 100));
    p.set_default_player();
    assert_eq!((p.current_level, p.next_level, p.radius, p.angle), (8, 8, 440, FRAC_PI_2));
}

#[test]
fn direction_inverse_swaps_sides() {
    assert_eq!(Direction::inverse(Direction::Left(7)), Direction::Right(7));
    assert_eq!(Direction::inverse(Direction::Right(7)), Direction::Left(7));
    assert_eq!(Direction::inverse(Direction::Up), Direction::Down);
    assert_eq!(Direction::inverse(Direction::Down), Direction::Up);
}

#[test]
fn theme_and_control_names() {
    assert_eq!(Theme::Dark.name(), "dark");
    assert_eq!(Theme::Light.name(), "light");
    assert_eq!(Control::Normal.name(), "normal");
    assert_eq!(Control::Advanced.name(), "advanced");
}

#[test]
fn fixed_point_trigonometry() {
    assert_eq!(sine(0), 0);
    assert_eq!(sine(FRAC_PI_2), 10_000);
    assert_eq!(sine(PI), 0);
    assert_eq!(sine(-FRAC_PI_2), -10_000);
    assert_eq!(cosine(0), 10_000);
    assert_eq!(cosine(PI), -10_000);
    for a in (-PI_2..2 * PI_2).step_by(12_345) {
        assert!(sine(a).abs() <= TRIG_SCALE);
        assert!(cosine(a).abs() <= TRIG_SCALE);
    }
}

#[test]
fn points_from_polar_coordinates() {
    assert_eq!(point_at(0, 100), Point { x: 1_000_000, y: 0 });
    assert_eq!(point_at(FRAC_PI_2, 440), Point { x: 0, y: 4_400_000 });
}

#[test]
fn player_footprint_shape() {
    let pts = player(440, FRAC_PI_2, 8, 25);
    assert_eq!(pts.len(), 4);
    // tip towards the centre
    assert_eq!(pts[0], point_at(FRAC_PI_2, 415));
    // corners on either side of the outer point
    assert_eq!(pts[1].y, pts[3].y);
    assert!(pts[1].x > 0 && pts[3].x < 0);
    assert_eq!(pts[1].x, -pts[3].x);
    // the notch sits two sevenths of the depth in
    assert_eq!(pts[2], point_at(FRAC_PI_2, 433));
}

#[test]
fn run_of_three_detection() {
    assert!(!has_run_of_three_filled(&vec![]));
    assert!(!has_run_of_three_filled(&vec![1, 1]));
    assert!(has_run_of_three_filled(&vec![1, 1, 1]));
    assert!(!has_run_of_three_filled(&vec![1, 1, 0, 1, 1, 0, 1]));
    assert!(has_run_of_three_filled(&vec![0, 1, 0, 1, 1, 1, 0]));
}

#[test]
fn layout_of_fixed_slots() {
    let r = layout_from_slots(&vec![1, 0, 0, 1, 1, 0, 0, 0, 1]);
    let width = PI_2 / 9;
    let size = width - width / 9;
    assert_eq!(width, 698_131);
    assert_eq!(size, 620_561);
    assert_eq!(
        r,
        vec![(0, size), (3 * width, size), (4 * width, size), (8 * width, size)]
    );
    assert!(layout_from_slots(&vec![]).is_empty());
    assert!(layout_from_slots(&vec![0, 0, 0]).is_empty());
}

#[test]
fn generated_layout_sizes() {
    for level in 1..=20usize {
        let n = 8 + level;
        let width = PI_2 / n as i64;
        let size = width - width / n as i64;
        for _ in 0..30 {
            let r = create_map_of_element(level);
            assert!(r.len() >= n / 2 && r.len() <= n / 2 + 1, "level {} len {}", level, r.len());
            if n % 2 == 0 {
                assert!(r.len() >= (n + 1) / 2);
            }
            let mut last: i64 = -1;
            for (angle, s) in &r {
                assert_eq!(*s, size);
                assert_eq!(angle % width, 0);
                assert!(*angle > last && *angle < PI_2);
                last = *angle;
            }
        }
    }
}

#[test]
fn generated_layouts_are_not_all_identical() {
    let first = create_map_of_element(7);
    let mut differs = false;
    for _ in 0..50 {
        if create_map_of_element(7) != first {
            differs = true;
        }
    }
    assert!(differs);
}

#[test]
fn generated_layouts_use_both_counts() {
    // ring 2: ten slots, five or six of them filled
    let mut seen = [false; 2];
    for _ in 0..200 {
        let len = create_map_of_element(2).len();
        seen[len - 5] = true;
    }
    assert!(seen[0] && seen[1]);
}

#[test]
fn retry_policy_keeps_first_draw_without_run() {
    let run = vec![1, 1, 1, 0, 0, 0, 0, 0, 0];
    let clean_a = vec![1, 0, 1, 0, 1, 0, 0, 0, 0];
    let clean_b = vec![0, 1, 0, 1, 0, 1, 0, 0, 0];
    let width = PI_2 / 9;
    let size = width - width / 9;
    assert_eq!(
        layout_from_draws(&vec![run.clone(), clean_a.clone(), clean_b.clone()]),
        vec![(0, size), (2 * width, size), (4 * width, size)]
    );
    assert_eq!(layout_from_draws(&vec![clean_b.clone(), run.clone()]), layout_from_slots(&clean_b));
    // five draws, all with a run: the last one is kept
    let run2 = vec![0, 0, 0, 0, 0, 0, 1, 1, 1];
    let draws = vec![run.clone(), run.clone(), run.clone(), run.clone(), run2.clone()];
    assert_eq!(layout_from_draws(&draws), layout_from_slots(&run2));
}

#[test]
fn layouts_keep_gaps_up_to_the_level_bound() {
    for level in [1usize, 100, 1000, LAYOUT_LEVEL_MAX] {
        let r = create_map_of_element(level);
        for j in 0..r.len() {
            let next = if j + 1 < r.len() { r[j + 1].0 } else { PI_2 + r[0].0 };
            assert!(r[j].0 + r[j].1 < next, "level {}", level);
        }
    }
}

#[test]
fn generated_layouts_rarely_keep_a_run_of_three() {
    // a run of three survives only when all five draws have one
    let mut with_run = 0;
    for _ in 0..200 {
        let r = create_map_of_element(1);
        let width = PI_2 / 9;
        let mut marks = [0u8; 9];
        for (angle, _) in &r {
            marks[(angle / width) as usize] = 1;
        }
        if marks.windows(3).any(|w| w == [1, 1, 1]) {
            with_run += 1;
        }
    }
    assert!(with_run < 100);
}
