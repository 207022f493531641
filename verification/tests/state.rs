use latinimers::defines::DoubleLetterLevel;
use latinimers::math::{get_distance_int, Ratio};
use latinimers::suggest::near_keys::NearKeysDistanceMap;
use latinimers::suggest::proximity_info::ProximityInfo;
use latinimers::suggest::proximity_info_state::{Direction, ProximityInfoState};

fn qwerty() -> ProximityInfo {
    let mut xs = vec![];
    let mut ys = vec![];
    let mut codes = vec![];
    let rows = [("qwertyuiop", 0, 0), ("asdfghjkl", 50, 100), ("zxcvbnm", 150, 200)];
    for (letters, left, top) in rows.iter() {
        for (i, c) in letters.chars().enumerate() {
            xs.push(left + (i as i32) * 100);
            ys.push(*top);
            codes.push(c);
        }
    }
    xs.push(250);
    ys.push(300);
    codes.push(' ');
    let n = codes.len();
    let mut widths = vec![100; n];
    widths[n - 1] = 500;
    let heights = vec![100; n];
    // A grid of 10 by 4 cells of 100 by 100: each cell lists the keys that
    // are less than 100 away from it.
    let mut grid = Vec::new();
    for row in 0..4 {
        for col in 0..10 {
            let mut listed = 0;
            for k in 0..n {
                let overlaps = xs[k] < (col + 2) * 100
                    && xs[k] + widths[k] > (col - 1) * 100
                    && ys[k] < (row + 2) * 100
                    && ys[k] + heights[k] > (row - 1) * 100;
                if overlaps {
                    grid.push(codes[k]);
                    listed += 1;
                }
            }
            for _ in listed..16 {
                grid.push('\0');
            }
        }
    }
    match ProximityInfo::new(
        1000,
        400,
        10,
        4,
        100,
        100,
        grid,
        n,
        xs,
        ys,
        widths,
        heights,
        codes,
        vec![0; n],
        vec![0; n],
        vec![0; n],
    ) {
        Ok(layout) => layout,
        Err(error) => panic!("no layout: {:?}", error),
    }
}

fn angle(x1: i32, y1: i32, x2: i32, y2: i32) -> f64 {
    let dx = x1 - x2;
    let dy = y1 - y2;
    if dx == 0 && dy == 0 {
        0.0
    } else {
        (dy as f64).atan2(dx as f64)
    }
}

fn angle_diff(a: f64, b: f64) -> f64 {
    let two_pi = std::f64::consts::PI * 2.0;
    let mut delta = (a - b).abs();
    if delta > two_pi {
        delta -= two_pi * (delta / two_pi).floor();
    }
    if delta > std::f64::consts::PI {
        delta = two_pi - delta;
    }
    delta
}

fn turns(points: &[(i32, i32)]) -> Vec<i32> {
    let mut turns = vec![0; points.len()];
    for i in 2..points.len() {
        let before = angle(points[i - 2].0, points[i - 2].1, points[i - 1].0, points[i - 1].1);
        let here = angle(points[i - 1].0, points[i - 1].1, points[i].0, points[i].1);
        turns[i] = (angle_diff(before, here) * 10000.0).floor() as i32;
    }
    turns
}

fn far() -> Ratio {
    Ratio::new(10_000_000, 1)
}

fn gesture(state: &mut ProximityInfoState, points: &[(i32, i32)], times: &[i32]) {
    let n = points.len();
    state.init_input_params(
        0,
        far(),
        qwerty(),
        vec![],
        n,
        points.iter().map(|p| p.0).collect(),
        points.iter().map(|p| p.1).collect(),
        Some(times.to_vec()),
        vec![0; n],
        turns(points),
        true,
        String::from("en-US"),
    );
}

fn typing(state: &mut ProximityInfoState, word: &str, points: &[(i32, i32)]) {
    let n = points.len();
    state.init_input_params(
        0,
        far(),
        qwerty(),
        word.chars().collect(),
        n,
        points.iter().map(|p| p.0).collect(),
        points.iter().map(|p| p.1).collect(),
        None,
        vec![0; n],
        vec![],
        false,
        String::from("en-US"),
    );
}

const CORNER: [(i32, i32); 9] =
    [(200, 0), (150, 0), (100, 0), (50, 0), (0, 0), (0, 50), (0, 100), (0, 150), (0, 200)];
const CORNER_TIMES: [i32; 9] = [0, 100, 200, 300, 400, 500, 600, 700, 800];

fn gesture_with_turns(state: &mut ProximityInfoState, points: &[(i32, i32)], turns: Vec<i32>) {
    let n = points.len();
    state.init_input_params(
        0,
        far(),
        qwerty(),
        vec![],
        n,
        points.iter().map(|p| p.0).collect(),
        points.iter().map(|p| p.1).collect(),
        Some((0..n as i32).map(|i| i * 100).collect()),
        vec![0; n],
        turns,
        true,
        String::from("en-US"),
    );
}

fn sampled_indices(state: &ProximityInfoState) -> Vec<usize> {
    (0..state.size()).map(|i| state.get_input_index_of_sampled_point(i)).collect()
}

fn sampled_points(state: &ProximityInfoState) -> Vec<(i32, i32)> {
    (0..state.size()).map(|i| (state.get_input_x(i), state.get_input_y(i))).collect()
}

fn length_cache(state: &ProximityInfoState) -> Vec<i32> {
    (0..state.size()).map(|i| state.get_length_cache(i)).collect()
}

/// The lists of a state have one length each, and the way along the
/// sampled points is measured from 0 and never falls.
fn assert_consistent(state: &ProximityInfoState, raw: &[(i32, i32)], geometric: bool) {
    let size = state.size();
    assert_eq!(state.is_used(), size > 0);
    let points = sampled_points(state);
    let indices = sampled_indices(state);
    let lengths = length_cache(state);
    assert_eq!(points.len(), size);
    for i in 0..size {
        assert!(indices[i] < raw.len());
        if geometric {
            assert_eq!(points[i], raw[indices[i]]);
        }
        if i == 0 {
            assert_eq!(lengths[0], 0);
        } else {
            assert!(indices[i - 1] < indices[i]);
            assert!(lengths[i - 1] <= lengths[i]);
            assert_eq!(
                lengths[i] - lengths[i - 1],
                get_distance_int(points[i].0, points[i].1, points[i - 1].0, points[i - 1].1)
            );
        }
    }
    if geometric && size > 0 {
        for i in 0..size {
            // Each of these is there for each sampled point.
            state.get_speed_rate(i);
            state.get_beeline_speed_percentile(i);
            state.get_double_letter_level(i);
            state.get_point_to_key_length(i, 0);
        }
        for i in 0..size - 1 {
            assert_eq!(
                state.get_direction(i),
                Direction { dx: points[i].0 - points[i + 1].0, dy: points[i].1 - points[i + 1].1 }
            );
            assert_eq!(state.get_direction(i), state.get_xy_direction(i, i + 1));
        }
    }
}

#[test]
fn a_new_state_is_not_used() {
    let state = ProximityInfoState::new(qwerty());
    assert_eq!(state.size(), 0);
    assert!(!state.is_used());
    assert!(!state.is_continuous_suggestion_possible());
    assert!(!state.touch_positon_correction_enabled());
    assert_eq!(state.proximity_count(), 0);
    assert!(!state.has_been_updated_by_geometric_input());
    assert_eq!(state.get_proximity_info().get_key_count(), 27);
    assert_eq!(state.get_xy_direction(0, 0), Direction { dx: 0, dy: 0 });
    assert!(!state.exists_adjacent_proximity_chars(0));
    assert!(state.same_as_typed(String::from(""), 0));
    assert!(!state.same_as_typed(String::from("a"), 1));
}

#[test]
fn key_presses_are_all_kept() {
    let mut state = ProximityInfoState::new(qwerty());
    // 'h' spans 550..650 by 100..200, 'i' spans 700..800 by 0..100.
    let points = [(600, 150), (750, 50)];
    typing(&mut state, "hi", &points);
    assert_eq!(state.size(), 2);
    assert_eq!(sampled_points(&state), points.to_vec());
    assert_eq!(sampled_indices(&state), vec![0, 1]);
    // From (600, 150) to (750, 50): sqrt(150^2 + 100^2) = 180.28
    assert_eq!(length_cache(&state), vec![0, 180]);
    assert_consistent(&state, &points, false);
    assert_eq!(state.proximity_count(), 2);
    assert_eq!(state.get_primary_code_point_at(0), 'h');
    assert_eq!(state.get_primary_code_point_at(1), 'i');
    assert_eq!(state.get_primary_original_code_point_at(0), Some('h'));
    assert_eq!(state.get_proximity_code_points_at(0)[0], 'h');
    assert!(!state.has_space_proximity(0));
    // Nothing was sampled before, so the input continues what there was.
    assert!(state.is_continuous_suggestion_possible());
}

#[test]
fn same_as_typed_compares_the_code_points_of_the_presses() {
    let mut state = ProximityInfoState::new(qwerty());
    typing(&mut state, "hi", &[(600, 150), (750, 50)]);
    assert!(state.same_as_typed(String::from("hi"), 2));
    assert!(state.same_as_typed(String::from("hit"), 2));
    assert!(!state.same_as_typed(String::from("ho"), 2));
    assert!(!state.same_as_typed(String::from("hi"), 1));
    assert!(!state.same_as_typed(String::from("hi"), 3));
    assert!(!state.same_as_typed(String::from("h"), 2));
    assert!(!state.same_as_typed(String::from(""), 0));
}

#[test]
fn candidates_of_a_press_are_the_keys_near_it() {
    let mut state = ProximityInfoState::new(qwerty());
    // 'g' spans 450..550 and 'h' 550..650, both by 100..200; 'q' is far.
    typing(&mut state, "ghq", &[(540, 150), (560, 150), (50, 50)]);
    assert_eq!(state.size(), 3);
    assert!(state.exists_code_point_in_proximity_at(0, 'g'));
    assert!(state.exists_code_point_in_proximity_at(0, 'h'));
    assert!(state.exists_code_point_in_proximity_at(0, 't'));
    assert!(state.exists_code_point_in_proximity_at(0, 'y'));
    assert!(!state.exists_code_point_in_proximity_at(0, 'q'));
    assert!(state.exists_code_point_in_proximity_at(1, 'g'));
    assert!(!state.exists_code_point_in_proximity_at(2, 'g'));
    // The press 0 is 'g', which is among the candidates of the press 1.
    assert!(state.exists_adjacent_proximity_chars(0));
    // The press 1 is 'h'.  It is among the candidates of the press 0, but
    // the first press is not looked at, and not among those of the press 2.
    assert!(!state.exists_code_point_in_proximity_at(2, 'h'));
    assert!(!state.exists_adjacent_proximity_chars(1));
    // The press 2 is 'q', which is not among the candidates of the press 1.
    assert!(!state.exists_adjacent_proximity_chars(2));
    assert!(!state.exists_adjacent_proximity_chars(3));

    typing(&mut state, "qhg", &[(50, 50), (560, 150), (500, 150)]);
    // The press 2 is 'g', which is among the candidates of the press 1.
    assert!(state.exists_adjacent_proximity_chars(2));
    // The press 1 is 'h', which is among the candidates of the press 2.
    assert!(state.exists_adjacent_proximity_chars(1));
    assert!(!state.exists_adjacent_proximity_chars(0));
}

#[test]
fn presses_without_position_are_put_on_their_keys() {
    let mut state = ProximityInfoState::new(qwerty());
    let points = [(-1, -1), (-1, -1), (-1, -1), (-1, -1)];
    typing(&mut state, "Hi 1", &points);
    assert_eq!(state.size(), 4);
    // The middle of 'h', the middle of 'i', the middle of the space, and a
    // code point without a key, which stays without a position.
    assert_eq!(sampled_points(&state), vec![(600, 150), (750, 50), (500, 350), (-1, -1)]);
    assert_eq!(state.get_primary_code_point_at(0), 'H');
    assert_eq!(state.get_primary_original_code_point_at(0), Some('h'));
    assert_eq!(state.get_primary_original_code_point_at(3), None);
    assert_eq!(state.get_proximity_code_points_at(0), &vec!['H']);
    assert!(state.has_space_proximity(2));
    assert!(!state.has_space_proximity(3));
    assert!(state.same_as_typed(String::from("Hi 1"), 4));
}

#[test]
fn presses_with_a_position_after_one_without_have_none() {
    let mut state = ProximityInfoState::new(qwerty());
    typing(&mut state, "hi", &[(-1, 5), (750, 50)]);
    assert_eq!(sampled_points(&state), vec![(600, 150), (750, 50)]);
    // The candidates are worked out from the positions as they are given.
    assert_eq!(state.get_proximity_code_points_at(0), &vec!['h']);
    assert!(state.get_proximity_code_points_at(1).contains(&'o'));
}

#[test]
fn only_the_points_of_the_pointer_are_looked_at() {
    let mut state = ProximityInfoState::new(qwerty());
    let points = [(600, 150), (50, 50), (750, 50), (50, 50)];
    state.init_input_params(
        1,
        far(),
        qwerty(),
        "hqiq".chars().collect(),
        4,
        points.iter().map(|p| p.0).collect(),
        points.iter().map(|p| p.1).collect(),
        None,
        vec![1, 0, 1, 0],
        vec![],
        false,
        String::from("en-US"),
    );
    assert_eq!(sampled_indices(&state), vec![0, 2]);
    assert_eq!(sampled_points(&state), vec![(600, 150), (750, 50)]);
    // Candidates are worked out for the first pointer only.
    assert_eq!(state.proximity_count(), 0);
    assert!(!state.exists_adjacent_proximity_chars(0));
    let mut state = ProximityInfoState::new(qwerty());
    state.init_input_params(
        7,
        far(),
        qwerty(),
        "hqiq".chars().collect(),
        4,
        points.iter().map(|p| p.0).collect(),
        points.iter().map(|p| p.1).collect(),
        None,
        vec![1, 0, 1, 0],
        vec![],
        false,
        String::from("en-US"),
    );
    assert_eq!(state.size(), 0);
}

#[test]
fn input_without_points_leaves_nothing() {
    let mut state = ProximityInfoState::new(qwerty());
    gesture(&mut state, &[], &[]);
    assert_eq!(state.size(), 0);
    typing(&mut state, "", &[]);
    assert_eq!(state.size(), 0);
    assert_eq!(state.proximity_count(), 0);
}

#[test]
fn a_corner_of_a_gesture_is_kept() {
    let mut state = ProximityInfoState::new(qwerty());
    // Along the upper edge to the left, then down the left edge: the corner
    // is the point 4.  It is no nearer to a key than its neighbours are, so
    // only the turn keeps it.
    assert_eq!(turns(&CORNER), vec![0, 0, 0, 0, 0, 15707, 0, 0, 0]);
    gesture(&mut state, &CORNER, &CORNER_TIMES);
    let indices = sampled_indices(&state);
    assert!(indices.contains(&4));
    // The points 2 and 6 lie between two keys and are taken away; the
    // others are nearest to 'w', to 'q' and to 'a', or come first or last.
    assert_eq!(indices, vec![0, 1, 3, 4, 5, 7, 8]);
    assert_eq!(
        sampled_points(&state),
        vec![(200, 0), (150, 0), (50, 0), (0, 0), (0, 50), (0, 150), (0, 200)]
    );
    assert_eq!(length_cache(&state), vec![0, 50, 150, 200, 250, 350, 400]);
    assert_consistent(&state, &CORNER, true);
    assert!(state.has_been_updated_by_geometric_input());
    // The path turns by a right angle at the corner.
    assert_eq!(state.get_direction(2), Direction { dx: 50, dy: 0 });
    assert_eq!(state.get_direction(3), Direction { dx: 0, dy: -50 });
    assert_eq!(state.get_xy_direction(6, 0), Direction { dx: -200, dy: 200 });
    assert_eq!(state.get_xy_direction(0, 7), Direction { dx: 0, dy: 0 });
    assert_eq!(state.get_xy_direction(7, 0), Direction { dx: 0, dy: 0 });
}

#[test]
fn without_the_turn_the_corner_is_not_kept() {
    let mut state = ProximityInfoState::new(qwerty());
    gesture_with_turns(&mut state, &CORNER, vec![0; 9]);
    // Without the corner the point after it is nearest to no key either.
    assert_eq!(sampled_indices(&state), vec![0, 1, 3, 7, 8]);
    assert_consistent(&state, &CORNER, true);
}

#[test]
fn the_sum_of_turns_must_exceed_a_quarter_of_pi() {
    for (turn, kept) in [(7853, vec![0, 1, 3, 7, 8]), (7854, vec![0, 1, 3, 4, 5, 7, 8])] {
        let mut state = ProximityInfoState::new(qwerty());
        gesture_with_turns(&mut state, &CORNER, vec![0, 0, 0, 0, 0, turn, 0, 0, 0]);
        assert_eq!(sampled_indices(&state), kept);
    }
    // The turns add up while points are taken away: the point 2 is, so the
    // turns at the points 3 to 5 count together.
    let mut state = ProximityInfoState::new(qwerty());
    gesture_with_turns(&mut state, &CORNER, vec![0, 0, 0, 2000, 3000, 2854, 0, 0, 0]);
    assert_eq!(sampled_indices(&state), vec![0, 1, 3, 7, 8]);
    let mut state = ProximityInfoState::new(qwerty());
    gesture_with_turns(&mut state, &CORNER, vec![0, 0, 9000, 9000, 0, 0, 0, 0, 0]);
    assert_eq!(sampled_indices(&state), vec![0, 1, 2, 3, 7, 8]);
}

#[test]
fn a_gesture_that_turns_back_keeps_the_turning_point() {
    let mut state = ProximityInfoState::new(qwerty());
    // To the corner and back again: the turn is sharp whatever the turns say.
    let points = [(200, 0), (150, 0), (100, 0), (50, 0), (0, 0), (50, 0), (100, 0), (150, 0)];
    gesture_with_turns(&mut state, &points, vec![0; 8]);
    assert!(sampled_indices(&state).contains(&4));
    assert_eq!(sampled_indices(&state), vec![0, 1, 3, 4, 5, 7]);
    assert_consistent(&state, &points, true);
}

#[test]
fn the_last_point_is_left_out_when_it_is_close() {
    let mut state = ProximityInfoState::new(qwerty());
    // 24 * 4 is less than the key width of 100, 25 * 4 is not.
    gesture(&mut state, &[(150, 50), (174, 50)], &[0, 100]);
    assert_eq!(sampled_indices(&state), vec![0]);
    gesture(&mut state, &[(150, 50), (175, 50)], &[0, 100]);
    assert_eq!(sampled_indices(&state), vec![0, 1]);
    assert_eq!(length_cache(&state), vec![0, 25]);
}

#[test]
fn more_input_continues_a_gesture() {
    let mut state = ProximityInfoState::new(qwerty());
    let points = vec![
        (200, 0),
        (150, 0),
        (100, 0),
        (50, 0),
        (0, 0),
        (0, 50),
        (0, 100),
        (0, 150),
        (0, 200),
        (50, 200),
    ];
    let times: Vec<i32> = (0..10).map(|i| i * 100).collect();
    gesture(&mut state, &points[..8], &times[..8]);
    assert!(!state.is_continuous_suggestion_possible());
    assert_consistent(&state, &points[..8], true);
    assert_eq!(sampled_indices(&state), vec![0, 1, 3, 4, 5, 7]);
    let first_size = state.size();
    let first_points = sampled_points(&state);
    let first_indices = sampled_indices(&state);
    let first_lengths = length_cache(&state);
    let first_rates: Vec<Ratio> = (0..first_size).map(|i| state.get_speed_rate(i)).collect();

    gesture(&mut state, &points, &times);
    assert!(state.is_continuous_suggestion_possible());
    assert_consistent(&state, &points, true);
    assert_eq!(sampled_indices(&state), vec![0, 1, 3, 4, 5, 7, 8, 9]);
    let kept = first_size - 2;
    assert_eq!(kept, 4);
    assert!(state.size() >= kept);
    assert_eq!(sampled_points(&state)[..kept], first_points[..kept]);
    assert_eq!(sampled_indices(&state)[..kept], first_indices[..kept]);
    assert_eq!(length_cache(&state)[..kept], first_lengths[..kept]);
    for i in 0..kept {
        let rate = state.get_speed_rate(i);
        assert_eq!((rate.num, rate.den), (first_rates[i].num, first_rates[i].den));
    }

    // The same input once more continues it too, and changes nothing.
    gesture(&mut state, &points, &times);
    assert!(state.is_continuous_suggestion_possible());
    assert_eq!(sampled_indices(&state), vec![0, 1, 3, 4, 5, 7, 8, 9]);
}

#[test]
fn sampling_anew_gives_what_continuing_gave() {
    let points = vec![
        (200, 0),
        (150, 0),
        (100, 0),
        (50, 0),
        (0, 0),
        (0, 50),
        (0, 100),
        (0, 150),
        (0, 200),
        (50, 200),
    ];
    let times: Vec<i32> = (0..10).map(|i| i * 100).collect();
    let mut anew = ProximityInfoState::new(qwerty());
    gesture(&mut anew, &points, &times);
    assert_consistent(&anew, &points, true);
    assert_eq!(sampled_indices(&anew), vec![0, 1, 3, 4, 5, 7, 8, 9]);
}

#[test]
fn changed_input_does_not_continue() {
    let mut state = ProximityInfoState::new(qwerty());
    let points = CORNER.to_vec();
    let times = CORNER_TIMES.to_vec();
    gesture(&mut state, &points, &times);
    assert_eq!(sampled_indices(&state), vec![0, 1, 3, 4, 5, 7, 8]);
    // A sampled point has moved.
    let mut moved = points.clone();
    moved[3] = (51, 0);
    gesture(&mut state, &moved, &times);
    assert!(!state.is_continuous_suggestion_possible());
    assert!(sampled_indices(&state).contains(&3));
    assert!(!sampled_indices(&state).contains(&2));
    // A point that was not sampled has moved.
    let mut other = moved.clone();
    other[2] = (101, 0);
    gesture(&mut state, &other, &times);
    assert!(state.is_continuous_suggestion_possible());
    // A sampled point was touched at another time.
    let mut later = times.clone();
    later[8] = 801;
    gesture(&mut state, &other, &later);
    assert!(!state.is_continuous_suggestion_possible());
    // There is less input than there are sampled points.
    gesture(&mut state, &other[..2], &later[..2]);
    assert!(!state.is_continuous_suggestion_possible());
    assert_eq!(sampled_indices(&state), vec![0, 1]);
    // Key presses do not continue a gesture.
    gesture(&mut state, &other, &later);
    typing(&mut state, "abcdefghi", &other);
    assert!(!state.is_continuous_suggestion_possible());
    assert_eq!(state.size(), 9);
    typing(&mut state, "abcdefghi", &other);
    assert!(state.is_continuous_suggestion_possible());
    assert_eq!(state.size(), 9);
    assert_consistent(&state, &other, false);
    // Nor does a gesture continue key presses.
    gesture(&mut state, &other, &later);
    assert!(!state.is_continuous_suggestion_possible());
}

#[test]
fn a_rest_makes_a_strong_double_letter() {
    let mut state = ProximityInfoState::new(qwerty());
    // Two points 30 apart, within the lookup radius of 50, 800 ms apart.
    gesture(&mut state, &[(150, 50), (180, 50)], &[0, 800]);
    assert_eq!(state.size(), 2);
    let average = state.get_average_speed();
    assert_eq!((average.num, average.den), (30, 800));
    // The time of the last point counts 150 ms earlier: 650 ms is a rest.
    assert_eq!(state.get_beeline_speed_percentile(1), 0);
    assert_eq!(state.get_double_letter_level(1), DoubleLetterLevel::Strong);
    // For the first point both ends are moved: 500 ms for 30 pixels is 1.6
    // times the average speed, and a hundredth more.
    assert_eq!(state.get_beeline_speed_percentile(0), 161);
    assert_eq!(state.get_double_letter_level(0), DoubleLetterLevel::NotADoubleLetter);
}

#[test]
fn a_short_rest_makes_no_strong_double_letter() {
    let mut state = ProximityInfoState::new(qwerty());
    gesture(&mut state, &[(150, 50), (180, 50)], &[0, 749]);
    // 599 ms: 30 / 599 / (30 / 749) = 1.2504, and a hundredth more.
    assert_eq!(state.get_beeline_speed_percentile(1), 126);
    gesture(&mut state, &[(150, 50), (180, 50)], &[0, 750]);
    assert_eq!(state.get_beeline_speed_percentile(1), 0);
}

#[test]
fn a_slow_stretch_makes_a_double_letter() {
    let mut state = ProximityInfoState::new(qwerty());
    // Fast to (350, 50), then 590 ms for a step of 2, then fast again.
    let points = [(150, 50), (350, 50), (352, 50), (552, 50), (752, 50)];
    let times = [0, 10, 600, 610, 620];
    gesture(&mut state, &points, &times);
    assert_consistent(&state, &points, true);
    assert_eq!(sampled_indices(&state), vec![0, 1, 2, 3, 4]);
    let percentiles: Vec<i32> =
        (0..state.size()).map(|i| state.get_beeline_speed_percentile(i)).collect();
    // The first and the last point have no other point within 50: their
    // windows have no extent.  The windows of the points 1 and 2 reach from
    // the first point to the point 2, which took 600 ms.  The window of
    // the point 3 reaches to the last point, whose time counts 150 ms
    // earlier: 200 pixels in -140 ms, by the average speed of 602 pixels in
    // 620 ms, is -1.4713, and a hundredth more.
    assert_eq!(percentiles, vec![100, 0, 0, -146, 100]);
    let levels: Vec<DoubleLetterLevel> =
        (0..state.size()).map(|i| state.get_double_letter_level(i)).collect();
    assert_eq!(
        levels,
        vec![
            DoubleLetterLevel::NotADoubleLetter,
            DoubleLetterLevel::Strong,
            DoubleLetterLevel::Strong,
            DoubleLetterLevel::DoubleLetter,
            DoubleLetterLevel::NotADoubleLetter
        ]
    );
}

#[test]
fn a_gesture_without_times_has_no_speeds() {
    let mut state = ProximityInfoState::new(qwerty());
    let n = CORNER.len();
    state.init_input_params(
        0,
        far(),
        qwerty(),
        vec![],
        n,
        CORNER.iter().map(|p| p.0).collect(),
        CORNER.iter().map(|p| p.1).collect(),
        None,
        vec![0; n],
        turns(&CORNER),
        true,
        String::from("en-US"),
    );
    assert_eq!(sampled_indices(&state), vec![0, 1, 3, 4, 5, 7, 8]);
    for i in 0..state.size() {
        let rate = state.get_speed_rate(i);
        assert_eq!((rate.num, rate.den), (1, 1));
        assert_eq!(state.get_beeline_speed_percentile(i), 100);
    }
    let average = state.get_average_speed();
    assert_eq!((average.num, average.den), (400, 0));
}

#[test]
fn at_one_speed_every_speed_rate_is_one() {
    let mut state = ProximityInfoState::new(qwerty());
    let points: Vec<(i32, i32)> = (0..9).map(|i| (100 + i * 100, 50)).collect();
    let times: Vec<i32> = (0..9).map(|i| i * 50).collect();
    gesture(&mut state, &points, &times);
    assert_consistent(&state, &points, true);
    assert!(state.size() >= 2);
    let average = state.get_average_speed();
    assert_eq!((average.num, average.den), (800, 400));
    let mut weighted = Ratio::new(0, 1);
    for i in 0..state.size() {
        let rate = state.get_speed_rate(i);
        assert!(rate.den != 0);
        assert!(rate.same_as(&Ratio::new(1, 1)));
        weighted = Ratio::new(weighted.num * rate.den + rate.num * weighted.den, weighted.den * rate.den);
    }
    assert!(weighted.same_as(&Ratio::new(state.size() as i128, 1)));
}

#[test]
fn speed_rates_follow_the_speed() {
    let mut state = ProximityInfoState::new(qwerty());
    // From key to key: 100 pixels in 50 ms twice, then in 150 ms twice.
    let points = [(150, 50), (250, 50), (350, 50), (350, 150), (350, 250)];
    let times = [0, 50, 100, 250, 400];
    gesture(&mut state, &points, &times);
    assert_eq!(sampled_indices(&state), vec![0, 1, 2, 3, 4]);
    let average = state.get_average_speed();
    assert_eq!((average.num, average.den), (400, 400));
    let rates: Vec<(i128, i128)> = (0..5)
        .map(|i| {
            let rate = state.get_speed_rate(i);
            (rate.num, rate.den)
        })
        .collect();
    // Each window ends at the sampled points next to the point: one step
    // for the first and the last point, two steps for the others.
    assert_eq!(
        rates,
        vec![
            (100 * 400, 50 * 400),
            (200 * 400, 100 * 400),
            (200 * 400, 200 * 400),
            (200 * 400, 300 * 400),
            (100 * 400, 150 * 400)
        ]
    );
}

#[test]
fn distances_from_keys_are_kept_for_each_sampled_point() {
    let mut state = ProximityInfoState::new(qwerty());
    let points = [(150, 50), (250, 50), (350, 50), (350, 150), (350, 250)];
    gesture(&mut state, &points, &[0, 100, 200, 300, 400]);
    let layout = qwerty();
    for i in 0..state.size() {
        for key in 0..layout.get_key_count() {
            let kept = state.get_point_to_key_length(i, key);
            let fresh = layout.get_normalized_square_distance_from_center_float_g(
                key,
                state.get_input_x(i),
                state.get_input_y(i),
                true,
            );
            assert_eq!((kept.num, kept.den), (fresh.num, fresh.den));
        }
    }
    // The first sampled point is the middle of 'w', and 100 from that of 'q'.
    let w = layout.get_key_index_of('w').unwrap();
    let q = layout.get_key_index_of('q').unwrap();
    let at_w = state.get_point_to_key_length(0, w);
    assert_eq!((at_w.num, at_w.den), (0, 10000));
    let at_q = state.get_point_to_key_length(0, q);
    assert_eq!((at_q.num, at_q.den), (10000, 10000));
}

#[test]
fn near_keys_are_found_in_the_order_of_the_keys() {
    let mut state = ProximityInfoState::new(qwerty());
    let mut near = NearKeysDistanceMap::new();
    near.insert(99, 5);
    // Seen from (150, 50), the middle of 'w': the distance must be below 2
    // key widths squared, that is below 20000.
    let nearest = state.update_near_keys_distances(150, 50, true, &mut near);
    let found: Vec<(usize, i64)> = (0..near.len()).map(|i| near.get_index(i)).collect();
    // 'q' and 'e' are 100 away, 'w' is 0 away, and 'a' at (100, 150) and
    // 's' at (200, 150) are both 50^2 + 100^2 = 12500 away.
    assert_eq!(found, vec![(0, 10000), (1, 0), (2, 10000), (10, 12500), (11, 12500)]);
    // A new state takes no key to be nearer than 0.
    assert_eq!((nearest.num, nearest.den), (0, 1));
    assert_eq!(near.get(11), Some(12500));
    assert_eq!(near.get(3), None);
    assert!(!near.is_empty());
    // Once it was told how far a key may be, the nearest key counts.
    typing(&mut state, "", &[]);
    let nearest = state.update_near_keys_distances(150, 50, true, &mut near);
    assert_eq!((nearest.num, nearest.den), (0, 10000));
    let nearest = state.update_near_keys_distances(160, 50, true, &mut near);
    assert_eq!((nearest.num, nearest.den), (100, 10000));
    // Far from every key nothing is near, and the nearest key is 'p', whose
    // middle is (950, 50).
    let nearest = state.update_near_keys_distances(5000, 350, true, &mut near);
    assert!(near.is_empty());
    assert_eq!((nearest.num, nearest.den), (4050 * 4050 + 300 * 300, 10000));
}

#[test]
fn near_keys_keep_the_order_in_which_they_were_put_in() {
    let mut near = NearKeysDistanceMap::new();
    assert!(near.is_empty());
    near.insert(5, 50);
    near.insert(2, 20);
    near.insert(9, 90);
    near.insert(2, 21);
    assert_eq!(near.len(), 3);
    assert_eq!(near.get_index(0), (5, 50));
    assert_eq!(near.get_index(1), (2, 21));
    assert_eq!(near.get_index(2), (9, 90));
    assert_eq!(near.get(2), Some(21));
    assert_eq!(near.get(3), None);
    near.clear();
    assert_eq!(near.len(), 0);
    assert_eq!(near.get(5), None);
}

#[test]
fn a_point_is_a_local_minimum_by_a_margin() {
    let state = ProximityInfoState::new(qwerty());
    let map = |entries: &[(usize, i64)]| {
        let mut map = NearKeysDistanceMap::new();
        for &(k, d) in entries {
            map.insert(k, d);
        }
        map
    };
    // The margin is a hundredth of the key width squared: 100.
    let prev = map(&[(3, 1000)]);
    assert!(state.is_prev_local_min(&map(&[(3, 1101)]), &prev, &map(&[(3, 1101)])));
    assert!(!state.is_prev_local_min(&map(&[(3, 1100)]), &prev, &map(&[(3, 1101)])));
    assert!(!state.is_prev_local_min(&map(&[(3, 1101)]), &prev, &map(&[(3, 1100)])));
    // A key that is not near a neighbour is far from it.
    assert!(state.is_prev_local_min(&map(&[]), &prev, &map(&[(4, 0)])));
    assert!(state.is_prev_local_min(&map(&[(3, 5000)]), &prev, &map(&[])));
    // One key is enough.
    let prev = map(&[(3, 1000), (4, 1000)]);
    assert!(state.is_prev_local_min(&map(&[(3, 0), (4, 2000)]), &prev, &map(&[(3, 0)])));
    assert!(!state.is_prev_local_min(&map(&[(3, 0), (4, 0)]), &prev, &map(&[])));
    // Without near keys the point is no minimum.
    assert!(!state.is_prev_local_min(&map(&[]), &map(&[]), &map(&[])));
}


fn next_random(seed: &mut u64) -> u64 {
    *seed = seed.wrapping_mul(6364136223846793005).wrapping_add(1442695040888963407);
    *seed >> 33
}

#[test]
fn many_gestures_stay_consistent_and_continue() {
    let mut seed = 42u64;
    for _ in 0..150 {
        let n = 1 + (next_random(&mut seed) % 40) as usize;
        let mut points = Vec::new();
        let mut times = Vec::new();
        let mut x = (next_random(&mut seed) % 1000) as i32;
        let mut y = (next_random(&mut seed) % 400) as i32;
        let mut t = 0;
        for _ in 0..n {
            points.push((x, y));
            times.push(t);
            x += (next_random(&mut seed) % 121) as i32 - 60;
            y += (next_random(&mut seed) % 121) as i32 - 60;
            t += (next_random(&mut seed) % 200) as i32;
        }
        let first = 1 + (next_random(&mut seed) as usize) % n;
        let mut state = ProximityInfoState::new(qwerty());
        gesture(&mut state, &points[..first], &times[..first]);
        assert_consistent(&state, &points[..first], true);
        assert!(!state.is_continuous_suggestion_possible());
        let size = state.size();
        assert!(size >= 1);
        let before_points = sampled_points(&state);
        let before_indices = sampled_indices(&state);
        let before_lengths = length_cache(&state);

        gesture(&mut state, &points, &times);
        assert_consistent(&state, &points, true);
        assert!(state.is_continuous_suggestion_possible());
        let kept = size.saturating_sub(2);
        assert!(state.size() >= kept);
        assert_eq!(sampled_points(&state)[..kept], before_points[..kept]);
        assert_eq!(sampled_indices(&state)[..kept], before_indices[..kept]);
        assert_eq!(length_cache(&state)[..kept], before_lengths[..kept]);

        // Key presses at the same points are all kept.
        let word: String = (0..n).map(|i| (b'a' + (i % 26) as u8) as char).collect();
        typing(&mut state, &word, &points);
        assert!(!state.is_continuous_suggestion_possible());
        assert_eq!(state.size(), n);
        assert_eq!(state.proximity_count(), n);
        assert!(state.same_as_typed(word.clone(), n));
        assert_consistent(&state, &points, false);
    }
}
