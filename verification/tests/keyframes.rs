use simple3dgs::keyframes::{fill_sharpest, pick_least_bad, pick_sharpest, thin_to_max};

#[test]
fn window_pick_is_the_last_sharpest_above_the_floor() {
    let keys = [5u32, 9, 9, 3];
    assert_eq!(pick_sharpest(&keys, 0, 3, 4), Some(2));
    assert_eq!(pick_sharpest(&keys, 0, 3, 10), None);
    assert_eq!(pick_sharpest(&keys, 3, 3, 4), None);
    assert_eq!(pick_sharpest(&keys, 0, 1, 4), Some(1));
}

#[test]
fn least_bad_pick_ignores_the_floor_and_clips_the_window() {
    let keys = [5u32, 9, 9, 3];
    assert_eq!(pick_least_bad(&keys, 1, 3), Some(2));
    assert_eq!(pick_least_bad(&keys, 3, 10), Some(3));
    assert_eq!(pick_least_bad(&keys, 4, 10), None);
}

#[test]
fn thinning_drops_the_blurrier_of_the_closest_pair() {
    let keys = [10u32, 10, 50, 10, 10, 40, 10, 30, 10, 20];
    assert_eq!(thin_to_max(vec![9, 2, 5, 2, 7], &keys, 3), vec![2, 5, 9]);
    assert_eq!(thin_to_max(vec![9, 2, 5, 2, 7], &keys, 2), vec![2, 9]);
    assert_eq!(thin_to_max(vec![9, 2, 5, 2, 7], &keys, 8), vec![2, 5, 7, 9]);
    assert_eq!(thin_to_max(Vec::new(), &keys, 0), Vec::<usize>::new());
}

#[test]
fn thinning_keeps_the_earlier_of_two_equally_sharp_neighbours() {
    let keys = [7u32, 7, 7];
    assert_eq!(thin_to_max(vec![0, 1, 2], &keys, 2), vec![0, 2]);
}

#[test]
fn topping_up_prefers_sharp_candidates_above_the_floor() {
    let keys = [5u32, 20, 20, 1, 30, 2];
    assert_eq!(fill_sharpest(vec![3], &keys, 4, 10), vec![1, 2, 3, 4]);
    assert_eq!(fill_sharpest(vec![3], &keys, 6, 10), vec![0, 1, 2, 3, 4, 5]);
    assert_eq!(fill_sharpest(vec![3], &keys, 5, 25), vec![0, 1, 2, 3, 4]);
    assert_eq!(fill_sharpest(vec![3], &keys, 9, 10), vec![0, 1, 2, 3, 4, 5]);
    assert_eq!(fill_sharpest(vec![4, 3], &keys, 1, 10), vec![3, 4]);
}
