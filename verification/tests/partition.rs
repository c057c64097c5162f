use channel::partition::{checked_sum, part_bounds};

#[test]
fn ten_items_in_four_parts() {
    assert_eq!(part_bounds(10, 4, 0), (0, 2));
    assert_eq!(part_bounds(10, 4, 1), (2, 4));
    assert_eq!(part_bounds(10, 4, 2), (4, 6));
    assert_eq!(part_bounds(10, 4, 3), (6, 10));
}

#[test]
fn fewer_items_than_parts_go_to_the_last_part() {
    assert_eq!(part_bounds(3, 4, 0), (0, 0));
    assert_eq!(part_bounds(3, 4, 1), (0, 0));
    assert_eq!(part_bounds(3, 4, 2), (0, 0));
    assert_eq!(part_bounds(3, 4, 3), (0, 3));
    assert_eq!(part_bounds(0, 1, 0), (0, 0));
    assert_eq!(part_bounds(usize::MAX, 2, 1), (usize::MAX / 2, usize::MAX));
}

#[test]
fn sum_of_a_list() {
    assert_eq!(checked_sum(&[]), Some(0));
    assert_eq!(checked_sum(&[5]), Some(5));
    assert_eq!(checked_sum(&[1, -2, 3]), Some(2));
    assert_eq!(checked_sum(&[i32::MAX, i32::MIN]), Some(-1));
}

#[test]
fn sum_that_leaves_the_range_is_refused() {
    assert_eq!(checked_sum(&[i32::MAX, 1]), None);
    assert_eq!(checked_sum(&[i32::MAX, 1, -1]), None);
    assert_eq!(checked_sum(&[i32::MIN, -1, 5]), None);
    assert_eq!(checked_sum(&[-1, i32::MAX, 1]), Some(i32::MAX));
}

#[test]
fn parts_add_up_to_the_whole() {
    let list = vec![100, 200, 12, 1213, 12341, 1243, 2345, 53, 645, 45];
    let mut sums = Vec::new();
    for index in 0..4 {
        let (start, end) = part_bounds(list.len(), 4, index);
        sums.push(checked_sum(&list[start..end]).unwrap());
    }
    assert_eq!(sums, vec![300, 1225, 13584, 3088]);
    assert_eq!(checked_sum(&sums), Some(18197));
    assert_eq!(checked_sum(&sums), Some(list.iter().sum()));
}

#[test]
fn sum_does_not_depend_on_the_order() {
    let list = vec![100, 200, 12, 1213, 12341, 1243, 2345, 53, 645, 45];
    let mut turned = list.clone();
    turned.reverse();
    let mut sorted = list.clone();
    sorted.sort();
    assert_eq!(checked_sum(&list), Some(18197));
    assert_eq!(checked_sum(&turned), Some(18197));
    assert_eq!(checked_sum(&sorted), Some(18197));
}
