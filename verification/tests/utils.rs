use bifrost::utils::{get_2_starting_at, get_4_starting_at, get_6_starting_at};

#[test]
fn get_bytes_in_range() {
    let data = [10u8, 11, 12, 13, 14, 15, 16, 17];
    assert_eq!(get_2_starting_at(&data, 0), Some([10, 11]));
    assert_eq!(get_2_starting_at(&data, 6), Some([16, 17]));
    assert_eq!(get_4_starting_at(&data, 3), Some([13, 14, 15, 16]));
    assert_eq!(get_6_starting_at(&data, 2), Some([12, 13, 14, 15, 16, 17]));
}

#[test]
fn get_bytes_past_end() {
    let data = [10u8, 11, 12, 13, 14, 15, 16, 17];
    assert_eq!(get_2_starting_at(&data, 7), None);
    assert_eq!(get_2_starting_at(&data, 8), None);
    assert_eq!(get_4_starting_at(&data, 5), None);
    assert_eq!(get_6_starting_at(&data, 3), None);
    assert_eq!(get_6_starting_at(&[], 0), None);
    assert_eq!(get_2_starting_at(&data, usize::MAX), None);
    assert_eq!(get_6_starting_at(&data, usize::MAX - 2), None);
}
