use asset_pipelines::select::{first_marked, marked_places};

#[test]
fn first_marked_is_the_lowest_marked_place() {
    assert_eq!(first_marked(&vec![false, true, true]), Some(1));
    assert_eq!(first_marked(&vec![true]), Some(0));
    assert_eq!(first_marked(&vec![false, false, false, true]), Some(3));
}

#[test]
fn first_marked_finds_nothing_where_nothing_is_marked() {
    assert_eq!(first_marked(&vec![false, false]), None);
    assert_eq!(first_marked(&Vec::new()), None);
}

#[test]
fn marked_places_lists_them_in_rising_order() {
    assert_eq!(marked_places(&vec![false, true, true, false, true]), vec![1, 2, 4]);
    assert_eq!(marked_places(&vec![true, true]), vec![0, 1]);
    assert_eq!(marked_places(&vec![false]), Vec::<usize>::new());
    assert_eq!(marked_places(&Vec::new()), Vec::<usize>::new());
}
