use delegation::v2::{Error, V2};
use delegation::Averager;

#[test]
fn v2_starts_out_empty() {
    let contract = V2::new(0, 0);

    assert_eq!(contract.items(), 0);
}

#[test]
fn v2_insert_registers_new_item() {
    let mut contract = V2::new(0, 0);

    contract.insert_internal(10);

    assert_eq!(contract.items(), 1);
    assert_eq!(contract.nth(0), Ok(10));
}

#[test]
fn insert_keeps_things_sorted() {
    let mut contract = V2::new(0, 0);

    contract.insert_internal(4);
    contract.insert_internal(10);
    contract.insert_internal(0);

    let mut previous = contract.nth(0).unwrap();
    for idx in 1..contract.items() {
        let current = contract.nth(idx).unwrap();
        assert!(previous <= current);
        previous = current;
    }
}

#[test]
fn v2_average_of_nothing_defaults_to_zero() {
    let contract = V2::new(0, 0);

    assert_eq!(contract.average_internal(), 0);
}

#[test]
fn v2_average_is_middle_value_when_odd_items() {
    let mut contract = V2::new(0, 0);

    contract.insert_internal(10);
    contract.insert_internal(50);
    contract.insert_internal(20);

    assert_eq!(contract.average_internal(), 20);
}

#[test]
fn average_is_mean_of_middle_values_when_even_items() {
    let mut contract = V2::new(0, 0);

    contract.insert_internal(50);
    contract.insert_internal(20);
    contract.insert_internal(10);
    contract.insert_internal(100);

    assert_eq!(contract.average_internal(), (20 + 50) / 2);
}

#[test]
fn v2_insert_only_called_from_proxy() {
    let proxy = 1;
    let owner = 2;
    let other = 3;

    let mut contract = V2::new(owner, proxy);

    contract.insert(10, owner, proxy).expect("can't call from proxy");
    assert_eq!(contract.insert(10, owner, owner), Err(Error::NotCalledFromProxy));
    assert_eq!(contract.insert(10, other, proxy), Err(Error::UnauthorizedCaller));
    assert_eq!(contract.items(), 1);
}

#[test]
fn v2_average_only_called_from_proxy() {
    let proxy = 1;
    let owner = 2;
    let other = 3;

    let contract = V2::new(owner, proxy);

    assert_eq!(contract.average(proxy), Ok(0));
    assert_eq!(contract.average(owner), Err(Error::NotCalledFromProxy));
    assert_eq!(contract.average(other), Err(Error::NotCalledFromProxy));
}

#[test]
fn v2_nth_beyond_the_dataset_is_out_of_range() {
    let contract = V2::new(0, 0);

    assert_eq!(contract.nth(0), Err(Error::OutOfRange));
}

#[test]
fn duplicate_values_are_all_kept() {
    let mut contract = V2::new(0, 0);

    contract.insert_internal(5);
    contract.insert_internal(5);
    contract.insert_internal(5);

    assert_eq!(contract.items(), 3);
    assert_eq!(contract.average_internal(), 5);
}

#[test]
fn median_truncates_toward_zero_for_negative_middles() {
    let mut contract = V2::new(0, 0);

    contract.insert_internal(-5);
    contract.insert_internal(2);

    assert_eq!(contract.average_internal(), -1);
}

#[test]
fn median_of_extreme_values_does_not_overflow() {
    let mut contract = V2::new(0, 0);

    contract.insert_internal(i32::MIN);
    contract.insert_internal(i32::MIN);

    assert_eq!(contract.average_internal(), i32::MIN);

    let mut high = V2::new(0, 0);
    high.insert_internal(i32::MAX);
    high.insert_internal(i32::MAX);

    assert_eq!(high.average_internal(), i32::MAX);
}

#[test]
fn averager_interface_sorts_and_reports_the_median() {
    let mut contract = V2::new(0, 0);

    Averager::insert(&mut contract, 9);
    Averager::insert(&mut contract, 1);
    Averager::insert(&mut contract, 4);

    assert_eq!(Averager::average(&contract), 4);
    assert_eq!(contract.nth(0), Ok(1));
}
