use delegation::backend::Version;
use delegation::proxy::{Error, Proxy};

#[test]
fn starts_out_empty() {
    let contract = Proxy::default();

    assert_eq!(contract.items(), 0);
}

#[test]
fn forwards_inserts_and_averages_for_the_owner() {
    let owner = 7;
    let address = 55;
    let mut proxy = Proxy::new(Version::V1, owner, address);

    proxy.insert(10, owner).expect("owner insert is forwarded");
    proxy.insert(50, owner).expect("owner insert is forwarded");
    proxy.insert(20, owner).expect("owner insert is forwarded");

    assert_eq!(proxy.average(owner), Ok((10 + 20 + 50) / 3));
    assert_eq!(proxy.average(9), Ok((10 + 20 + 50) / 3));
}

#[test]
fn rejects_inserts_from_anyone_but_the_owner() {
    let owner = 7;
    let other = 8;
    let mut proxy = Proxy::new(Version::V1, owner, 55);

    assert_eq!(proxy.insert(10, other), Err(Error::UnauthorizedCaller));
    assert_eq!(proxy.items(), 0);
}

#[test]
fn migration_equivalence() {
    let owner = 7;
    let mut proxy = Proxy::new(Version::V1, owner, 55);

    proxy.insert(10, owner).expect("owner insert is forwarded");
    proxy.insert(50, owner).expect("owner insert is forwarded");
    proxy.insert(20, owner).expect("owner insert is forwarded");

    proxy.upgrade(owner, Some(Version::V2)).expect("upgrade succeeds");

    assert_eq!(proxy.items(), 3);
    assert_eq!(proxy.nth(0), Ok(10));
    assert_eq!(proxy.nth(1), Ok(20));
    assert_eq!(proxy.nth(2), Ok(50));
    assert_eq!(proxy.average(owner), Ok(20));
}

#[test]
fn even_count_median_after_migration() {
    let owner = 7;
    let mut proxy = Proxy::new(Version::V2, owner, 55);

    proxy.insert(50, owner).expect("owner insert is forwarded");
    proxy.insert(20, owner).expect("owner insert is forwarded");
    proxy.insert(10, owner).expect("owner insert is forwarded");
    proxy.insert(100, owner).expect("owner insert is forwarded");

    assert_eq!(proxy.average(owner), Ok((20 + 50) / 2));
}

#[test]
fn upgrade_is_owner_only() {
    let owner = 7;
    let other = 8;
    let mut proxy = Proxy::new(Version::V1, owner, 55);

    proxy.insert(10, owner).expect("owner insert is forwarded");

    assert_eq!(proxy.upgrade(other, Some(Version::V2)), Err(Error::UnauthorizedCaller));
    assert_eq!(proxy.items(), 1);
    assert_eq!(proxy.nth(0), Ok(10));
}

#[test]
fn failed_instantiation_leaves_the_old_backend_authoritative() {
    let owner = 7;
    let mut proxy = Proxy::new(Version::V1, owner, 55);

    proxy.insert(10, owner).expect("owner insert is forwarded");

    assert_eq!(proxy.upgrade(owner, None), Err(Error::UpgradeError));

    assert_eq!(proxy.items(), 1);
    assert_eq!(proxy.nth(0), Ok(10));
    assert_eq!(proxy.average(owner), Ok(10));
    proxy.insert(30, owner).expect("the original backend still serves");
    assert_eq!(proxy.average(owner), Ok(20));
}

#[test]
fn ownership_survives_an_upgrade() {
    let owner = 7;
    let other = 8;
    let mut proxy = Proxy::new(Version::V1, owner, 55);

    proxy.insert(10, owner).expect("owner insert is forwarded");
    proxy.upgrade(owner, Some(Version::V2)).expect("upgrade succeeds");

    proxy.insert(20, owner).expect("owner insert still forwarded");
    assert_eq!(proxy.insert(30, other), Err(Error::UnauthorizedCaller));
    assert_eq!(proxy.items(), 2);
}

#[test]
fn repeated_reads_return_identical_results() {
    let owner = 7;
    let mut proxy = Proxy::new(Version::V2, owner, 55);

    proxy.insert(4, owner).expect("owner insert is forwarded");
    proxy.insert(2, owner).expect("owner insert is forwarded");

    assert_eq!(proxy.items(), proxy.items());
    assert_eq!(proxy.nth(0), proxy.nth(0));
    assert_eq!(proxy.nth(1), proxy.nth(1));
    assert_eq!(proxy.average(owner), proxy.average(owner));
    assert_eq!(proxy.items(), 2);
    assert_eq!(proxy.nth(0), Ok(2));
}

#[test]
fn proxy_nth_beyond_the_dataset_is_out_of_range() {
    let proxy = Proxy::new(Version::V1, 7, 55);

    assert_eq!(proxy.nth(0), Err(Error::OutOfRange));
}

#[test]
fn parent_echoes_the_caller_and_nested_finds_the_binding() {
    let owner = 7;
    let address = 55;
    let proxy = Proxy::new(Version::V1, owner, address);

    assert_eq!(proxy.parent(9), 9);
    assert_eq!(proxy.nested(), Ok(address));
}

#[test]
fn downgrade_preserves_the_stored_order() {
    let owner = 7;
    let mut proxy = Proxy::new(Version::V2, owner, 55);

    proxy.insert(50, owner).expect("owner insert is forwarded");
    proxy.insert(10, owner).expect("owner insert is forwarded");

    proxy.upgrade(owner, Some(Version::V1)).expect("upgrade succeeds");

    assert_eq!(proxy.items(), 2);
    assert_eq!(proxy.nth(0), Ok(10));
    assert_eq!(proxy.nth(1), Ok(50));
    assert_eq!(proxy.average(owner), Ok(30));
}
