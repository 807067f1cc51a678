use mcadmin::address::{host_upload_body, HostAddr, Ipv4};
use mcadmin::sync::{HostSync, SyncAction};

fn v4(a: u8, b: u8, c: u8, d: u8) -> HostAddr {
    HostAddr::V4(Ipv4 { a, b, c, d })
}

#[test]
fn unknown_address_is_queried_again() {
    let keeper = HostSync::new(Some(v4(1, 2, 3, 4)));
    assert_eq!(keeper.observe(None), SyncAction::QueryAgain);
}

#[test]
fn changed_address_is_uploaded_once() {
    let mut keeper = HostSync::new(None);
    let addr = v4(10, 0, 0, 1);
    assert_eq!(keeper.observe(Some(addr)), SyncAction::Upload { addr });
    assert_eq!(host_upload_body(addr, ""), b"10.0.0.1".to_vec());
    assert_eq!(keeper.upload_finished(addr, true), 4);
    assert_eq!(keeper.online(), Some(addr));
    assert_eq!(keeper.observe(Some(addr)), SyncAction::Wait { seconds: 4 });
    assert_eq!(keeper.observe(Some(v4(10, 0, 0, 2))), SyncAction::Upload { addr: v4(10, 0, 0, 2) });
}

#[test]
fn failed_upload_is_retried() {
    let mut keeper = HostSync::new(Some(v4(1, 1, 1, 1)));
    let addr = v4(2, 2, 2, 2);
    assert_eq!(keeper.observe(Some(addr)), SyncAction::Upload { addr });
    assert_eq!(keeper.upload_finished(addr, false), 4);
    assert_eq!(keeper.online(), Some(v4(1, 1, 1, 1)));
    assert_eq!(keeper.observe(Some(addr)), SyncAction::Upload { addr });
}

#[test]
fn ipv6_addresses_are_kept_too() {
    let mut keeper = HostSync::new(Some(HostAddr::V6(1)));
    assert_eq!(keeper.observe(Some(v4(0, 0, 0, 1))), SyncAction::Upload { addr: v4(0, 0, 0, 1) });
    assert_eq!(keeper.observe(Some(HostAddr::V6(1))), SyncAction::Wait { seconds: 4 });
    keeper.upload_finished(HostAddr::V6(2), true);
    assert_eq!(keeper.observe(Some(HostAddr::V6(2))), SyncAction::Wait { seconds: 4 });
}

#[test]
fn current_address_waits() {
    let keeper = HostSync::new(Some(v4(5, 6, 7, 8)));
    assert_eq!(keeper.observe(Some(v4(5, 6, 7, 8))), SyncAction::Wait { seconds: 4 });
}
