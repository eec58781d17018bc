use uh_ios::VMID;

#[test]
fn test_library_loads() {
    assert_eq!(std::mem::size_of::<VMID>(), 4);
}
