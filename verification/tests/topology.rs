use rust_hpc_communication_test::topology::{
    loopback_endpoint, AddressTable, Endpoint, BASE_PORT, MAX_DISTINCT,
};

#[test]
fn ports_start_at_8080() {
    assert_eq!(BASE_PORT, 8080);
    assert_eq!(loopback_endpoint(0), Endpoint { octets: [127, 0, 0, 1], port: 8080 });
    assert_eq!(loopback_endpoint(1), Endpoint { octets: [127, 0, 0, 1], port: 8081 });
    assert_eq!(loopback_endpoint(57_455).port, 65_535);
}

#[test]
fn ports_wrap_round_above_the_last() {
    assert_eq!(MAX_DISTINCT, 57_456);
    assert_eq!(loopback_endpoint(57_456).port, 0);
    assert_eq!(loopback_endpoint(57_457).port, 1);
    assert_eq!(loopback_endpoint(u32::MAX).port, ((8080u64 + u32::MAX as u64) % 65_536) as u16);
}

#[test]
fn table_spans_the_ports_of_its_ranks() {
    let table = AddressTable::loopback(5);
    assert_eq!(table.size(), 5);
    for rank in 0..5u32 {
        assert_eq!(
            table.endpoint(rank),
            Some(Endpoint { octets: [127, 0, 0, 1], port: 8080 + rank as u16 })
        );
    }
    assert_eq!(table.endpoint(5), None);
    assert_eq!(table.endpoint(u32::MAX), None);
}

#[test]
fn empty_table_has_no_endpoint() {
    let table = AddressTable::loopback(0);
    assert_eq!(table.size(), 0);
    assert_eq!(table.endpoint(0), None);
}
