use ipconfig2::adapter::{Adapter, IfType, OperStatus};
use ipconfig2::error::{Error, ErrorKind};
use ipconfig2::ifindex::{find_adapter_interface_index, index_from_name_lookup, IndexCache, ResolveAction};

fn adapter(name: &str, friendly: &str, v4: u32, v6: u32) -> Adapter {
    Adapter {
        adapter_name: name.to_string(),
        network_guid: [0; 16],
        luid: 0,
        ipv4_if_index: v4,
        ip_addresses: vec![],
        prefixes: vec![],
        gateways: vec![],
        dns_servers: vec![],
        description: String::new(),
        friendly_name: friendly.to_string(),
        physical_address: None,
        receive_link_speed: 0,
        transmit_link_speed: 0,
        oper_status: OperStatus::IfOperStatusUp,
        if_type: IfType::EthernetCsmacd,
        ipv6_if_index: v6,
        ipv4_metric: 0,
        ipv6_metric: 0,
    }
}

#[test]
fn unmatched_name_and_zero_lookup_is_invalid_input() {
    assert_eq!(find_adapter_interface_index(false, "eth0", &vec![]), None);
    let others = vec![adapter("{X}", "wlan0", 3, 4)];
    assert_eq!(find_adapter_interface_index(false, "eth0", &others), None);
    let e = index_from_name_lookup(0).unwrap_err();
    assert_eq!(e.kind, ErrorKind::InvalidInterfaceName);
    assert_eq!(e.message(), "invalid interface name");
    assert_eq!(index_from_name_lookup(12).unwrap(), 12);
}

#[test]
fn finds_by_friendly_or_stable_name() {
    let list = vec![adapter("{A}", "lan", 3, 4), adapter("{B}", "eth0", 5, 6)];
    assert_eq!(find_adapter_interface_index(false, "eth0", &list), Some(5));
    assert_eq!(find_adapter_interface_index(true, "eth0", &list), Some(6));
    assert_eq!(find_adapter_interface_index(false, "{A}", &list), Some(3));
}

#[test]
fn skips_adapters_without_an_index_for_the_family() {
    let list = vec![adapter("{A}", "eth0", 0, 4), adapter("{B}", "eth0", 5, 0)];
    assert_eq!(find_adapter_interface_index(false, "eth0", &list), Some(5));
    assert_eq!(find_adapter_interface_index(true, "eth0", &list), Some(4));
}

#[test]
fn cache_serves_within_ttl_only() {
    let mut cache = IndexCache::new();
    assert_eq!(cache.lookup("eth0", 0), None);
    cache.record("eth0", 7, 1000);
    assert_eq!(cache.lookup("eth0", 1000), Some(7));
    assert_eq!(cache.lookup("eth0", 5999), Some(7));
    assert_eq!(cache.lookup("eth0", 6000), None);
    assert_eq!(cache.lookup("eth1", 1000), None);
}

#[test]
fn cache_overwrites_on_record() {
    let mut cache = IndexCache::new();
    cache.record("eth0", 7, 1000);
    cache.record("eth1", 8, 1000);
    cache.record("eth0", 9, 7000);
    assert_eq!(cache.lookup("eth0", 8000), Some(9));
    assert_eq!(cache.lookup("eth1", 5999), Some(8));
    assert_eq!(cache.lookup("eth1", 8000), None);
}

#[test]
fn resolve_eth0_without_match_and_zero_lookup_fails_with_invalid_name() {
    let mut cache = IndexCache::new();
    assert_eq!(cache.start_resolution("eth0", 0), ResolveAction::FetchAdapters);
    let others = vec![adapter("{X}", "wlan0", 3, 4)];
    assert_eq!(cache.on_adapters(false, "eth0", 0, &others), ResolveAction::LookupName);
    let r = cache.on_name_lookup("eth0", 0, 0);
    assert_eq!(r, ResolveAction::Fail(Error { kind: ErrorKind::InvalidInterfaceName }));
    assert_eq!(cache.start_resolution("eth0", 1), ResolveAction::FetchAdapters);
}

#[test]
fn resolution_is_cached_for_five_seconds() {
    let mut cache = IndexCache::new();
    let list = vec![adapter("{B}", "eth0", 5, 6)];
    assert_eq!(cache.on_adapters(false, "eth0", 10_000, &list), ResolveAction::Resolved(5));
    assert_eq!(cache.start_resolution("eth0", 14_999), ResolveAction::Resolved(5));
    assert_eq!(cache.start_resolution("eth0", 15_000), ResolveAction::FetchAdapters);
    assert_eq!(cache.on_name_lookup("tap1", 20_000, 11), ResolveAction::Resolved(11));
    assert_eq!(cache.start_resolution("tap1", 20_001), ResolveAction::Resolved(11));
}
