use host_metrics::monitor::{CollectionError, Monitor};
use host_metrics::monitors::netdev_stat::{NetInterface, NetSysfsStatsMonitor, StatFile};
use host_metrics::sample::{Sample, Value};

fn file(name: &str, content: Option<&str>) -> StatFile {
    StatFile { name: name.to_string(), content: content.map(|c| c.to_string()) }
}

fn iface(name: &str, has_device: bool, statistics: Option<Vec<StatFile>>) -> NetInterface {
    NetInterface { name: name.to_string(), has_device, statistics }
}

fn sample(iface: &str, key: &str, value: u128) -> Sample {
    Sample {
        family: "netdev_stat".to_string(),
        labels: vec![iface.to_string(), key.to_string()],
        value: Value::Integer(value),
    }
}

#[test]
fn netdev_files_become_samples_keyed_by_file_name() {
    let mut m = NetSysfsStatsMonitor::new();
    let ifaces = vec![iface(
        "eth0",
        true,
        Some(vec![file("rx_bytes", Some("12345\n")), file("tx_packets", Some("7\n"))]),
    )];
    assert_eq!(
        m.collect(Some(&ifaces)),
        Ok(vec![sample("eth0", "rx_bytes", 12345), sample("eth0", "tx_packets", 7)])
    );
}

#[test]
fn loopback_and_virtual_interfaces_are_left_out() {
    let mut m = NetSysfsStatsMonitor::new();
    assert!(!m.include_lo);
    let ifaces = vec![
        iface("lo", true, Some(vec![file("rx_bytes", Some("1"))])),
        iface("veth0", false, Some(vec![file("rx_bytes", Some("2"))])),
        iface("eth1", true, None),
        iface("eth2", true, Some(vec![])),
        iface("eth3", true, Some(vec![file("rx_bytes", Some("3"))])),
    ];
    assert_eq!(m.collect(Some(&ifaces)), Ok(vec![sample("eth3", "rx_bytes", 3)]));
}

#[test]
fn loopback_is_reported_when_asked_for() {
    let mut m = NetSysfsStatsMonitor { include_lo: true };
    let ifaces = vec![
        iface("lo", true, Some(vec![file("rx_bytes", Some("1"))])),
        iface("lo", false, Some(vec![file("rx_bytes", Some("1"))])),
    ];
    assert_eq!(m.collect(Some(&ifaces)), Ok(vec![sample("lo", "rx_bytes", 1)]));
}

#[test]
fn interface_with_a_bad_file_is_dropped_and_the_others_are_kept() {
    let mut m = NetSysfsStatsMonitor::new();
    let ifaces = vec![
        iface(
            "eth0",
            true,
            Some(vec![file("rx_bytes", Some("1")), file("rx_errors", Some("many"))]),
        ),
        iface("eth1", true, Some(vec![file("rx_bytes", Some("1")), file("rx_errors", None)])),
        iface("eth2", true, Some(vec![file("rx_bytes", Some(" 9 "))])),
    ];
    assert_eq!(m.collect(Some(&ifaces)), Ok(vec![sample("eth2", "rx_bytes", 9)]));
}

#[test]
fn netdev_read_u64_trims_and_parses() {
    assert_eq!(NetSysfsStatsMonitor::read_u64("42\n"), Some(42));
    assert_eq!(NetSysfsStatsMonitor::read_u64("  18446744073709551615  "), Some(u64::MAX));
    assert_eq!(NetSysfsStatsMonitor::read_u64(""), None);
    assert_eq!(NetSysfsStatsMonitor::read_u64("4 2"), None);
    assert_eq!(NetSysfsStatsMonitor::read_u64("-1"), None);
}

#[test]
fn netdev_monitor_describes_itself() {
    let mut m = NetSysfsStatsMonitor::new();
    assert_eq!(m.collect(None), Err(CollectionError::SourceUnreadable));
    assert_eq!(m.collect(Some(&vec![])), Ok(vec![]));
    assert_eq!(m.name(), "net_sysfs");
    assert_eq!(m.root(), "/sys/class/net");
    let families = m.describe();
    assert_eq!(families.len(), 1);
    assert_eq!(families[0].name, "netdev_stat");
    assert_eq!(families[0].label_keys, vec!["iface", "key"]);
}
