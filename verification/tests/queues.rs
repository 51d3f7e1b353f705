use host_metrics::monitor::{CollectionError, Monitor};
use host_metrics::monitors::queues::{
    NetSysfsQueuesMonitor, QueueDir, QueueEntry, QueueFile, QueueId, QueueInterface, QueueNode,
};
use host_metrics::sample::{Sample, Value};

fn text(s: &str) -> Option<String> {
    Some(s.to_string())
}

fn plain(name: &str, content: Option<String>) -> QueueEntry {
    QueueEntry { name: name.to_string(), node: QueueNode::File(content) }
}

fn dir(name: &str, files: Option<Vec<QueueFile>>) -> QueueEntry {
    QueueEntry { name: name.to_string(), node: QueueNode::Dir(files) }
}

fn sub(name: &str, is_file: bool, content: Option<String>) -> QueueFile {
    QueueFile { name: name.to_string(), is_file, content }
}

fn queue(name: &str, entries: Option<Vec<QueueEntry>>) -> QueueDir {
    QueueDir { name: name.to_string(), entries }
}

fn iface(name: &str, queues: Option<Vec<QueueDir>>) -> QueueInterface {
    QueueInterface { name: name.to_string(), queues }
}

fn sample(iface: &str, qtype: &str, qid: &str, key: &str, value: u128) -> Sample {
    Sample {
        family: "netdev_queue_stat".to_string(),
        labels: vec![iface.to_string(), qtype.to_string(), qid.to_string(), key.to_string()],
        value: Value::Integer(value),
    }
}

#[test]
fn queue_files_and_one_level_of_directories_are_scanned() {
    let entries = vec![
        plain("tx_timeout", text("3\n")),
        plain("xps_cpus", text("00,0000000f\n")),
        plain("traffic_class", None),
        dir(
            "byte_queue_limits",
            Some(vec![
                sub("limit", true, text("1000\n")),
                sub("hold_time", true, text("abc")),
                sub("nested", false, text("5")),
                sub("inflight", true, text("0\n")),
                sub("gone", true, None),
            ]),
        ),
        dir("broken", None),
        QueueEntry { name: "socket".to_string(), node: QueueNode::Other },
    ];
    let q = QueueId { iface: "eth0", qtype: "tx", qid: "0" };
    let mut out = Vec::new();
    NetSysfsQueuesMonitor::scrape_queue_dir(&q, &entries, &mut out);
    assert_eq!(
        out,
        vec![
            sample("eth0", "tx", "0", "tx_timeout", 3),
            sample("eth0", "tx", "0", "byte_queue_limits_limit", 1000),
            sample("eth0", "tx", "0", "byte_queue_limits_inflight", 0),
        ]
    );
}

#[test]
fn queue_directory_names_are_rx_or_tx_and_an_id() {
    let name = |s: &str| NetSysfsQueuesMonitor::parse_queue_name(s);
    assert_eq!(name("rx-0"), Some(("rx".to_string(), "0".to_string())));
    assert_eq!(name("tx-15"), Some(("tx".to_string(), "15".to_string())));
    assert_eq!(name("tx-1-2"), Some(("tx".to_string(), "1-2".to_string())));
    assert_eq!(name("rx-"), None);
    assert_eq!(name("rx"), None);
    assert_eq!(name("xx-0"), None);
    assert_eq!(name("RX-0"), None);
    assert_eq!(name("-0"), None);
    assert_eq!(name(""), None);
}

#[test]
fn queues_of_every_interface_but_lo_are_collected() {
    let mut m = NetSysfsQueuesMonitor::new();
    assert!(!m.include_lo);
    let ifaces = vec![
        iface("lo", Some(vec![queue("rx-0", Some(vec![plain("rps_cpus", text("1"))]))])),
        iface("bond0", None),
        iface(
            "eth0",
            Some(vec![
                queue("rx-0", Some(vec![plain("rps_flow_cnt", text("4096"))])),
                queue("weird", Some(vec![plain("x", text("1"))])),
                queue("tx-1", None),
                queue("tx-0", Some(vec![plain("tx_maxrate", text("0"))])),
            ]),
        ),
    ];
    assert_eq!(
        m.collect(Some(&ifaces)),
        Ok(vec![
            sample("eth0", "rx", "0", "rps_flow_cnt", 4096),
            sample("eth0", "tx", "0", "tx_maxrate", 0),
        ])
    );
}

#[test]
fn queues_of_lo_are_collected_when_asked_for() {
    let mut m = NetSysfsQueuesMonitor { include_lo: true };
    let ifaces =
        vec![iface("lo", Some(vec![queue("rx-0", Some(vec![plain("rps_cpus", text("1"))]))]))];
    assert_eq!(m.collect(Some(&ifaces)), Ok(vec![sample("lo", "rx", "0", "rps_cpus", 1)]));
}

#[test]
fn emit_file_adds_a_sample_for_a_number_only() {
    let q = QueueId { iface: "eth0", qtype: "rx", qid: "7" };
    let mut out = Vec::new();
    NetSysfsQueuesMonitor::emit_file(&q, "a", &text(" 12\n"), &mut out);
    NetSysfsQueuesMonitor::emit_file(&q, "b", &text("twelve"), &mut out);
    NetSysfsQueuesMonitor::emit_file(&q, "c", &None, &mut out);
    NetSysfsQueuesMonitor::emit_file(&q, "d", &text(""), &mut out);
    assert_eq!(out, vec![sample("eth0", "rx", "7", "a", 12)]);
}

#[test]
fn queues_read_u64_trims_and_parses() {
    assert_eq!(NetSysfsQueuesMonitor::read_u64("42\n"), Some(42));
    assert_eq!(NetSysfsQueuesMonitor::read_u64("0,f"), None);
    assert_eq!(NetSysfsQueuesMonitor::read_u64("\n"), None);
}

#[test]
fn queues_monitor_describes_itself() {
    let mut m = NetSysfsQueuesMonitor::new();
    assert_eq!(m.collect(None), Err(CollectionError::SourceUnreadable));
    assert_eq!(m.name(), "net_sysfs_queues");
    assert_eq!(m.root(), "/sys/class/net");
    let families = m.describe();
    assert_eq!(families.len(), 1);
    assert_eq!(families[0].name, "netdev_queue_stat");
    assert_eq!(families[0].label_keys, vec!["iface", "qtype", "qid", "key"]);
}
