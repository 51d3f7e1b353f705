use host_metrics::monitor::{CollectionError, Monitor};
use host_metrics::monitors::memstat::MeminfoMonitor;
use host_metrics::sample::{Sample, Value};

fn sample(family: &str, key: &str, value: u128) -> Sample {
    Sample {
        family: family.to_string(),
        labels: vec![key.to_string()],
        value: Value::Integer(value),
    }
}

#[test]
fn mem_total_in_kb_becomes_bytes() {
    assert_eq!(
        MeminfoMonitor::collect_once("MemTotal:       16336236 kB\n"),
        vec![sample("meminfo_bytes", "MemTotal", 16336236 * 1024)]
    );
    assert_eq!(16336236u128 * 1024, 16728305664);
}

#[test]
fn huge_pages_total_stays_a_count() {
    assert_eq!(
        MeminfoMonitor::collect_once("HugePages_Total:    0\n"),
        vec![sample("meminfo", "HugePages_Total", 0)]
    );
}

#[test]
fn meminfo_lines_keep_their_order() {
    let text = "MemTotal:       16336236 kB\nMemFree:         1234 kB\nHugePages_Total:       7\nHugepagesize:       2048 kB\n";
    assert_eq!(
        MeminfoMonitor::collect_once(text),
        vec![
            sample("meminfo_bytes", "MemTotal", 16728305664),
            sample("meminfo_bytes", "MemFree", 1234 * 1024),
            sample("meminfo", "HugePages_Total", 7),
            sample("meminfo_bytes", "Hugepagesize", 2048 * 1024),
        ]
    );
}

#[test]
fn only_the_exact_unit_kb_multiplies() {
    assert_eq!(MeminfoMonitor::collect_once("A: 3 KB\n"), vec![sample("meminfo", "A", 3)]);
    assert_eq!(MeminfoMonitor::collect_once("A: 3 kb\n"), vec![sample("meminfo", "A", 3)]);
    assert_eq!(MeminfoMonitor::collect_once("A: 3 MB\n"), vec![sample("meminfo", "A", 3)]);
    assert_eq!(MeminfoMonitor::collect_once("A: 3 kB extra\n"), vec![sample("meminfo_bytes", "A", 3072)]);
    assert_eq!(MeminfoMonitor::collect_once("A:3\r\n"), vec![sample("meminfo", "A", 3)]);
}

#[test]
fn malformed_meminfo_lines_are_skipped() {
    let text = "no colon here\nEmpty:\nBad: x kB\nNeg: -1 kB\nGood: 1 kB\n: 5\n";
    assert_eq!(
        MeminfoMonitor::collect_once(text),
        vec![sample("meminfo_bytes", "Good", 1024), sample("meminfo", "", 5)]
    );
}

#[test]
fn largest_kb_value_does_not_overflow() {
    assert_eq!(
        MeminfoMonitor::collect_once("Huge: 18446744073709551615 kB\n"),
        vec![sample("meminfo_bytes", "Huge", 18446744073709551615u128 * 1024)]
    );
    assert_eq!(MeminfoMonitor::collect_once("Huge: 18446744073709551616 kB\n"), vec![]);
}

#[test]
fn meminfo_key_is_trimmed() {
    assert_eq!(
        MeminfoMonitor::collect_once("  Active(anon) :   12 kB"),
        vec![sample("meminfo_bytes", "Active(anon)", 12288)]
    );
}

#[test]
fn meminfo_monitor_collects_what_was_read() {
    let mut m = MeminfoMonitor::new();
    let text = "MemTotal: 1 kB\n".to_string();
    assert_eq!(m.collect(Some(&text)), Ok(vec![sample("meminfo_bytes", "MemTotal", 1024)]));
    assert_eq!(m.collect(Some(&String::new())), Ok(vec![]));
    assert_eq!(m.collect(None), Err(CollectionError::SourceUnreadable));
    assert_eq!(m.name(), "meminfo");
    assert_eq!(m.path(), "/proc/meminfo");
    let families = m.describe();
    assert_eq!(families.len(), 2);
    assert_eq!(families[0].name, "meminfo_bytes");
    assert_eq!(families[1].name, "meminfo");
    assert_eq!(families[0].label_keys, vec!["key"]);
    assert_eq!(families[1].label_keys, vec!["key"]);
}
