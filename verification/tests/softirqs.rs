use host_metrics::monitor::{CollectionError, Monitor};
use host_metrics::monitors::softirqs::SoftirqsMonitor;
use host_metrics::sample::{Sample, Value};

fn sample(kind: &str, cpu: &str, value: u128) -> Sample {
    Sample {
        family: "softirqs".to_string(),
        labels: vec![kind.to_string(), cpu.to_string()],
        value: Value::Integer(value),
    }
}

#[test]
fn softirq_rows_map_position_to_cpu() {
    let text = "                    CPU0       CPU1       \n          HI:          1          2\n       TIMER:     123456     654321\n";
    assert_eq!(
        SoftirqsMonitor::collect_once(text),
        vec![
            sample("HI", "0", 1),
            sample("HI", "1", 2),
            sample("TIMER", "0", 123456),
            sample("TIMER", "1", 654321),
        ]
    );
}

#[test]
fn softirq_heading_is_not_needed_for_the_counts() {
    assert_eq!(
        SoftirqsMonitor::collect_once("CPU0\nNET_RX: 1 2 3\n"),
        vec![sample("NET_RX", "0", 1), sample("NET_RX", "1", 2), sample("NET_RX", "2", 3)]
    );
    assert_eq!(SoftirqsMonitor::collect_once("NET_RX: 1 2 3\n"), vec![]);
}

#[test]
fn malformed_softirq_rows_are_skipped() {
    let text = "CPU0 CPU1\n\n   \nno colon\nRCU: 5 x 7\nSCHED:\n";
    assert_eq!(
        SoftirqsMonitor::collect_once(text),
        vec![sample("RCU", "0", 5), sample("RCU", "2", 7)]
    );
}

#[test]
fn softirqs_monitor_collects_what_was_read() {
    let mut m = SoftirqsMonitor::new();
    let text = "CPU0\nHI: 9\n".to_string();
    assert_eq!(m.collect(Some(&text)), Ok(vec![sample("HI", "0", 9)]));
    assert_eq!(m.collect(Some(&String::new())), Ok(vec![]));
    assert_eq!(m.collect(None), Err(CollectionError::SourceUnreadable));
    assert_eq!(m.name(), "softirqs");
    assert_eq!(m.path(), "/proc/softirqs");
    let families = m.describe();
    assert_eq!(families.len(), 1);
    assert_eq!(families[0].name, "softirqs");
    assert_eq!(families[0].label_keys, vec!["kind", "cpu"]);
}
