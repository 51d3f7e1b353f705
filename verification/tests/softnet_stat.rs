use host_metrics::monitor::{CollectionError, Monitor};
use host_metrics::monitors::softnet_stat::SoftnetStatMonitor;
use host_metrics::sample::{Sample, Value};

fn sample(cpu: &str, key: &str, value: u128) -> Sample {
    Sample {
        family: "softnet_stat".to_string(),
        labels: vec![cpu.to_string(), key.to_string()],
        value: Value::Integer(value),
    }
}

#[test]
fn softnet_line_is_published_under_names_and_positions() {
    assert_eq!(
        SoftnetStatMonitor::collect_once("0000002a 00000000 00000005\n"),
        vec![
            sample("0", "processed", 42),
            sample("0", "f0", 42),
            sample("0", "dropped", 0),
            sample("0", "f1", 0),
            sample("0", "time_squeezed", 5),
            sample("0", "f2", 5),
        ]
    );
}

#[test]
fn softnet_counters_beyond_the_third_have_a_position_only() {
    assert_eq!(
        SoftnetStatMonitor::collect_once("1 2 3 ff 0 0 0 0 0 0 a\n"),
        vec![
            sample("0", "processed", 1),
            sample("0", "f0", 1),
            sample("0", "dropped", 2),
            sample("0", "f1", 2),
            sample("0", "time_squeezed", 3),
            sample("0", "f2", 3),
            sample("0", "f3", 255),
            sample("0", "f4", 0),
            sample("0", "f5", 0),
            sample("0", "f6", 0),
            sample("0", "f7", 0),
            sample("0", "f8", 0),
            sample("0", "f9", 0),
            sample("0", "f10", 10),
        ]
    );
}

#[test]
fn softnet_line_index_is_the_cpu() {
    assert_eq!(
        SoftnetStatMonitor::collect_once("00000001\n\n00000003\n"),
        vec![
            sample("0", "processed", 1),
            sample("0", "f0", 1),
            sample("2", "processed", 3),
            sample("2", "f0", 3),
        ]
    );
}

#[test]
fn softnet_words_that_are_no_hex_numbers_are_skipped() {
    assert_eq!(
        SoftnetStatMonitor::collect_once("zz 0000000b 0x1\n"),
        vec![sample("0", "dropped", 11), sample("0", "f1", 11)]
    );
}

#[test]
fn set_named_and_indexed_adds_one_or_two_samples() {
    let mut out = Vec::new();
    SoftnetStatMonitor::set_named_and_indexed("3", 1, 7, &mut out);
    SoftnetStatMonitor::set_named_and_indexed("3", 12, 8, &mut out);
    assert_eq!(out, vec![sample("3", "dropped", 7), sample("3", "f1", 7), sample("3", "f12", 8)]);
}

#[test]
fn softnet_monitor_collects_what_was_read() {
    let mut m = SoftnetStatMonitor::new();
    let text = "10\n".to_string();
    assert_eq!(
        m.collect(Some(&text)),
        Ok(vec![sample("0", "processed", 16), sample("0", "f0", 16)])
    );
    assert_eq!(m.collect(None), Err(CollectionError::SourceUnreadable));
    assert_eq!(m.name(), "softnet_stat");
    assert_eq!(m.path(), "/proc/net/softnet_stat");
    let families = m.describe();
    assert_eq!(families.len(), 1);
    assert_eq!(families[0].name, "softnet_stat");
    assert_eq!(families[0].label_keys, vec!["cpu", "key"]);
}
