use host_metrics::monitor::{CollectionError, Monitor};
use host_metrics::monitors::diskstat::{BlockDevice, DiskStatsMonitor};
use host_metrics::sample::{Sample, Value};

const NAMES: [&str; 17] = [
    "reads_completed",
    "reads_merged",
    "sectors_read",
    "read_time_ms",
    "writes_completed",
    "writes_merged",
    "sectors_written",
    "write_time_ms",
    "io_in_progress",
    "io_time_ms",
    "weighted_io_time_ms",
    "discards_completed",
    "discards_merged",
    "sectors_discarded",
    "discard_time_ms",
    "flush_requests_completed",
    "flush_time_ms",
];

fn stat_line(n: u64) -> String {
    let fields: Vec<String> = (0..n).map(|i| (100 + i).to_string()).collect();
    format!("  {}\n", fields.join("   "))
}

fn device(name: &str, is_partition: bool, stat: Option<&str>) -> BlockDevice {
    BlockDevice { name: name.to_string(), is_partition, stat: stat.map(|s| s.to_string()) }
}

fn expected(dev: &str, shown: usize) -> Vec<Sample> {
    (0..shown)
        .map(|i| Sample {
            family: "disk_stat".to_string(),
            labels: vec![dev.to_string(), NAMES[i].to_string()],
            value: Value::Integer(100 + i as u128),
        })
        .collect()
}

#[test]
fn stat_file_of_eleven_fields_gives_eleven_samples() {
    let vals = DiskStatsMonitor::read_stat_file(&stat_line(11)).unwrap();
    assert_eq!(vals.len(), 11);
    assert_eq!(DiskStatsMonitor::samples_of("sda", &vals), expected("sda", 11));
}

#[test]
fn stat_file_of_fifteen_fields_gives_fifteen_samples() {
    let vals = DiskStatsMonitor::read_stat_file(&stat_line(15)).unwrap();
    assert_eq!(DiskStatsMonitor::samples_of("sda", &vals), expected("sda", 15));
}

#[test]
fn stat_file_of_seventeen_fields_gives_seventeen_samples() {
    let vals = DiskStatsMonitor::read_stat_file(&stat_line(17)).unwrap();
    assert_eq!(DiskStatsMonitor::samples_of("nvme0n1", &vals), expected("nvme0n1", 17));
}

#[test]
fn other_field_counts_give_the_named_fields_only() {
    for (fields, shown) in [(0u64, 0usize), (5, 5), (12, 11), (14, 11), (16, 15), (20, 17)] {
        let vals = DiskStatsMonitor::read_stat_file(&stat_line(fields)).unwrap();
        assert_eq!(DiskStatsMonitor::samples_of("sda", &vals), expected("sda", shown));
    }
}

#[test]
fn key_names_follow_the_field_count() {
    assert_eq!(DiskStatsMonitor::key_names(11), NAMES[..11].to_vec());
    assert_eq!(DiskStatsMonitor::key_names(14), NAMES[..11].to_vec());
    assert_eq!(DiskStatsMonitor::key_names(15), NAMES[..15].to_vec());
    assert_eq!(DiskStatsMonitor::key_names(16), NAMES[..15].to_vec());
    assert_eq!(DiskStatsMonitor::key_names(17), NAMES.to_vec());
    assert_eq!(DiskStatsMonitor::key_names(0), NAMES[..11].to_vec());
}

#[test]
fn a_word_that_is_no_integer_drops_the_device() {
    assert_eq!(DiskStatsMonitor::read_stat_file("1 2 x 4 5 6 7 8 9 10 11"), None);
    assert_eq!(DiskStatsMonitor::read_stat_file("1 2 3 4 5 6 7 8 9 10 -11"), None);
    assert_eq!(DiskStatsMonitor::read_stat_file("1 2 3 4 5 6 7 8 9 10 1.5"), None);
    assert_eq!(
        DiskStatsMonitor::read_stat_file("1 2 3 4 5 6 7 8 9 10 18446744073709551616"),
        None
    );
    let mut m = DiskStatsMonitor::new();
    let devices = vec![
        device("sda", false, Some("1 2 3 4 5 6 7 8 9 10 oops")),
        device("sdb", false, Some(&stat_line(11))),
    ];
    assert_eq!(m.collect(Some(&devices)), Ok(expected("sdb", 11)));
}

#[test]
fn virtual_devices_and_partitions_are_left_out_by_default() {
    let mut m = DiskStatsMonitor::new();
    assert!(!m.include_partitions);
    assert!(m.skip_virtual);
    let line = stat_line(11);
    let devices = vec![
        device("loop0", false, Some(&line)),
        device("ram1", false, Some(&line)),
        device("dm-0", false, Some(&line)),
        device("sda1", true, Some(&line)),
        device("sda", false, Some(&line)),
        device("sdb", false, None),
    ];
    assert_eq!(m.collect(Some(&devices)), Ok(expected("sda", 11)));
}

#[test]
fn virtual_devices_and_partitions_are_reported_when_asked_for() {
    let mut m = DiskStatsMonitor { include_partitions: true, skip_virtual: false };
    let line = stat_line(11);
    let devices = vec![device("loop0", false, Some(&line)), device("sda1", true, Some(&line))];
    let mut all = expected("loop0", 11);
    all.extend(expected("sda1", 11));
    assert_eq!(m.collect(Some(&devices)), Ok(all));
    assert_eq!(m, DiskStatsMonitor { include_partitions: true, skip_virtual: false });
}

#[test]
fn is_virtual_like_goes_by_the_prefix() {
    assert!(DiskStatsMonitor::is_virtual_like("loop0"));
    assert!(DiskStatsMonitor::is_virtual_like("ram15"));
    assert!(DiskStatsMonitor::is_virtual_like("dm-3"));
    assert!(DiskStatsMonitor::is_virtual_like("loop"));
    assert!(!DiskStatsMonitor::is_virtual_like("sda"));
    assert!(!DiskStatsMonitor::is_virtual_like("dm"));
    assert!(!DiskStatsMonitor::is_virtual_like("nvme0n1"));
    assert!(!DiskStatsMonitor::is_virtual_like(""));
}

#[test]
fn unreadable_block_directory_fails_the_pass() {
    let mut m = DiskStatsMonitor::new();
    assert_eq!(m.collect(None), Err(CollectionError::SourceUnreadable));
    assert_eq!(m.collect(Some(&vec![])), Ok(vec![]));
}

#[test]
fn diskstat_describes_its_family() {
    let m = DiskStatsMonitor::new();
    assert_eq!(m.name(), "diskstats");
    assert_eq!(m.root(), "/sys/class/block");
    let families = m.describe();
    assert_eq!(families.len(), 1);
    assert_eq!(families[0].name, "disk_stat");
    assert_eq!(families[0].label_keys, vec!["dev", "key"]);
    assert!(!families[0].help.is_empty());
}
