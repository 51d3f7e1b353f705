use host_metrics::monitor::{CollectionError, Monitor};
use host_metrics::monitors::interrupts::InterruptsMonitor;
use host_metrics::sample::{Sample, Value};

fn sample(irq: &str, cpu: &str, name: &str, value: u128) -> Sample {
    Sample {
        family: "interrupts".to_string(),
        labels: vec![irq.to_string(), cpu.to_string(), name.to_string()],
        value: Value::Integer(value),
    }
}

fn chars(s: &str) -> Vec<char> {
    s.chars().collect()
}

#[test]
fn interrupt_row_with_commas_and_a_long_name() {
    let text = "CPU0 CPU1\n16:   123,456  78   IR-IO-APIC   1-edge   timer\n";
    assert_eq!(
        InterruptsMonitor::collect_once(text),
        vec![sample("16", "0", "timer", 123456), sample("16", "1", "timer", 78)]
    );
}

#[test]
fn interrupt_heading_counts_the_cpu_columns() {
    assert_eq!(InterruptsMonitor::count_cpus(&chars("           CPU0       CPU1       ")), 2);
    assert_eq!(InterruptsMonitor::count_cpus(&chars("")), 0);
    assert_eq!(InterruptsMonitor::count_cpus(&chars("CPU0 cpu1 xCPU2 CPU CPU12")), 3);
}

#[test]
fn interrupt_rows_of_a_real_file() {
    let text = "            CPU0       CPU1       \n   0:         36          0   IO-APIC    2-edge      timer\n   8:          0          1   IO-APIC    8-edge      rtc0\n NMI:          5          6   Non-maskable interrupts\n ERR:          0\n MIS:          0\n\n";
    assert_eq!(
        InterruptsMonitor::collect_once(text),
        vec![
            sample("0", "0", "timer", 36),
            sample("0", "1", "timer", 0),
            sample("8", "0", "rtc0", 0),
            sample("8", "1", "rtc0", 1),
            sample("NMI", "0", "interrupts", 5),
            sample("NMI", "1", "interrupts", 6),
            sample("ERR", "0", "", 0),
            sample("MIS", "0", "", 0),
        ]
    );
}

#[test]
fn interrupt_counts_that_are_no_numbers_are_skipped() {
    let text = "CPU0 CPU1 CPU2\n7: 1 x 3 dev\n";
    assert_eq!(
        InterruptsMonitor::collect_once(text),
        vec![sample("7", "0", "dev", 1), sample("7", "2", "dev", 3)]
    );
}

#[test]
fn interrupt_row_with_fewer_counts_than_cpus_has_no_name() {
    let text = "CPU0 CPU1 CPU2\n7: 1 2\n";
    assert_eq!(
        InterruptsMonitor::collect_once(text),
        vec![sample("7", "0", "", 1), sample("7", "1", "", 2)]
    );
}

#[test]
fn interrupt_file_without_cpus_or_rows_gives_nothing() {
    assert_eq!(InterruptsMonitor::collect_once(""), vec![]);
    assert_eq!(InterruptsMonitor::collect_once("CPU0 CPU1\n"), vec![]);
    assert_eq!(InterruptsMonitor::collect_once("no columns\n5: 1 2 name\n"), vec![]);
    assert_eq!(InterruptsMonitor::collect_once("CPU0\n   \n\n"), vec![]);
}

#[test]
fn interrupt_id_loses_all_colons_at_its_end() {
    assert_eq!(
        InterruptsMonitor::collect_once("CPU0\n9:: 4 x\n:: 5 y\n"),
        vec![sample("9", "0", "x", 4), sample("", "0", "y", 5)]
    );
}

#[test]
fn interrupts_monitor_collects_what_was_read() {
    let mut m = InterruptsMonitor::new();
    let text = "CPU0\n1: 2 kbd\n".to_string();
    assert_eq!(m.collect(Some(&text)), Ok(vec![sample("1", "0", "kbd", 2)]));
    assert_eq!(m.collect(None), Err(CollectionError::SourceUnreadable));
    assert_eq!(m.name(), "interrupts");
    assert_eq!(m.path(), "/proc/interrupts");
    let families = m.describe();
    assert_eq!(families.len(), 1);
    assert_eq!(families[0].name, "interrupts");
    assert_eq!(families[0].label_keys, vec!["irq", "cpu", "name"]);
}
