use host_metrics::monitor::{CollectionError, Monitor, MonitorKind};
use host_metrics::monitors::diskstat::{BlockDevice, DiskStatsMonitor};
use host_metrics::monitors::memstat::MeminfoMonitor;
use host_metrics::sample::Sample;
use host_metrics::scheduler::{Action, Event, Phase, Scheduler, DEFAULT_INTERVAL};

#[test]
fn default_interval_is_five() {
    assert_eq!(DEFAULT_INTERVAL, 5);
}

#[test]
fn no_selection_enables_the_default_monitors() {
    let s = Scheduler::new(vec![], DEFAULT_INTERVAL);
    assert_eq!(
        s.monitors(),
        &vec![
            MonitorKind::Sched,
            MonitorKind::Snmp,
            MonitorKind::NetDev,
            MonitorKind::DiskStat,
            MonitorKind::Interrupts,
            MonitorKind::MemStat,
        ]
    );
    assert_eq!(s.interval(), 5);
    assert_eq!(s.phase(), Phase::Idle);
}

#[test]
fn selection_is_kept_in_its_order() {
    let s = Scheduler::new(vec![MonitorKind::SoftnetStat, MonitorKind::Sched, MonitorKind::Sched], 1);
    assert_eq!(
        s.monitors(),
        &vec![MonitorKind::SoftnetStat, MonitorKind::Sched, MonitorKind::Sched]
    );
    assert_eq!(s.interval(), 1);
}

#[test]
fn pass_takes_every_monitor_once_in_order() {
    let mut s = Scheduler::new(
        vec![MonitorKind::DiskStat, MonitorKind::MemStat, MonitorKind::SoftIrqs],
        1,
    );
    assert_eq!(s.step(Event::Tick), Action::Collect(0, MonitorKind::DiskStat));
    assert_eq!(s.phase(), Phase::Collecting(0));
    assert_eq!(s.step(Event::Collected(None)), Action::Collect(1, MonitorKind::MemStat));
    assert_eq!(s.step(Event::Collected(None)), Action::Collect(2, MonitorKind::SoftIrqs));
    assert_eq!(s.step(Event::Collected(None)), Action::AwaitTick);
    assert_eq!(s.phase(), Phase::Idle);
    assert_eq!(s.step(Event::Tick), Action::Collect(0, MonitorKind::DiskStat));
}

#[test]
fn failure_of_a_monitor_does_not_stop_the_pass() {
    let failed = Event::Collected(Some(CollectionError::SourceUnreadable));
    let mut s = Scheduler::new(vec![MonitorKind::Snmp, MonitorKind::NetDev], 5);
    assert_eq!(s.step(Event::Tick), Action::Collect(0, MonitorKind::Snmp));
    assert_eq!(s.step(failed), Action::Collect(1, MonitorKind::NetDev));
    assert_eq!(s.step(failed), Action::AwaitTick);
    assert_eq!(s.step(Event::Tick), Action::Collect(0, MonitorKind::Snmp));
    assert_eq!(s.step(Event::Collected(None)), Action::Collect(1, MonitorKind::NetDev));
}

#[test]
fn tick_during_a_pass_starts_the_next_pass_at_once() {
    let mut s = Scheduler::new(vec![MonitorKind::Snmp, MonitorKind::NetDev], 5);
    assert_eq!(s.step(Event::Tick), Action::Collect(0, MonitorKind::Snmp));
    assert_eq!(s.step(Event::Tick), Action::AwaitResult);
    assert_eq!(s.phase(), Phase::Collecting(0));
    assert_eq!(s.step(Event::Collected(None)), Action::Collect(1, MonitorKind::NetDev));
    assert_eq!(s.step(Event::Tick), Action::AwaitResult);
    assert_eq!(s.step(Event::Collected(None)), Action::Collect(0, MonitorKind::Snmp));
    assert_eq!(s.step(Event::Collected(None)), Action::Collect(1, MonitorKind::NetDev));
    assert_eq!(s.step(Event::Collected(None)), Action::Collect(0, MonitorKind::Snmp));
    assert_eq!(s.step(Event::Collected(None)), Action::Collect(1, MonitorKind::NetDev));
    assert_eq!(s.step(Event::Collected(None)), Action::AwaitTick);
    assert_eq!(s.phase(), Phase::Idle);
}

#[test]
fn result_that_nothing_waits_for_changes_nothing() {
    let mut s = Scheduler::new(vec![MonitorKind::Snmp], 5);
    assert_eq!(s.step(Event::Collected(None)), Action::AwaitTick);
    assert_eq!(s.phase(), Phase::Idle);
    assert_eq!(s.step(Event::Tick), Action::Collect(0, MonitorKind::Snmp));
    assert_eq!(s.step(Event::Collected(None)), Action::AwaitTick);
}

fn run(kind: MonitorKind) -> Result<Vec<Sample>, CollectionError> {
    match kind {
        MonitorKind::DiskStat => {
            let devices = vec![BlockDevice {
                name: "sda".to_string(),
                is_partition: false,
                stat: Some("1 2 3 4 5 6 7 8 9 10 11\n".to_string()),
            }];
            DiskStatsMonitor::new().collect(Some(&devices))
        }
        MonitorKind::MemStat => {
            MeminfoMonitor::new().collect(Some(&"MemTotal:       16336236 kB\n".to_string()))
        }
        _ => Err(CollectionError::SourceUnreadable),
    }
}

#[test]
fn first_tick_collects_the_selected_monitors_only() {
    let mut s = Scheduler::new(vec![MonitorKind::DiskStat, MonitorKind::MemStat], 1);
    let mut samples = Vec::new();
    let mut action = s.step(Event::Tick);
    while let Action::Collect(_, kind) = action {
        let outcome = run(kind);
        let error = outcome.as_ref().err().copied();
        samples.extend(outcome.unwrap_or_default());
        action = s.step(Event::Collected(error));
    }
    assert_eq!(action, Action::AwaitTick);
    assert!(samples.iter().any(|s| s.family == "disk_stat"
        && s.labels == vec!["sda".to_string(), "reads_completed".to_string()]));
    assert!(samples
        .iter()
        .any(|s| s.family == "meminfo_bytes" && s.labels == vec!["MemTotal".to_string()]));
    assert!(samples
        .iter()
        .all(|s| s.family == "disk_stat" || s.family == "meminfo_bytes" || s.family == "meminfo"));
    assert_eq!(samples.len(), 12);
}

#[test]
fn collecting_twice_from_the_same_content_gives_the_same_samples() {
    let text = "MemTotal:       16336236 kB\nHugePages_Total:    0\n".to_string();
    let mut m = MeminfoMonitor::new();
    let first = m.collect(Some(&text));
    let second = m.collect(Some(&text));
    assert_eq!(first, second);
    assert_eq!(first.unwrap().len(), 2);
    let devices = vec![BlockDevice {
        name: "sda".to_string(),
        is_partition: false,
        stat: Some("1 2 3 4 5 6 7 8 9 10 11\n".to_string()),
    }];
    let mut d = DiskStatsMonitor::new();
    assert_eq!(d.collect(Some(&devices)), d.collect(Some(&devices)));
}
