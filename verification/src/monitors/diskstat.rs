//! Block device I/O statistics, from `/sys/class/block/<dev>/stat`.
//!
//! Each device yields samples of the family `disk_stat`, with the labels
//! `dev` and `key`.

use crate::monitor::{CollectionError, Monitor};
use crate::number::{parse_u64, unsigned, Radix};
use crate::sample::{
    all_fit, all_fit_add, count, fits, Family, FamilyView, Sample, SampleView,
};
use crate::text::{chars_of, split_words, starts_with, texts, views, words};
use vstd::prelude::*;

verus! {

/// The name of the family.
pub open spec fn family_name() -> Seq<char> {
    "disk_stat"@
}

/// The names of the first eleven fields of a `stat` file.
pub open spec fn base_keys() -> Seq<Seq<char>> {
    seq![
        "reads_completed"@,
        "reads_merged"@,
        "sectors_read"@,
        "read_time_ms"@,
        "writes_completed"@,
        "writes_merged"@,
        "sectors_written"@,
        "write_time_ms"@,
        "io_in_progress"@,
        "io_time_ms"@,
        "weighted_io_time_ms"@,
    ]
}

/// The names of the four fields on discards, which follow the first eleven.
pub open spec fn discard_keys() -> Seq<Seq<char>> {
    seq!["discards_completed"@, "discards_merged"@, "sectors_discarded"@, "discard_time_ms"@]
}

/// The names of the two fields on flushes, which follow those on discards.
pub open spec fn flush_keys() -> Seq<Seq<char>> {
    seq!["flush_requests_completed"@, "flush_time_ms"@]
}

/// The names of the fields of a `stat` file that holds `n` fields, by
/// position: the first eleven, then those on discards where there are
/// fifteen fields or more, then those on flushes where there are seventeen
/// or more.
pub open spec fn stat_keys(n: nat) -> Seq<Seq<char>> {
    base_keys() + (if n >= 15 {
        discard_keys()
    } else {
        Seq::empty()
    }) + (if n >= 17 {
        flush_keys()
    } else {
        Seq::empty()
    })
}

/// The fields of a `stat` file: its words, each a decimal integer of 64
/// bits. There are none where a word is not such an integer.
pub open spec fn stat_values(content: Seq<char>) -> Option<Seq<nat>> {
    let tokens = words(content);
    if forall|i: int|
        0 <= i < tokens.len() ==> (#[trigger] unsigned(
            tokens[i],
            Radix::Decimal,
            u64::MAX as nat,
        )).is_some() {
        Some(
            Seq::new(tokens.len(), |i: int| unsigned(tokens[i], Radix::Decimal, u64::MAX as nat)->0),
        )
    } else {
        None
    }
}

/// The numbers that `v` holds.
pub open spec fn nats(v: Seq<u64>) -> Seq<nat> {
    Seq::new(v.len(), |i: int| v[i] as nat)
}

/// The help text of the family.
pub open spec fn family_help() -> Seq<char> {
    "Values from /sys/class/block/<dev>/stat (iostats)"@
}

/// The family that the monitor fills.
pub open spec fn family() -> FamilyView {
    FamilyView { name: family_name(), help: family_help(), label_keys: seq!["dev"@, "key"@] }
}

/// The samples of the device `dev` whose fields are `vals`: one for each
/// field that has a name.
pub open spec fn device_samples(dev: Seq<char>, vals: Seq<nat>) -> Seq<SampleView> {
    let keys = stat_keys(vals.len());
    Seq::new(
        if vals.len() < keys.len() {
            vals.len()
        } else {
            keys.len()
        },
        |i: int| count(family_name(), seq![dev, keys[i]], vals[i]),
    )
}

/// The samples of the device `dev` whose `stat` file holds `content`: none
/// where a field is not an integer.
pub open spec fn stat_samples(dev: Seq<char>, content: Seq<char>) -> Seq<SampleView> {
    match stat_values(content) {
        Some(vals) => device_samples(dev, vals),
        None => Seq::empty(),
    }
}

/// Whether a device of this name is a loop device, a RAM disk or a
/// device-mapper target.
pub open spec fn virtual_like(name: Seq<char>) -> bool {
    "loop"@.is_prefix_of(name) || "ram"@.is_prefix_of(name) || "dm-"@.is_prefix_of(name)
}

/// One entry of `/sys/class/block`, as a pass found it.
#[derive(Debug, PartialEq, Eq)]
pub struct BlockDevice {
    /// The name of the entry.
    pub name: String,
    /// Whether the entry holds a file `partition`.
    pub is_partition: bool,
    /// What the entry's file `stat` holds, if it could be read.
    pub stat: Option<String>,
}

/// The monitor of block device statistics.
#[derive(Debug, PartialEq, Eq)]
pub struct DiskStatsMonitor {
    /// Whether partitions are reported too.
    pub include_partitions: bool,
    /// Whether loop devices, RAM disks and device-mapper targets are left
    /// out.
    pub skip_virtual: bool,
}

impl DiskStatsMonitor {
    /// The samples that the entry `device` yields.
    pub open spec fn device_pass(&self, device: &BlockDevice) -> Seq<SampleView> {
        if self.skip_virtual && virtual_like(device.name@) {
            Seq::empty()
        } else if !self.include_partitions && device.is_partition {
            Seq::empty()
        } else {
            match device.stat {
                Some(content) => stat_samples(device.name@, content@),
                None => Seq::empty(),
            }
        }
    }

    /// The samples that the entries `devices` yield, in their order.
    pub open spec fn pass(&self, devices: Seq<BlockDevice>) -> Seq<SampleView>
        decreases devices.len(),
    {
        if devices.len() == 0 {
            Seq::empty()
        } else {
            self.pass(devices.drop_last()) + self.device_pass(&devices.last())
        }
    }

    /// Every sample of a pass belongs to the family and has its two labels.
    pub proof fn pass_fits(&self, devices: Seq<BlockDevice>)
        ensures
            all_fit(self.pass(devices), seq![family()]),
        decreases devices.len(),
    {
        if devices.len() > 0 {
            let device = devices.last();
            self.pass_fits(devices.drop_last());
            match device.stat {
                Some(content) => match stat_values(content@) {
                    Some(vals) => device_samples_fit(device.name@, vals),
                    None => {},
                },
                None => {},
            }
            all_fit_add(self.pass(devices.drop_last()), self.device_pass(&device), seq![family()]);
        }
    }

    /// A monitor that leaves out partitions and virtual devices.
    pub fn new() -> (m: Self)
        ensures
            !m.include_partitions,
            m.skip_virtual,
    {
        DiskStatsMonitor { include_partitions: false, skip_virtual: true }
    }

    /// The directory whose entries a pass reads.
    pub fn root(&self) -> (r: &'static str)
        ensures
            r@ == "/sys/class/block"@,
    {
        "/sys/class/block"
    }

    /// Tests whether a device of this name is a loop device, a RAM disk or a
    /// device-mapper target.
    pub fn is_virtual_like(dev_name: &str) -> (r: bool)
        ensures
            r == virtual_like(dev_name@),
    {
        let name = chars_of(dev_name);
        let lo = chars_of("loop");
        let ram = chars_of("ram");
        let dm = chars_of("dm-");
        starts_with(name.as_slice(), lo.as_slice()) || starts_with(name.as_slice(), ram.as_slice())
            || starts_with(name.as_slice(), dm.as_slice())
    }

    /// Reads the fields of a `stat` file.
    pub fn read_stat_file(content: &str) -> (r: Option<Vec<u64>>)
        ensures
            match r {
                Some(vals) => stat_values(content@) == Some(nats(vals@)),
                None => stat_values(content@).is_none(),
            },
    {
        let text = chars_of(content);
        let tokens = split_words(text.as_slice());
        let ghost toks = words(content@);
        let mut out: Vec<u64> = Vec::with_capacity(17);
        let mut i: usize = 0;
        while i < tokens.len()
            invariant
                i <= tokens@.len(),
                texts(tokens@) == toks,
                toks == words(content@),
                out@.len() == i,
                forall|j: int|
                    0 <= j < i ==> unsigned(#[trigger] toks[j], Radix::Decimal, u64::MAX as nat)
                        == Some(out@[j] as nat),
            decreases tokens@.len() - i,
        {
            assert(toks[i as int] == tokens@[i as int]@);
            match parse_u64(tokens[i].as_slice()) {
                Some(v) => {
                    out.push(v);
                },
                None => {
                    assert(unsigned(toks[i as int], Radix::Decimal, u64::MAX as nat).is_none());
                    return None;
                },
            }
            i += 1;
        }
        proof {
            assert(toks.len() == tokens@.len());
            assert(stat_values(content@)->0 =~= nats(out@));
        }
        Some(out)
    }

    /// The names of the fields of a `stat` file that holds `n` fields.
    pub fn key_names(n: usize) -> (keys: Vec<&'static str>)
        ensures
            views(keys@) == stat_keys(n as nat),
    {
        let mut keys: Vec<&'static str> = vec![
            "reads_completed",
            "reads_merged",
            "sectors_read",
            "read_time_ms",
            "writes_completed",
            "writes_merged",
            "sectors_written",
            "write_time_ms",
            "io_in_progress",
            "io_time_ms",
            "weighted_io_time_ms",
        ];
        assert(views(keys@) =~= base_keys());
        if n >= 15 {
            keys.push("discards_completed");
            keys.push("discards_merged");
            keys.push("sectors_discarded");
            keys.push("discard_time_ms");
            assert(views(keys@) =~= base_keys() + discard_keys());
        }
        let ghost before = keys@;
        if n >= 17 {
            keys.push("flush_requests_completed");
            keys.push("flush_time_ms");
            assert(views(keys@) =~= views(before) + flush_keys());
        }
        assert(views(keys@) =~= stat_keys(n as nat));
        keys
    }

    /// The samples of the device `dev` whose fields are `vals`.
    pub fn samples_of(dev: &str, vals: &Vec<u64>) -> (out: Vec<Sample>)
        ensures
            views(out@) == device_samples(dev@, nats(vals@)),
    {
        let keys = Self::key_names(vals.len());
        let ghost names = stat_keys(vals@.len());
        let n = if vals.len() < keys.len() {
            vals.len()
        } else {
            keys.len()
        };
        let mut out: Vec<Sample> = Vec::new();
        let mut i: usize = 0;
        while i < n
            invariant
                i <= n,
                n <= vals@.len(),
                n <= keys@.len(),
                views(keys@) == names,
                out@.len() == i,
                forall|j: int|
                    0 <= j < i ==> (#[trigger] out@[j])@ == count(
                        family_name(),
                        seq![dev@, names[j]],
                        vals@[j] as nat,
                    ),
            decreases n - i,
        {
            let labels: Vec<String> = vec![dev.to_owned(), keys[i].to_owned()];
            assert(views(labels@) =~= seq![dev@, names[i as int]]);
            out.push(Sample::integer("disk_stat", labels, vals[i] as u128));
            i += 1;
        }
        assert(views(out@) =~= device_samples(dev@, nats(vals@)));
        out
    }

    /// The samples that the entry `device` yields.
    pub fn scan_device(&self, device: &BlockDevice) -> (out: Vec<Sample>)
        ensures
            views(out@) == self.device_pass(device),
    {
        if self.skip_virtual && Self::is_virtual_like(device.name.as_str()) {
            return Vec::new();
        }
        if !self.include_partitions && device.is_partition {
            return Vec::new();
        }
        match &device.stat {
            Some(content) => match Self::read_stat_file(content.as_str()) {
                Some(vals) => Self::samples_of(device.name.as_str(), &vals),
                None => Vec::new(),
            },
            None => Vec::new(),
        }
    }
}

/// Every sample of a device belongs to the family and has its two labels.
pub proof fn device_samples_fit(dev: Seq<char>, vals: Seq<nat>)
    ensures
        all_fit(device_samples(dev, vals), seq![family()]),
{
    let families = seq![family()];
    assert forall|i: int| 0 <= i < device_samples(dev, vals).len() implies fits(
        #[trigger] device_samples(dev, vals)[i],
        families,
    ) by {
        assert(families[0].name == family_name());
    }
}

/// A `stat` file of exactly 11, 15 or 17 integer fields yields that many
/// samples, named by position after the lists of field names; a file with a
/// word that is no integer yields no sample at all.
pub proof fn stat_samples_by_field_count(dev: Seq<char>, content: Seq<char>)
    ensures
        stat_values(content).is_none() ==> stat_samples(dev, content).len() == 0,
        stat_values(content) matches Some(vals) ==> {
            let n = vals.len();
            let names = base_keys() + discard_keys() + flush_keys();
            (n == 11 || n == 15 || n == 17) ==> {
                &&& stat_samples(dev, content).len() == n
                &&& forall|i: int|
                    0 <= i < n ==> #[trigger] stat_samples(dev, content)[i] == count(
                        family_name(),
                        seq![dev, names[i]],
                        vals[i],
                    )
            }
        },
{
}

impl Monitor for DiskStatsMonitor {
    type Source = Vec<BlockDevice>;

    open spec fn families(&self) -> Seq<FamilyView> {
        seq![family()]
    }

    open spec fn samples(&self, source: &Vec<BlockDevice>) -> Seq<SampleView> {
        self.pass(source@)
    }

    fn name(&self) -> (r: &'static str)
        ensures
            r@ == "diskstats"@,
    {
        "diskstats"
    }

    fn describe(&self) -> (r: Vec<Family>) {
        let r = vec![
            Family {
                name: "disk_stat",
                help: "Values from /sys/class/block/<dev>/stat (iostats)",
                label_keys: vec!["dev", "key"],
            },
        ];
        assert(views(r@[0].label_keys@) =~= seq!["dev"@, "key"@]);
        assert(views(r@) =~= seq![family()]);
        r
    }

    fn collect(&mut self, source: Option<&Vec<BlockDevice>>) -> (r: Result<
        Vec<Sample>,
        CollectionError,
    >) {
        let devices = match source {
            Some(devices) => devices,
            None => {
                return Err(CollectionError::SourceUnreadable);
            },
        };
        let mut out: Vec<Sample> = Vec::new();
        let mut i: usize = 0;
        assert(devices@.take(0) =~= Seq::<BlockDevice>::empty());
        while i < devices.len()
            invariant
                i <= devices@.len(),
                views(out@) == self.pass(devices@.take(i as int)),
            decreases devices@.len() - i,
        {
            let mut more = self.scan_device(&devices[i]);
            proof {
                let upto = devices@.take(i + 1);
                assert(upto.drop_last() =~= devices@.take(i as int));
                assert(upto.last() == devices@[i as int]);
                assert(views(out@ + more@) =~= views(out@) + views(more@));
            }
            out.append(&mut more);
            i += 1;
        }
        proof {
            assert(devices@.take(i as int) =~= devices@);
            self.pass_fits(devices@);
        }
        Ok(out)
    }
}

} // verus!
