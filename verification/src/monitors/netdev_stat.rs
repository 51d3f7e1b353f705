//! Statistics of network devices, from
//! `/sys/class/net/<iface>/statistics/*`.
//!
//! Each file of an interface yields a sample of the family `netdev_stat`,
//! with the labels `iface` and `key`; the key is the file's name.

use crate::monitor::{CollectionError, Monitor};
use crate::number::{parse_u64, unsigned, Radix};
use crate::sample::{
    all_fit, all_fit_add, count, fits, Family, FamilyView, Sample, SampleView,
};
use crate::text::{chars_of, same, trim, trimmed, views};
use vstd::prelude::*;

verus! {

/// The name of the family.
pub open spec fn family_name() -> Seq<char> {
    "netdev_stat"@
}

/// The family that the monitor fills.
pub open spec fn family() -> FamilyView {
    FamilyView {
        name: family_name(),
        help: "Values from /sys/class/net/<iface>/statistics/* (bytes/packets/errors/drops, etc.)"@,
        label_keys: seq!["iface"@, "key"@],
    }
}

/// A file of an interface's directory `statistics`, as a pass found it.
#[derive(Debug, PartialEq, Eq)]
pub struct StatFile {
    /// The name of the file.
    pub name: String,
    /// What the file holds, if it could be read.
    pub content: Option<String>,
}

/// An entry of `/sys/class/net`, as a pass found it.
#[derive(Debug, PartialEq, Eq)]
pub struct NetInterface {
    /// The name of the interface.
    pub name: String,
    /// Whether the entry holds a link `device`, which a purely virtual
    /// interface lacks.
    pub has_device: bool,
    /// The files of its directory `statistics`, if they could be listed.
    pub statistics: Option<Vec<StatFile>>,
}

/// The number that a file holds: its content, without the white space
/// around it, as a decimal integer of 64 bits.
pub open spec fn stat_value(file: StatFile) -> Option<nat> {
    match file.content {
        Some(text) => unsigned(trimmed(text@), Radix::Decimal, u64::MAX as nat),
        None => None,
    }
}

/// Whether every one of `files` holds a number.
pub open spec fn all_readable(files: Seq<StatFile>) -> bool {
    forall|i: int| 0 <= i < files.len() ==> (#[trigger] stat_value(files[i])).is_some()
}

/// The samples of the interface `iface` whose statistics are `files`: one
/// for each file, in order. An interface with a file that could not be
/// read or holds no number yields no sample at all.
pub open spec fn statistics_samples(iface: Seq<char>, files: Seq<StatFile>) -> Seq<SampleView> {
    if all_readable(files) {
        Seq::new(
            files.len(),
            |i: int| count(family_name(), seq![iface, files[i].name@], stat_value(files[i])->0),
        )
    } else {
        Seq::empty()
    }
}

/// Every sample of an interface belongs to the family and has its two
/// labels.
pub proof fn statistics_samples_fit(iface: Seq<char>, files: Seq<StatFile>)
    ensures
        all_fit(statistics_samples(iface, files), seq![family()]),
{
    let families = seq![family()];
    assert forall|i: int| 0 <= i < statistics_samples(iface, files).len() implies fits(
        #[trigger] statistics_samples(iface, files)[i],
        families,
    ) by {
        assert(families[0].name == family_name());
    }
}

/// The monitor of network device statistics.
#[derive(Debug, PartialEq, Eq)]
pub struct NetSysfsStatsMonitor {
    /// Whether the loopback interface `lo` is reported too.
    pub include_lo: bool,
}

impl NetSysfsStatsMonitor {
    /// The samples of the interface `iface`: none for `lo` unless it is
    /// asked for, none for an interface without a device, none where the
    /// statistics could not be listed.
    pub open spec fn interface_pass(&self, iface: &NetInterface) -> Seq<SampleView> {
        if !self.include_lo && iface.name@ == "lo"@ {
            Seq::empty()
        } else if !iface.has_device {
            Seq::empty()
        } else {
            match iface.statistics {
                Some(files) => statistics_samples(iface.name@, files@),
                None => Seq::empty(),
            }
        }
    }

    /// The samples of the interfaces `ifaces`, in their order.
    pub open spec fn pass(&self, ifaces: Seq<NetInterface>) -> Seq<SampleView>
        decreases ifaces.len(),
    {
        if ifaces.len() == 0 {
            Seq::empty()
        } else {
            self.pass(ifaces.drop_last()) + self.interface_pass(&ifaces.last())
        }
    }

    /// Every sample of a pass belongs to the family and has its two labels.
    pub proof fn pass_fits(&self, ifaces: Seq<NetInterface>)
        ensures
            all_fit(self.pass(ifaces), seq![family()]),
        decreases ifaces.len(),
    {
        if ifaces.len() > 0 {
            let iface = ifaces.last();
            self.pass_fits(ifaces.drop_last());
            match iface.statistics {
                Some(files) => statistics_samples_fit(iface.name@, files@),
                None => {},
            }
            all_fit_add(self.pass(ifaces.drop_last()), self.interface_pass(&iface), seq![family()]);
        }
    }

    /// A monitor that leaves out the loopback interface.
    pub fn new() -> (m: Self)
        ensures
            !m.include_lo,
    {
        NetSysfsStatsMonitor { include_lo: false }
    }

    /// The directory whose entries a pass reads.
    pub fn root(&self) -> (r: &'static str)
        ensures
            r@ == "/sys/class/net"@,
    {
        "/sys/class/net"
    }

    /// Reads the number that a file with this content holds.
    pub fn read_u64(content: &str) -> (r: Option<u64>)
        ensures
            match r {
                Some(v) => unsigned(trimmed(content@), Radix::Decimal, u64::MAX as nat) == Some(
                    v as nat,
                ),
                None => unsigned(trimmed(content@), Radix::Decimal, u64::MAX as nat).is_none(),
            },
    {
        let text = chars_of(content);
        let body = trim(text.as_slice());
        parse_u64(body.as_slice())
    }

    /// Reads the numbers that `files` hold, if all of them hold one.
    fn read_all(files: &Vec<StatFile>) -> (r: Option<Vec<u64>>)
        ensures
            match r {
                Some(vals) => {
                    &&& all_readable(files@)
                    &&& vals@.len() == files@.len()
                    &&& forall|i: int|
                        0 <= i < files@.len() ==> stat_value(#[trigger] files@[i]) == Some(
                            vals@[i] as nat,
                        )
                },
                None => !all_readable(files@),
            },
    {
        let mut vals: Vec<u64> = Vec::new();
        let mut i: usize = 0;
        while i < files.len()
            invariant
                i <= files@.len(),
                vals@.len() == i,
                forall|j: int|
                    0 <= j < i ==> stat_value(#[trigger] files@[j]) == Some(vals@[j] as nat),
            decreases files@.len() - i,
        {
            let value = match &files[i].content {
                Some(text) => Self::read_u64(text.as_str()),
                None => None,
            };
            match value {
                Some(v) => {
                    vals.push(v);
                },
                None => {
                    assert(stat_value(files@[i as int]).is_none());
                    return None;
                },
            }
            i += 1;
        }
        Some(vals)
    }

    /// The samples of the interface `iface` whose statistics are `files`.
    pub fn samples_of(iface: &str, files: &Vec<StatFile>) -> (out: Vec<Sample>)
        ensures
            views(out@) == statistics_samples(iface@, files@),
    {
        let vals = match Self::read_all(files) {
            Some(vals) => vals,
            None => {
                return Vec::new();
            },
        };
        let mut out: Vec<Sample> = Vec::new();
        let mut i: usize = 0;
        while i < files.len()
            invariant
                i <= files@.len(),
                vals@.len() == files@.len(),
                out@.len() == i,
                forall|j: int|
                    0 <= j < i ==> (#[trigger] out@[j])@ == count(
                        family_name(),
                        seq![iface@, files@[j].name@],
                        vals@[j] as nat,
                    ),
            decreases files@.len() - i,
        {
            let labels: Vec<String> = vec![iface.to_owned(), files[i].name.clone()];
            assert(views(labels@) =~= seq![iface@, files@[i as int].name@]);
            out.push(Sample::integer("netdev_stat", labels, vals[i] as u128));
            i += 1;
        }
        assert(views(out@) =~= statistics_samples(iface@, files@));
        out
    }

    /// The samples that the entry `iface` yields.
    pub fn scan_interface(&self, iface: &NetInterface) -> (out: Vec<Sample>)
        ensures
            views(out@) == self.interface_pass(iface),
    {
        let name = chars_of(iface.name.as_str());
        let lo = chars_of("lo");
        if !self.include_lo && same(name.as_slice(), lo.as_slice()) {
            return Vec::new();
        }
        if !iface.has_device {
            return Vec::new();
        }
        match &iface.statistics {
            Some(files) => Self::samples_of(iface.name.as_str(), files),
            None => Vec::new(),
        }
    }
}

impl Monitor for NetSysfsStatsMonitor {
    type Source = Vec<NetInterface>;

    open spec fn families(&self) -> Seq<FamilyView> {
        seq![family()]
    }

    open spec fn samples(&self, source: &Vec<NetInterface>) -> Seq<SampleView> {
        self.pass(source@)
    }

    fn name(&self) -> (r: &'static str)
        ensures
            r@ == "net_sysfs"@,
    {
        "net_sysfs"
    }

    fn describe(&self) -> (r: Vec<Family>) {
        let r = vec![
            Family {
                name: "netdev_stat",
                help: "Values from /sys/class/net/<iface>/statistics/* (bytes/packets/errors/drops, etc.)",
                label_keys: vec!["iface", "key"],
            },
        ];
        assert(views(r@[0].label_keys@) =~= seq!["iface"@, "key"@]);
        assert(views(r@) =~= seq![family()]);
        r
    }

    fn collect(&mut self, source: Option<&Vec<NetInterface>>) -> (r: Result<
        Vec<Sample>,
        CollectionError,
    >) {
        let ifaces = match source {
            Some(ifaces) => ifaces,
            None => {
                return Err(CollectionError::SourceUnreadable);
            },
        };
        let mut out: Vec<Sample> = Vec::new();
        let mut i: usize = 0;
        assert(ifaces@.take(0) =~= Seq::<NetInterface>::empty());
        while i < ifaces.len()
            invariant
                i <= ifaces@.len(),
                views(out@) == self.pass(ifaces@.take(i as int)),
            decreases ifaces@.len() - i,
        {
            let mut more = self.scan_interface(&ifaces[i]);
            proof {
                let upto = ifaces@.take(i + 1);
                assert(upto.drop_last() =~= ifaces@.take(i as int));
                assert(upto.last() == ifaces@[i as int]);
                assert(views(out@ + more@) =~= views(out@) + views(more@));
            }
            out.append(&mut more);
            i += 1;
        }
        proof {
            assert(ifaces@.take(i as int) =~= ifaces@);
            self.pass_fits(ifaces@);
        }
        Ok(out)
    }
}

} // verus!
