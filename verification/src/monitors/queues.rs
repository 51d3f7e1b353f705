//! Statistics of network device queues, from
//! `/sys/class/net/<iface>/queues/{rx|tx}-<id>/*`.
//!
//! Each numeric file of a queue yields a sample of the family
//! `netdev_queue_stat`, with the labels `iface`, `qtype`, `qid` and `key`.

use crate::monitor::{CollectionError, Monitor};
use crate::number::{parse_u64, unsigned, Radix};
use crate::sample::{
    all_fit, all_fit_add, count, fits, Family, FamilyView, Sample, SampleView,
};
use crate::text::{
    chars_of, lemma_views_push, same, split_at_first, split_once, string_of, trim, trimmed, views,
};
use vstd::prelude::*;
use vstd::string::StringExecFns;

verus! {

/// The name of the family.
pub open spec fn family_name() -> Seq<char> {
    "netdev_queue_stat"@
}

/// The family that the monitor fills.
pub open spec fn family() -> FamilyView {
    FamilyView {
        name: family_name(),
        help: "Numeric values from /sys/class/net/<iface>/queues/{rx|tx}-<qid>/*"@,
        label_keys: seq!["iface"@, "qtype"@, "qid"@, "key"@],
    }
}

/// A file in a directory of a queue, as a pass found it.
#[derive(Debug, PartialEq, Eq)]
pub struct QueueFile {
    /// The name of the entry.
    pub name: String,
    /// Whether the entry is a regular file.
    pub is_file: bool,
    /// What the file holds, if it could be read.
    pub content: Option<String>,
}

/// What an entry of a queue's directory is.
#[derive(Debug, PartialEq, Eq)]
pub enum QueueNode {
    /// A regular file, with what it holds if it could be read.
    File(Option<String>),
    /// A directory, with its entries if they could be listed.
    Dir(Option<Vec<QueueFile>>),
    /// Neither.
    Other,
}

/// An entry of a queue's directory, as a pass found it.
#[derive(Debug, PartialEq, Eq)]
pub struct QueueEntry {
    /// The name of the entry.
    pub name: String,
    /// What the entry is.
    pub node: QueueNode,
}

/// An entry of an interface's directory `queues`, as a pass found it.
#[derive(Debug, PartialEq, Eq)]
pub struct QueueDir {
    /// The name of the entry.
    pub name: String,
    /// The entries of the directory, if they could be listed.
    pub entries: Option<Vec<QueueEntry>>,
}

/// An entry of `/sys/class/net`, as a pass found it.
#[derive(Debug, PartialEq, Eq)]
pub struct QueueInterface {
    /// The name of the interface.
    pub name: String,
    /// The entries of its directory `queues`, if they could be listed.
    pub queues: Option<Vec<QueueDir>>,
}

/// The labels that the samples of one queue share.
pub ghost struct QueueLabels {
    pub iface: Seq<char>,
    pub qtype: Seq<char>,
    pub qid: Seq<char>,
}

/// The number that a file holds: its content, without the white space
/// around it, as a decimal integer of 64 bits.
pub open spec fn file_value(content: Option<String>) -> Option<nat> {
    match content {
        Some(text) => unsigned(trimmed(text@), Radix::Decimal, u64::MAX as nat),
        None => None,
    }
}

/// The sample of the file under `key`: none where the file could not be
/// read or holds no number.
pub open spec fn file_samples(q: QueueLabels, key: Seq<char>, content: Option<String>) -> Seq<
    SampleView,
> {
    match file_value(content) {
        Some(v) => seq![count(family_name(), seq![q.iface, q.qtype, q.qid, key], v)],
        None => Seq::empty(),
    }
}

/// The samples of the files of the directory `dir` inside a queue's
/// directory. The key of a file is the directory's name, an underscore and
/// the file's name.
pub open spec fn subdir_samples(q: QueueLabels, dir: Seq<char>, files: Seq<QueueFile>) -> Seq<
    SampleView,
>
    decreases files.len(),
{
    if files.len() == 0 {
        Seq::empty()
    } else {
        let file = files.last();
        subdir_samples(q, dir, files.drop_last()) + (if file.is_file {
            file_samples(q, dir + "_"@ + file.name@, file.content)
        } else {
            Seq::empty()
        })
    }
}

/// The samples of one entry of a queue's directory: that of a file, under
/// the file's name, or those of the files of a directory.
pub open spec fn entry_samples(q: QueueLabels, entry: QueueEntry) -> Seq<SampleView> {
    match entry.node {
        QueueNode::File(content) => file_samples(q, entry.name@, content),
        QueueNode::Dir(Some(files)) => subdir_samples(q, entry.name@, files@),
        QueueNode::Dir(None) => Seq::empty(),
        QueueNode::Other => Seq::empty(),
    }
}

/// The samples of the entries of a queue's directory, in their order.
pub open spec fn queue_dir_samples(q: QueueLabels, entries: Seq<QueueEntry>) -> Seq<SampleView>
    decreases entries.len(),
{
    if entries.len() == 0 {
        Seq::empty()
    } else {
        queue_dir_samples(q, entries.drop_last()) + entry_samples(q, entries.last())
    }
}

/// The type and the id of the queue whose directory has this name: the name
/// is `rx` or `tx`, a hyphen and an id that is not empty.
pub open spec fn queue_name(name: Seq<char>) -> Option<(Seq<char>, Seq<char>)> {
    match split_at_first(name, '-') {
        Some((qtype, qid)) => if (qtype == "rx"@ || qtype == "tx"@) && qid.len() > 0 {
            Some((qtype, qid))
        } else {
            None
        },
        None => None,
    }
}

/// The samples of one entry of an interface's directory `queues`: none
/// where the name is not that of a queue or the entries could not be
/// listed.
pub open spec fn queue_samples(iface: Seq<char>, queue: QueueDir) -> Seq<SampleView> {
    match (queue_name(queue.name@), queue.entries) {
        (Some((qtype, qid)), Some(entries)) => queue_dir_samples(
            QueueLabels { iface, qtype, qid },
            entries@,
        ),
        _ => Seq::empty(),
    }
}

/// The samples of the queues of an interface, in their order.
pub open spec fn queues_samples(iface: Seq<char>, queues: Seq<QueueDir>) -> Seq<SampleView>
    decreases queues.len(),
{
    if queues.len() == 0 {
        Seq::empty()
    } else {
        queues_samples(iface, queues.drop_last()) + queue_samples(iface, queues.last())
    }
}

/// The sample of a file belongs to the family and has its four labels.
pub proof fn file_samples_fit(q: QueueLabels, key: Seq<char>, content: Option<String>)
    ensures
        all_fit(file_samples(q, key, content), seq![family()]),
{
    let families = seq![family()];
    assert forall|i: int| 0 <= i < file_samples(q, key, content).len() implies fits(
        #[trigger] file_samples(q, key, content)[i],
        families,
    ) by {
        assert(families[0].name == family_name());
    }
}

/// The samples of a directory inside a queue's directory fit the family.
pub proof fn subdir_samples_fit(q: QueueLabels, dir: Seq<char>, files: Seq<QueueFile>)
    ensures
        all_fit(subdir_samples(q, dir, files), seq![family()]),
    decreases files.len(),
{
    if files.len() > 0 {
        let file = files.last();
        subdir_samples_fit(q, dir, files.drop_last());
        file_samples_fit(q, dir + "_"@ + file.name@, file.content);
        all_fit_add(
            subdir_samples(q, dir, files.drop_last()),
            if file.is_file {
                file_samples(q, dir + "_"@ + file.name@, file.content)
            } else {
                Seq::empty()
            },
            seq![family()],
        );
    }
}

/// The samples of a queue's directory fit the family.
pub proof fn queue_dir_samples_fit(q: QueueLabels, entries: Seq<QueueEntry>)
    ensures
        all_fit(queue_dir_samples(q, entries), seq![family()]),
    decreases entries.len(),
{
    if entries.len() > 0 {
        let entry = entries.last();
        queue_dir_samples_fit(q, entries.drop_last());
        match entry.node {
            QueueNode::File(content) => file_samples_fit(q, entry.name@, content),
            QueueNode::Dir(Some(files)) => subdir_samples_fit(q, entry.name@, files@),
            QueueNode::Dir(None) => {},
            QueueNode::Other => {},
        }
        all_fit_add(
            queue_dir_samples(q, entries.drop_last()),
            entry_samples(q, entry),
            seq![family()],
        );
    }
}

/// The samples of the queues of an interface fit the family.
pub proof fn queues_samples_fit(iface: Seq<char>, queues: Seq<QueueDir>)
    ensures
        all_fit(queues_samples(iface, queues), seq![family()]),
    decreases queues.len(),
{
    if queues.len() > 0 {
        let queue = queues.last();
        queues_samples_fit(iface, queues.drop_last());
        match (queue_name(queue.name@), queue.entries) {
            (Some((qtype, qid)), Some(entries)) => queue_dir_samples_fit(
                QueueLabels { iface, qtype, qid },
                entries@,
            ),
            _ => {},
        }
        all_fit_add(
            queues_samples(iface, queues.drop_last()),
            queue_samples(iface, queue),
            seq![family()],
        );
    }
}

/// The monitor of network device queues.
#[derive(Debug, PartialEq, Eq)]
pub struct NetSysfsQueuesMonitor {
    /// Whether the loopback interface `lo` is reported too.
    pub include_lo: bool,
}

/// An exec-side copy of the labels of one queue.
pub struct QueueId<'a> {
    pub iface: &'a str,
    pub qtype: &'a str,
    pub qid: &'a str,
}

impl<'a> View for QueueId<'a> {
    type V = QueueLabels;

    open spec fn view(&self) -> QueueLabels {
        QueueLabels { iface: self.iface@, qtype: self.qtype@, qid: self.qid@ }
    }
}

impl NetSysfsQueuesMonitor {
    /// The samples of the interface `iface`: none for `lo` unless it is
    /// asked for, none where the interface has no queues.
    pub open spec fn interface_pass(&self, iface: &QueueInterface) -> Seq<SampleView> {
        if !self.include_lo && iface.name@ == "lo"@ {
            Seq::empty()
        } else {
            match iface.queues {
                Some(queues) => queues_samples(iface.name@, queues@),
                None => Seq::empty(),
            }
        }
    }

    /// The samples of the interfaces `ifaces`, in their order.
    pub open spec fn pass(&self, ifaces: Seq<QueueInterface>) -> Seq<SampleView>
        decreases ifaces.len(),
    {
        if ifaces.len() == 0 {
            Seq::empty()
        } else {
            self.pass(ifaces.drop_last()) + self.interface_pass(&ifaces.last())
        }
    }

    /// Every sample of a pass belongs to the family and has its four labels.
    pub proof fn pass_fits(&self, ifaces: Seq<QueueInterface>)
        ensures
            all_fit(self.pass(ifaces), seq![family()]),
        decreases ifaces.len(),
    {
        if ifaces.len() > 0 {
            let iface = ifaces.last();
            self.pass_fits(ifaces.drop_last());
            match iface.queues {
                Some(queues) => queues_samples_fit(iface.name@, queues@),
                None => {},
            }
            all_fit_add(self.pass(ifaces.drop_last()), self.interface_pass(&iface), seq![family()]);
        }
    }

    /// A monitor that leaves out the loopback interface.
    pub fn new() -> (m: Self)
        ensures
            !m.include_lo,
    {
        NetSysfsQueuesMonitor { include_lo: false }
    }

    /// The directory whose entries a pass reads.
    pub fn root(&self) -> (r: &'static str)
        ensures
            r@ == "/sys/class/net"@,
    {
        "/sys/class/net"
    }

    /// Reads the number that a file with this content holds.
    pub fn read_u64(content: &str) -> (r: Option<u64>)
        ensures
            match r {
                Some(v) => unsigned(trimmed(content@), Radix::Decimal, u64::MAX as nat) == Some(
                    v as nat,
                ),
                None => unsigned(trimmed(content@), Radix::Decimal, u64::MAX as nat).is_none(),
            },
    {
        let text = chars_of(content);
        let body = trim(text.as_slice());
        parse_u64(body.as_slice())
    }

    /// Adds the sample of the file under `key` to `out`, if the file holds
    /// a number.
    pub fn emit_file(q: &QueueId, key: &str, content: &Option<String>, out: &mut Vec<Sample>)
        ensures
            views(final(out)@) == views(old(out)@) + file_samples(q@, key@, *content),
    {
        let value = match content {
            Some(text) => Self::read_u64(text.as_str()),
            None => None,
        };
        match value {
            Some(v) => {
                let labels: Vec<String> = vec![
                    q.iface.to_owned(),
                    q.qtype.to_owned(),
                    q.qid.to_owned(),
                    key.to_owned(),
                ];
                assert(views(labels@) =~= seq![q@.iface, q@.qtype, q@.qid, key@]);
                let sample = Sample::integer("netdev_queue_stat", labels, v as u128);
                proof {
                    lemma_views_push(out@, sample);
                    assert(views(out@) + seq![sample@] =~= views(out@).push(sample@));
                }
                out.push(sample);
            },
            None => {
                assert(views(out@) + Seq::<SampleView>::empty() =~= views(out@));
            },
        }
    }

    /// Adds the samples of the files of the directory `dir` to `out`.
    pub fn scrape_subdir(q: &QueueId, dir: &str, files: &Vec<QueueFile>, out: &mut Vec<Sample>)
        ensures
            views(final(out)@) == views(old(out)@) + subdir_samples(q@, dir@, files@),
    {
        let ghost start = views(out@);
        let mut i: usize = 0;
        assert(files@.take(0) =~= Seq::<QueueFile>::empty());
        assert(start + Seq::<SampleView>::empty() =~= start);
        while i < files.len()
            invariant
                i <= files@.len(),
                views(out@) == start + subdir_samples(q@, dir@, files@.take(i as int)),
            decreases files@.len() - i,
        {
            let ghost before = views(out@);
            let ghost upto = files@.take(i + 1);
            assert(upto.drop_last() =~= files@.take(i as int));
            assert(upto.last() == files@[i as int]);
            let file = &files[i];
            if file.is_file {
                let mut key = dir.to_owned();
                key.append("_");
                key.append(file.name.as_str());
                Self::emit_file(q, key.as_str(), &file.content, out);
                assert(views(out@) =~= start + subdir_samples(q@, dir@, upto));
            } else {
                assert(before + Seq::<SampleView>::empty() =~= before);
            }
            i += 1;
        }
        assert(files@.take(i as int) =~= files@);
    }

    /// Adds the samples of the entries of a queue's directory to `out`.
    pub fn scrape_queue_dir(q: &QueueId, entries: &Vec<QueueEntry>, out: &mut Vec<Sample>)
        ensures
            views(final(out)@) == views(old(out)@) + queue_dir_samples(q@, entries@),
    {
        let ghost start = views(out@);
        let mut i: usize = 0;
        assert(entries@.take(0) =~= Seq::<QueueEntry>::empty());
        assert(start + Seq::<SampleView>::empty() =~= start);
        while i < entries.len()
            invariant
                i <= entries@.len(),
                views(out@) == start + queue_dir_samples(q@, entries@.take(i as int)),
            decreases entries@.len() - i,
        {
            let ghost before = views(out@);
            let ghost upto = entries@.take(i + 1);
            assert(upto.drop_last() =~= entries@.take(i as int));
            assert(upto.last() == entries@[i as int]);
            let entry = &entries[i];
            match &entry.node {
                QueueNode::File(content) => {
                    Self::emit_file(q, entry.name.as_str(), content, out);
                },
                QueueNode::Dir(Some(files)) => {
                    Self::scrape_subdir(q, entry.name.as_str(), files, out);
                },
                QueueNode::Dir(None) => {
                    assert(before + Seq::<SampleView>::empty() =~= before);
                },
                QueueNode::Other => {
                    assert(before + Seq::<SampleView>::empty() =~= before);
                },
            }
            assert(views(out@) =~= start + queue_dir_samples(q@, upto));
            i += 1;
        }
        assert(entries@.take(i as int) =~= entries@);
    }

    /// The type and the id of the queue whose directory has this name.
    pub fn parse_queue_name(name: &str) -> (r: Option<(String, String)>)
        ensures
            match r {
                Some((qtype, qid)) => queue_name(name@) == Some((qtype@, qid@)),
                None => queue_name(name@).is_none(),
            },
    {
        let text = chars_of(name);
        match split_once(text.as_slice(), '-') {
            Some((qtype, qid)) => {
                let rx = chars_of("rx");
                let tx = chars_of("tx");
                if (same(qtype.as_slice(), rx.as_slice()) || same(qtype.as_slice(), tx.as_slice()))
                    && qid.len() > 0 {
                    Some((string_of(qtype.as_slice()), string_of(qid.as_slice())))
                } else {
                    None
                }
            },
            None => None,
        }
    }

    /// Adds the samples of the queues of the interface `iface` to `out`.
    pub fn scrape_queues(iface: &str, queues: &Vec<QueueDir>, out: &mut Vec<Sample>)
        ensures
            views(final(out)@) == views(old(out)@) + queues_samples(iface@, queues@),
    {
        let ghost start = views(out@);
        let mut i: usize = 0;
        assert(queues@.take(0) =~= Seq::<QueueDir>::empty());
        assert(start + Seq::<SampleView>::empty() =~= start);
        while i < queues.len()
            invariant
                i <= queues@.len(),
                views(out@) == start + queues_samples(iface@, queues@.take(i as int)),
            decreases queues@.len() - i,
        {
            let ghost before = views(out@);
            let ghost upto = queues@.take(i + 1);
            assert(upto.drop_last() =~= queues@.take(i as int));
            assert(upto.last() == queues@[i as int]);
            let queue = &queues[i];
            match (Self::parse_queue_name(queue.name.as_str()), &queue.entries) {
                (Some((qtype, qid)), Some(entries)) => {
                    let q = QueueId { iface, qtype: qtype.as_str(), qid: qid.as_str() };
                    Self::scrape_queue_dir(&q, entries, out);
                },
                _ => {
                    assert(before + Seq::<SampleView>::empty() =~= before);
                },
            }
            assert(views(out@) =~= start + queues_samples(iface@, upto));
            i += 1;
        }
        assert(queues@.take(i as int) =~= queues@);
    }
}

impl Monitor for NetSysfsQueuesMonitor {
    type Source = Vec<QueueInterface>;

    open spec fn families(&self) -> Seq<FamilyView> {
        seq![family()]
    }

    open spec fn samples(&self, source: &Vec<QueueInterface>) -> Seq<SampleView> {
        self.pass(source@)
    }

    fn name(&self) -> (r: &'static str)
        ensures
            r@ == "net_sysfs_queues"@,
    {
        "net_sysfs_queues"
    }

    fn describe(&self) -> (r: Vec<Family>) {
        let r = vec![
            Family {
                name: "netdev_queue_stat",
                help: "Numeric values from /sys/class/net/<iface>/queues/{rx|tx}-<qid>/*",
                label_keys: vec!["iface", "qtype", "qid", "key"],
            },
        ];
        assert(views(r@[0].label_keys@) =~= seq!["iface"@, "qtype"@, "qid"@, "key"@]);
        assert(views(r@) =~= seq![family()]);
        r
    }

    fn collect(&mut self, source: Option<&Vec<QueueInterface>>) -> (r: Result<
        Vec<Sample>,
        CollectionError,
    >) {
        let ifaces = match source {
            Some(ifaces) => ifaces,
            None => {
                return Err(CollectionError::SourceUnreadable);
            },
        };
        let mut out: Vec<Sample> = Vec::new();
        let mut i: usize = 0;
        assert(ifaces@.take(0) =~= Seq::<QueueInterface>::empty());
        assert(views(out@) =~= Seq::<SampleView>::empty());
        let lo = chars_of("lo");
        while i < ifaces.len()
            invariant
                i <= ifaces@.len(),
                lo@ == "lo"@,
                views(out@) == self.pass(ifaces@.take(i as int)),
            decreases ifaces@.len() - i,
        {
            let ghost before = views(out@);
            let ghost upto = ifaces@.take(i + 1);
            assert(upto.drop_last() =~= ifaces@.take(i as int));
            assert(upto.last() == ifaces@[i as int]);
            let iface = &ifaces[i];
            let name = chars_of(iface.name.as_str());
            if !self.include_lo && same(name.as_slice(), lo.as_slice()) {
                assert(before + Seq::<SampleView>::empty() =~= before);
            } else {
                match &iface.queues {
                    Some(queues) => {
                        NetSysfsQueuesMonitor::scrape_queues(iface.name.as_str(), queues, &mut out);
                    },
                    None => {
                        assert(before + Seq::<SampleView>::empty() =~= before);
                    },
                }
            }
            i += 1;
        }
        proof {
            assert(ifaces@.take(i as int) =~= ifaces@);
            self.pass_fits(ifaces@);
        }
        Ok(out)
    }
}

} // verus!
