//! Scheduler statistics of processes, from `/proc/<pid>/comm` and
//! `/proc/<pid>/sched`.
//!
//! Each process whose command name begins with the configured filter yields
//! one sample in each of five families, with the labels `comm` and `pid`.

use crate::monitor::{CollectionError, Monitor};
use crate::number::{
    decimal_of, decimal_text, float_literal, is_float_literal, parse_u64, parse_unsigned,
    unsigned, Radix,
};
use crate::sample::{
    all_fit, all_fit_add, count, fits, reading, Family, FamilyView, Sample, SampleView,
};
use crate::text::{
    chars_of, lines, same, split_at_first, split_lines, split_once, starts_with, string_of,
    texts, trim, trimmed, views,
};
use vstd::prelude::*;

verus! {

/// The fields of a `sched` file that a sample is made of.
#[derive(Debug, Clone, Copy, PartialEq, Eq, Structural)]
pub enum SchedField {
    /// `se.nr_migrations`
    NrMigrations,
    /// `nr_switches`
    NrSwitches,
    /// `nr_involuntary_switches`
    NrInvoluntarySwitches,
    /// `nr_voluntary_switches`
    NrVoluntarySwitches,
    /// `se.sum_exec_runtime`
    SumExecRuntime,
}

/// Why a `sched` file yields no statistics.
#[derive(Debug, Clone, Copy, PartialEq, Eq, Structural)]
pub enum SchedError {
    /// The file has no usable line for this field.
    Missing(SchedField),
}

/// The scheduler statistics of one process.
#[derive(Debug, PartialEq, Eq)]
pub struct ProcessSched {
    pub nr_migrations: u64,
    pub nr_switches: u64,
    pub nr_involuntary_switches: u64,
    pub nr_voluntary_switches: u64,
    /// The run time, as the floating-point literal that the file holds.
    pub sum_exec_runtime: String,
}

/// What a [`ProcessSched`] stands for.
pub ghost struct ProcessSchedView {
    pub nr_migrations: nat,
    pub nr_switches: nat,
    pub nr_involuntary_switches: nat,
    pub nr_voluntary_switches: nat,
    pub sum_exec_runtime: Seq<char>,
}

impl View for ProcessSched {
    type V = ProcessSchedView;

    open spec fn view(&self) -> ProcessSchedView {
        ProcessSchedView {
            nr_migrations: self.nr_migrations as nat,
            nr_switches: self.nr_switches as nat,
            nr_involuntary_switches: self.nr_involuntary_switches as nat,
            nr_voluntary_switches: self.nr_voluntary_switches as nat,
            sum_exec_runtime: self.sum_exec_runtime@,
        }
    }
}

/// What has been found of the five fields so far.
pub ghost struct Found {
    pub nr_migrations: Option<nat>,
    pub nr_switches: Option<nat>,
    pub nr_involuntary_switches: Option<nat>,
    pub nr_voluntary_switches: Option<nat>,
    pub sum_exec_runtime: Option<Seq<char>>,
}

impl Found {
    /// Nothing found.
    pub open spec fn nothing() -> Found {
        Found {
            nr_migrations: None,
            nr_switches: None,
            nr_involuntary_switches: None,
            nr_voluntary_switches: None,
            sum_exec_runtime: None,
        }
    }

    /// Whether all five fields have been found.
    pub open spec fn complete(self) -> bool {
        &&& self.nr_migrations.is_some()
        &&& self.nr_switches.is_some()
        &&& self.nr_involuntary_switches.is_some()
        &&& self.nr_voluntary_switches.is_some()
        &&& self.sum_exec_runtime.is_some()
    }

    /// What is found once `line` has been read. A line is `key : value`;
    /// one without a colon, or with another key, changes nothing. The line
    /// of a field replaces what was found for that field before: by its
    /// value, or by nothing where the value is not a number.
    pub open spec fn with_line(self, line: Seq<char>) -> Found {
        match split_at_first(line, ':') {
            None => self,
            Some((k, v)) => {
                let key = trimmed(k);
                let value = trimmed(v);
                let number = unsigned(value, Radix::Decimal, u64::MAX as nat);
                if key == "se.nr_migrations"@ {
                    Found { nr_migrations: number, ..self }
                } else if key == "nr_switches"@ {
                    Found { nr_switches: number, ..self }
                } else if key == "nr_involuntary_switches"@ {
                    Found { nr_involuntary_switches: number, ..self }
                } else if key == "nr_voluntary_switches"@ {
                    Found { nr_voluntary_switches: number, ..self }
                } else if key == "se.sum_exec_runtime"@ {
                    Found {
                        sum_exec_runtime: if is_float_literal(value) {
                            Some(value)
                        } else {
                            None
                        },
                        ..self
                    }
                } else {
                    self
                }
            },
        }
    }

    /// What is found once `rows` have been read in order. Reading stops as
    /// soon as all five fields have been found.
    pub open spec fn after(rows: Seq<Seq<char>>) -> Found
        decreases rows.len(),
    {
        if rows.len() == 0 {
            Found::nothing()
        } else {
            let before = Found::after(rows.drop_last());
            if before.complete() {
                before
            } else {
                before.with_line(rows.last())
            }
        }
    }

    /// The statistics, or the first field that is missing.
    pub open spec fn outcome(self) -> Result<ProcessSchedView, SchedError> {
        if self.nr_migrations.is_none() {
            Err(SchedError::Missing(SchedField::NrMigrations))
        } else if self.nr_switches.is_none() {
            Err(SchedError::Missing(SchedField::NrSwitches))
        } else if self.nr_involuntary_switches.is_none() {
            Err(SchedError::Missing(SchedField::NrInvoluntarySwitches))
        } else if self.nr_voluntary_switches.is_none() {
            Err(SchedError::Missing(SchedField::NrVoluntarySwitches))
        } else if self.sum_exec_runtime.is_none() {
            Err(SchedError::Missing(SchedField::SumExecRuntime))
        } else {
            Ok(
                ProcessSchedView {
                    nr_migrations: self.nr_migrations->0,
                    nr_switches: self.nr_switches->0,
                    nr_involuntary_switches: self.nr_involuntary_switches->0,
                    nr_voluntary_switches: self.nr_voluntary_switches->0,
                    sum_exec_runtime: self.sum_exec_runtime->0,
                },
            )
        }
    }

    /// Once all five fields have been found, further rows change nothing.
    pub proof fn complete_stays(rows: Seq<Seq<char>>, n: int)
        requires
            0 <= n <= rows.len(),
            Found::after(rows.take(n)).complete(),
        ensures
            Found::after(rows) == Found::after(rows.take(n)),
        decreases rows.len() - n,
    {
        if n == rows.len() {
            assert(rows.take(n) =~= rows);
        } else {
            assert(rows.drop_last().take(n) =~= rows.take(n));
            Found::complete_stays(rows.drop_last(), n);
        }
    }
}

/// The rows of a `sched` file: its lines but the first, which is a heading.
pub open spec fn sched_rows(content: Seq<char>) -> Seq<Seq<char>> {
    let all = lines(content);
    if all.len() > 0 {
        all.skip(1)
    } else {
        all
    }
}

/// The statistics that a `sched` file with this content holds, or the first
/// of the five fields that it lacks.
pub open spec fn sched_of(content: Seq<char>) -> Result<ProcessSchedView, SchedError> {
    Found::after(sched_rows(content)).outcome()
}

/// What has been found of the five fields so far.
struct Fields {
    nr_migrations: Option<u64>,
    nr_switches: Option<u64>,
    nr_involuntary_switches: Option<u64>,
    nr_voluntary_switches: Option<u64>,
    sum_exec_runtime: Option<String>,
}

impl View for Fields {
    type V = Found;

    closed spec fn view(&self) -> Found {
        Found {
            nr_migrations: match self.nr_migrations {
                Some(v) => Some(v as nat),
                None => None,
            },
            nr_switches: match self.nr_switches {
                Some(v) => Some(v as nat),
                None => None,
            },
            nr_involuntary_switches: match self.nr_involuntary_switches {
                Some(v) => Some(v as nat),
                None => None,
            },
            nr_voluntary_switches: match self.nr_voluntary_switches {
                Some(v) => Some(v as nat),
                None => None,
            },
            sum_exec_runtime: match self.sum_exec_runtime {
                Some(v) => Some(v@),
                None => None,
            },
        }
    }
}

impl Fields {
    /// Tests whether all five fields have been found.
    fn complete(&self) -> (r: bool)
        ensures
            r == self@.complete(),
    {
        self.nr_migrations.is_some() && self.nr_switches.is_some()
            && self.nr_involuntary_switches.is_some() && self.nr_voluntary_switches.is_some()
            && self.sum_exec_runtime.is_some()
    }

    /// Takes in one line of the file.
    fn read_line(&mut self, line: &[char])
        ensures
            final(self)@ == old(self)@.with_line(line@),
    {
        let (k, v) = match split_once(line, ':') {
            Some(halves) => halves,
            None => {
                return ;
            },
        };
        let key = trim(k.as_slice());
        let value = trim(v.as_slice());
        if same(key.as_slice(), chars_of("se.nr_migrations").as_slice()) {
            self.nr_migrations = parse_u64(value.as_slice());
        } else if same(key.as_slice(), chars_of("nr_switches").as_slice()) {
            self.nr_switches = parse_u64(value.as_slice());
        } else if same(key.as_slice(), chars_of("nr_involuntary_switches").as_slice()) {
            self.nr_involuntary_switches = parse_u64(value.as_slice());
        } else if same(key.as_slice(), chars_of("nr_voluntary_switches").as_slice()) {
            self.nr_voluntary_switches = parse_u64(value.as_slice());
        } else if same(key.as_slice(), chars_of("se.sum_exec_runtime").as_slice()) {
            self.sum_exec_runtime = if float_literal(value.as_slice()) {
                Some(string_of(value.as_slice()))
            } else {
                None
            };
        }
    }
}

/// The names of the five families, in the order of the samples of a
/// process.
pub open spec fn family_names() -> Seq<Seq<char>> {
    seq![
        "proc_sched_nr_migrations"@,
        "proc_sched_nr_switches"@,
        "proc_sched_nr_involuntary_switches"@,
        "proc_sched_nr_voluntary_switches"@,
        "proc_sum_exec_runtime"@,
    ]
}

/// The help texts of the five families, in the same order.
pub open spec fn family_helps() -> Seq<Seq<char>> {
    seq![
        "se.nr_migrations from /proc/<pid>/sched"@,
        "nr_switches from /proc/<pid>/sched"@,
        "nr_involuntary_switches from /proc/<pid>/sched"@,
        "nr_voluntary_switches from /proc/<pid>/sched"@,
        "se.sum_exec_runtime from /proc/<pid>/sched"@,
    ]
}

/// The five families: each has the labels `comm` and `pid`.
pub open spec fn sched_families() -> Seq<FamilyView> {
    Seq::new(
        5,
        |i: int|
            FamilyView {
                name: family_names()[i],
                help: family_helps()[i],
                label_keys: seq!["comm"@, "pid"@],
            },
    )
}

/// The samples of the process `pid` with the command name `comm` and the
/// statistics `s`: one in each family.
pub open spec fn sched_samples(comm: Seq<char>, pid: nat, s: ProcessSchedView) -> Seq<
    SampleView,
> {
    let labels = seq![comm, decimal_text(pid)];
    seq![
        count(family_names()[0], labels, s.nr_migrations),
        count(family_names()[1], labels, s.nr_switches),
        count(family_names()[2], labels, s.nr_involuntary_switches),
        count(family_names()[3], labels, s.nr_voluntary_switches),
        reading(family_names()[4], labels, s.sum_exec_runtime),
    ]
}

/// The samples of a process belong to the five families and have their two
/// labels.
pub proof fn sched_samples_fit(comm: Seq<char>, pid: nat, s: ProcessSchedView)
    ensures
        all_fit(sched_samples(comm, pid, s), sched_families()),
{
    let families = sched_families();
    let samples = sched_samples(comm, pid, s);
    assert forall|i: int| 0 <= i < samples.len() implies fits(#[trigger] samples[i], families) by {
        assert(families[i].name == samples[i].family);
    }
}

/// One entry of `/proc`, as a pass found it.
#[derive(Debug, PartialEq, Eq)]
pub struct ProcEntry {
    /// The name of the entry.
    pub name: String,
    /// Whether the entry is a directory.
    pub is_dir: bool,
    /// What the entry's file `comm` holds, if it could be read.
    pub comm: Option<String>,
    /// What the entry's file `sched` holds, if it could be read.
    pub sched: Option<String>,
}

/// The monitor of processes' scheduler statistics.
#[derive(Debug, PartialEq, Eq)]
pub struct ProcessSchedMonitor {
    proc_name_filter: String,
}

impl ProcessSchedMonitor {
    /// What a process's command name must begin with to be reported.
    pub closed spec fn filter(&self) -> Seq<char> {
        self.proc_name_filter@
    }

    /// The samples that the entry `entry` yields: those of its process,
    /// where the entry is a directory named by a process id, its command
    /// name could be read and begins with the filter, and its statistics
    /// could be read and are complete.
    pub open spec fn entry_pass(&self, entry: &ProcEntry) -> Seq<SampleView> {
        if !entry.is_dir {
            Seq::empty()
        } else {
            match (unsigned(entry.name@, Radix::Decimal, u32::MAX as nat), entry.comm, entry.sched) {
                (Some(pid), Some(raw), Some(content)) => {
                    let comm = trimmed(raw@);
                    if self.filter().is_prefix_of(comm) {
                        match sched_of(content@) {
                            Ok(s) => sched_samples(comm, pid, s),
                            Err(_) => Seq::empty(),
                        }
                    } else {
                        Seq::empty()
                    }
                },
                _ => Seq::empty(),
            }
        }
    }

    /// The samples that the entries `entries` yield, in their order.
    pub open spec fn pass(&self, entries: Seq<ProcEntry>) -> Seq<SampleView>
        decreases entries.len(),
    {
        if entries.len() == 0 {
            Seq::empty()
        } else {
            self.pass(entries.drop_last()) + self.entry_pass(&entries.last())
        }
    }

    /// Every sample of a pass belongs to one of the five families and has
    /// its two labels.
    pub proof fn pass_fits(&self, entries: Seq<ProcEntry>)
        ensures
            all_fit(self.pass(entries), sched_families()),
        decreases entries.len(),
    {
        if entries.len() > 0 {
            let entry = entries.last();
            self.pass_fits(entries.drop_last());
            match (unsigned(entry.name@, Radix::Decimal, u32::MAX as nat), entry.comm, entry.sched) {
                (Some(pid), Some(raw), Some(content)) => {
                    match sched_of(content@) {
                        Ok(s) => sched_samples_fit(trimmed(raw@), pid, s),
                        Err(_) => {},
                    }
                },
                _ => {},
            }
            all_fit_add(self.pass(entries.drop_last()), self.entry_pass(&entry), sched_families());
        }
    }

    /// A monitor of the processes whose command name begins with
    /// `proc_name`.
    pub fn new(proc_name: String) -> (m: Self)
        ensures
            m.filter() == proc_name@,
    {
        ProcessSchedMonitor { proc_name_filter: proc_name }
    }

    /// The directory whose entries a pass reads.
    pub fn root(&self) -> (r: &'static str)
        ensures
            r@ == "/proc"@,
    {
        "/proc"
    }

    /// The process id that an entry of this name stands for, if it stands
    /// for one.
    pub fn pid_of(name: &str) -> (r: Option<u32>)
        ensures
            match r {
                Some(pid) => unsigned(name@, Radix::Decimal, u32::MAX as nat) == Some(pid as nat),
                None => unsigned(name@, Radix::Decimal, u32::MAX as nat).is_none(),
            },
    {
        let text = chars_of(name);
        match parse_unsigned(text.as_slice(), Radix::Decimal, 0xffff_ffff) {
            Some(v) => Some(v as u32),
            None => None,
        }
    }

    /// The command name that a `comm` file with this content holds: the
    /// content without the white space around it.
    pub fn read_comm(content: &str) -> (r: String)
        ensures
            r@ == trimmed(content@),
    {
        let text = chars_of(content);
        let comm = trim(text.as_slice());
        string_of(comm.as_slice())
    }

    /// Tests whether a process with this command name is reported.
    pub fn matches(&self, comm: &str) -> (r: bool)
        ensures
            r == self.filter().is_prefix_of(comm@),
    {
        let name = chars_of(comm);
        let filter = chars_of(self.proc_name_filter.as_str());
        starts_with(name.as_slice(), filter.as_slice())
    }

    /// Reads the statistics that a `sched` file holds.
    pub fn parse_sched(content: &str) -> (r: Result<ProcessSched, SchedError>)
        ensures
            match r {
                Ok(s) => sched_of(content@) == Ok::<ProcessSchedView, SchedError>(s@),
                Err(e) => sched_of(content@) == Err::<ProcessSchedView, SchedError>(e),
            },
    {
        let text = chars_of(content);
        let all = split_lines(text.as_slice());
        let ghost rows = sched_rows(content@);
        let mut found = Fields {
            nr_migrations: None,
            nr_switches: None,
            nr_involuntary_switches: None,
            nr_voluntary_switches: None,
            sum_exec_runtime: None,
        };
        let mut i: usize = 1;
        assert(rows.take(0) =~= Seq::<Seq<char>>::empty());
        while i < all.len() && !found.complete()
            invariant
                1 <= i,
                texts(all@) == lines(content@),
                rows == sched_rows(content@),
                i <= all@.len() ==> found@ == Found::after(rows.take(i - 1)),
                i > all@.len() ==> all@.len() == 0 && found@ == Found::nothing(),
            decreases all@.len() - i,
        {
            proof {
                let upto = rows.take(i as int);
                assert(upto.drop_last() =~= rows.take(i - 1));
                assert(upto.last() == all@[i as int]@);
            }
            found.read_line(all[i].as_slice());
            i += 1;
        }
        proof {
            if all@.len() > 0 {
                if found@.complete() {
                    Found::complete_stays(rows, i - 1);
                } else {
                    assert(rows.take(i - 1) =~= rows);
                }
            }
            assert(found@ == Found::after(rows));
        }
        let Fields {
            nr_migrations,
            nr_switches,
            nr_involuntary_switches,
            nr_voluntary_switches,
            sum_exec_runtime,
        } = found;
        match (
            nr_migrations,
            nr_switches,
            nr_involuntary_switches,
            nr_voluntary_switches,
            sum_exec_runtime,
        ) {
            (None, _, _, _, _) => Err(SchedError::Missing(SchedField::NrMigrations)),
            (_, None, _, _, _) => Err(SchedError::Missing(SchedField::NrSwitches)),
            (_, _, None, _, _) => Err(SchedError::Missing(SchedField::NrInvoluntarySwitches)),
            (_, _, _, None, _) => Err(SchedError::Missing(SchedField::NrVoluntarySwitches)),
            (_, _, _, _, None) => Err(SchedError::Missing(SchedField::SumExecRuntime)),
            (Some(a), Some(b), Some(c), Some(d), Some(e)) => Ok(
                ProcessSched {
                    nr_migrations: a,
                    nr_switches: b,
                    nr_involuntary_switches: c,
                    nr_voluntary_switches: d,
                    sum_exec_runtime: e,
                },
            ),
        }
    }

    /// The samples of the process `pid` with the command name `comm` and
    /// the statistics `s`.
    pub fn samples_of(comm: &str, pid: u32, s: &ProcessSched) -> (out: Vec<Sample>)
        ensures
            views(out@) == sched_samples(comm@, pid as nat, s@),
    {
        let pid_text = decimal_of(pid as u64);
        let pid_label = string_of(pid_text.as_slice());
        let mut out: Vec<Sample> = Vec::new();
        let ghost labels = seq![comm@, decimal_text(pid as nat)];
        let l0: Vec<String> = vec![comm.to_owned(), pid_label.clone()];
        let l1: Vec<String> = vec![comm.to_owned(), pid_label.clone()];
        let l2: Vec<String> = vec![comm.to_owned(), pid_label.clone()];
        let l3: Vec<String> = vec![comm.to_owned(), pid_label.clone()];
        let l4: Vec<String> = vec![comm.to_owned(), pid_label];
        assert(views(l0@) =~= labels);
        assert(views(l1@) =~= labels);
        assert(views(l2@) =~= labels);
        assert(views(l3@) =~= labels);
        assert(views(l4@) =~= labels);
        out.push(Sample::integer("proc_sched_nr_migrations", l0, s.nr_migrations as u128));
        out.push(Sample::integer("proc_sched_nr_switches", l1, s.nr_switches as u128));
        out.push(
            Sample::integer(
                "proc_sched_nr_involuntary_switches",
                l2,
                s.nr_involuntary_switches as u128,
            ),
        );
        out.push(
            Sample::integer("proc_sched_nr_voluntary_switches", l3, s.nr_voluntary_switches as u128),
        );
        out.push(Sample::literal("proc_sum_exec_runtime", l4, s.sum_exec_runtime.clone()));
        assert(views(out@) =~= sched_samples(comm@, pid as nat, s@));
        out
    }

    /// The samples that the entry `entry` yields.
    pub fn scan_entry(&self, entry: &ProcEntry) -> (out: Vec<Sample>)
        ensures
            views(out@) == self.entry_pass(entry),
    {
        if !entry.is_dir {
            return Vec::new();
        }
        let pid = match Self::pid_of(entry.name.as_str()) {
            Some(pid) => pid,
            None => {
                return Vec::new();
            },
        };
        let comm = match &entry.comm {
            Some(raw) => Self::read_comm(raw.as_str()),
            None => {
                return Vec::new();
            },
        };
        if !self.matches(comm.as_str()) {
            return Vec::new();
        }
        match &entry.sched {
            Some(content) => match Self::parse_sched(content.as_str()) {
                Ok(s) => Self::samples_of(comm.as_str(), pid, &s),
                Err(_) => Vec::new(),
            },
            None => Vec::new(),
        }
    }
}

impl Monitor for ProcessSchedMonitor {
    type Source = Vec<ProcEntry>;

    open spec fn families(&self) -> Seq<FamilyView> {
        sched_families()
    }

    open spec fn samples(&self, source: &Vec<ProcEntry>) -> Seq<SampleView> {
        self.pass(source@)
    }

    fn name(&self) -> (r: &'static str)
        ensures
            r@ == "sched"@,
    {
        "sched"
    }

    fn describe(&self) -> (r: Vec<Family>) {
        let r = vec![
            Family {
                name: "proc_sched_nr_migrations",
                help: "se.nr_migrations from /proc/<pid>/sched",
                label_keys: vec!["comm", "pid"],
            },
            Family {
                name: "proc_sched_nr_switches",
                help: "nr_switches from /proc/<pid>/sched",
                label_keys: vec!["comm", "pid"],
            },
            Family {
                name: "proc_sched_nr_involuntary_switches",
                help: "nr_involuntary_switches from /proc/<pid>/sched",
                label_keys: vec!["comm", "pid"],
            },
            Family {
                name: "proc_sched_nr_voluntary_switches",
                help: "nr_voluntary_switches from /proc/<pid>/sched",
                label_keys: vec!["comm", "pid"],
            },
            Family {
                name: "proc_sum_exec_runtime",
                help: "se.sum_exec_runtime from /proc/<pid>/sched",
                label_keys: vec!["comm", "pid"],
            },
        ];
        proof {
            assert forall|i: int| 0 <= i < 5 implies (#[trigger] r@[i])@ == sched_families()[i] by {
                assert(views(r@[i].label_keys@) =~= seq!["comm"@, "pid"@]);
            }
            assert(views(r@) =~= sched_families());
        }
        r
    }

    fn collect(&mut self, source: Option<&Vec<ProcEntry>>) -> (r: Result<
        Vec<Sample>,
        CollectionError,
    >) {
        let entries = match source {
            Some(entries) => entries,
            None => {
                return Err(CollectionError::SourceUnreadable);
            },
        };
        let mut out: Vec<Sample> = Vec::new();
        let mut i: usize = 0;
        assert(entries@.take(0) =~= Seq::<ProcEntry>::empty());
        while i < entries.len()
            invariant
                i <= entries@.len(),
                views(out@) == self.pass(entries@.take(i as int)),
            decreases entries@.len() - i,
        {
            let mut more = self.scan_entry(&entries[i]);
            proof {
                let upto = entries@.take(i + 1);
                assert(upto.drop_last() =~= entries@.take(i as int));
                assert(upto.last() == entries@[i as int]);
                assert(views(out@ + more@) =~= views(out@) + views(more@));
            }
            out.append(&mut more);
            i += 1;
        }
        proof {
            assert(entries@.take(i as int) =~= entries@);
            self.pass_fits(entries@);
        }
        Ok(out)
    }
}

} // verus!
