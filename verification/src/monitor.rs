//! The monitor abstraction: one decoder of a kernel statistics source, with
//! the metric families that it fills.

use crate::sample::{
    all_fit, written, written_twice_is_written_once, Family, FamilyView, Sample, SampleView,
    SeriesKey, ValueView,
};
use crate::text::views;
use vstd::prelude::*;

verus! {

/// The kinds of monitor that can be selected.
#[derive(Debug, Clone, Copy, PartialEq, Eq, Structural)]
pub enum MonitorKind {
    Sched,
    Snmp,
    NetDev,
    NetDevQueues,
    DiskStat,
    Interrupts,
    MemStat,
    SoftIrqs,
    SoftnetStat,
}

/// Why a monitor's pass yielded nothing.
#[derive(Debug, Clone, Copy, PartialEq, Eq, Structural)]
pub enum CollectionError {
    /// The file or directory that the monitor starts from could not be read.
    SourceUnreadable,
}

/// A decoder of one kernel statistics source.
///
/// A pass reads the source, which is the caller's part, and hands what was
/// read to `collect`, which yields the samples to write. A sample replaces
/// the latest value of its series; a series for which a pass has no sample
/// keeps its value.
pub trait Monitor: Sized {
    /// What one pass reads from the kernel.
    type Source;

    /// The metric families that the monitor fills.
    spec fn families(&self) -> Seq<FamilyView>;

    /// The samples that a pass over `source` yields.
    spec fn samples(&self, source: &Self::Source) -> Seq<SampleView>;

    /// The name of the monitor, for diagnostics.
    fn name(&self) -> (r: &'static str);

    /// The metric families that the monitor fills.
    fn describe(&self) -> (r: Vec<Family>)
        ensures
            views(r@) == self.families(),
    ;

    /// One pass. `source` is what was read, or `None` where the file or
    /// directory that the monitor starts from could not be read: that alone
    /// fails the pass. What is unreadable or malformed below that is left
    /// out and fails nothing.
    fn collect(&mut self, source: Option<&Self::Source>) -> (r: Result<
        Vec<Sample>,
        CollectionError,
    >)
        ensures
            *final(self) == *old(self),
            source matches Some(s) ==> r matches Ok(out) && views(out@) == old(self).samples(s),
            source is None ==> r == Err::<Vec<Sample>, CollectionError>(
                CollectionError::SourceUnreadable,
            ),
            r matches Ok(out) ==> all_fit(views(out@), old(self).families()),
    ;
}

/// A second pass over an unchanged source leaves the table of latest values
/// as the first pass left it.
pub proof fn second_pass_changes_nothing<M: Monitor>(
    monitor: M,
    source: M::Source,
    table: Map<SeriesKey, ValueView>,
)
    ensures
        written(written(table, monitor.samples(&source)), monitor.samples(&source)) == written(
            table,
            monitor.samples(&source),
        ),
{
    written_twice_is_written_once(table, monitor.samples(&source));
}

} // verus!
