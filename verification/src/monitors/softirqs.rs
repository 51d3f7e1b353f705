//! Soft interrupt counts, from `/proc/softirqs`.
//!
//! Each count of a row yields a sample of the family `softirqs`, with the
//! labels `kind` and `cpu`.

use crate::monitor::{CollectionError, Monitor};
use crate::number::{decimal_of, decimal_text, parse_u64, unsigned, Radix};
use crate::sample::{
    all_fit, all_fit_add, count, fits, Family, FamilyView, Sample, SampleView,
};
use crate::text::{
    chars_of, lemma_views_push, lines, split_at_first, split_lines, split_once, split_words,
    string_of, texts, trim, trimmed, views, words,
};
use vstd::prelude::*;

verus! {

/// The name of the family.
pub open spec fn family_name() -> Seq<char> {
    "softirqs"@
}

/// The family that the monitor fills.
pub open spec fn family() -> FamilyView {
    FamilyView {
        name: family_name(),
        help: "Per-CPU softirq counters from /proc/softirqs"@,
        label_keys: seq!["kind"@, "cpu"@],
    }
}

/// The samples of the counts `counts` of the soft interrupt `kind`: the
/// count at position `i` is that of CPU `i`. A count that is no number
/// yields no sample.
pub open spec fn count_samples(kind: Seq<char>, counts: Seq<Seq<char>>) -> Seq<SampleView>
    decreases counts.len(),
{
    if counts.len() == 0 {
        Seq::empty()
    } else {
        let cpu = (counts.len() - 1) as nat;
        count_samples(kind, counts.drop_last()) + (match unsigned(
            counts.last(),
            Radix::Decimal,
            u64::MAX as nat,
        ) {
            Some(v) => seq![count(family_name(), seq![kind, decimal_text(cpu)], v)],
            None => Seq::empty(),
        })
    }
}

/// The samples of one row `kind: count count ...`. A row without a colon
/// yields none.
pub open spec fn row_samples(line: Seq<char>) -> Seq<SampleView> {
    match split_at_first(line, ':') {
        Some((k, rest)) => count_samples(trimmed(k), words(rest)),
        None => Seq::empty(),
    }
}

/// The samples of the rows `rows`, in their order.
pub open spec fn rows_samples(rows: Seq<Seq<char>>) -> Seq<SampleView>
    decreases rows.len(),
{
    if rows.len() == 0 {
        Seq::empty()
    } else {
        rows_samples(rows.drop_last()) + row_samples(rows.last())
    }
}

/// The samples of a file with this content: the first line is the heading,
/// the others are rows.
pub open spec fn softirq_samples(content: Seq<char>) -> Seq<SampleView> {
    let all = lines(content);
    if all.len() == 0 {
        Seq::empty()
    } else {
        rows_samples(all.skip(1))
    }
}

/// The samples of the counts of a row fit the family.
pub proof fn count_samples_fit(kind: Seq<char>, counts: Seq<Seq<char>>)
    ensures
        all_fit(count_samples(kind, counts), seq![family()]),
    decreases counts.len(),
{
    if counts.len() > 0 {
        count_samples_fit(kind, counts.drop_last());
        let families = seq![family()];
        let added = count_samples(kind, counts).skip(
            count_samples(kind, counts.drop_last()).len() as int,
        );
        assert forall|i: int| 0 <= i < added.len() implies fits(#[trigger] added[i], families) by {
            assert(families[0].name == family_name());
        }
        all_fit_add(count_samples(kind, counts.drop_last()), added, families);
        assert(count_samples(kind, counts) =~= count_samples(kind, counts.drop_last()) + added);
    }
}

/// The samples of rows fit the family.
pub proof fn rows_samples_fit(rows: Seq<Seq<char>>)
    ensures
        all_fit(rows_samples(rows), seq![family()]),
    decreases rows.len(),
{
    if rows.len() > 0 {
        rows_samples_fit(rows.drop_last());
        match split_at_first(rows.last(), ':') {
            Some((k, rest)) => count_samples_fit(trimmed(k), words(rest)),
            None => {},
        }
        all_fit_add(rows_samples(rows.drop_last()), row_samples(rows.last()), seq![family()]);
    }
}

/// Every sample of a file belongs to the family and has its two labels.
pub proof fn softirq_samples_fit(content: Seq<char>)
    ensures
        all_fit(softirq_samples(content), seq![family()]),
{
    let all = lines(content);
    if all.len() > 0 {
        rows_samples_fit(all.skip(1));
    }
}

/// The monitor of soft interrupt counts.
#[derive(Debug, PartialEq, Eq)]
pub struct SoftirqsMonitor {}

impl SoftirqsMonitor {
    /// The monitor.
    pub fn new() -> Self {
        SoftirqsMonitor {  }
    }

    /// The file that a pass reads.
    pub fn path(&self) -> (r: &'static str)
        ensures
            r@ == "/proc/softirqs"@,
    {
        "/proc/softirqs"
    }

    /// Adds the samples of one row to `out`.
    pub fn scan_row(line: &[char], out: &mut Vec<Sample>)
        ensures
            views(final(out)@) == views(old(out)@) + row_samples(line@),
    {
        let ghost start = views(out@);
        assert(start + Seq::<SampleView>::empty() =~= start);
        let (k, rest) = match split_once(line, ':') {
            Some(halves) => halves,
            None => {
                return ;
            },
        };
        let kind_text = trim(k.as_slice());
        let kind = string_of(kind_text.as_slice());
        let tokens = split_words(rest.as_slice());
        let ghost counts = texts(tokens@);
        let mut i: usize = 0;
        assert(counts.take(0) =~= Seq::<Seq<char>>::empty());
        while i < tokens.len()
            invariant
                i <= tokens@.len(),
                counts == texts(tokens@),
                views(out@) == start + count_samples(kind@, counts.take(i as int)),
            decreases tokens@.len() - i,
        {
            let ghost before = views(out@);
            proof {
                let upto = counts.take(i + 1);
                assert(upto.drop_last() =~= counts.take(i as int));
                assert(upto.last() == tokens@[i as int]@);
            }
            match parse_u64(tokens[i].as_slice()) {
                Some(v) => {
                    let cpu_text = decimal_of(i as u64);
                    let labels: Vec<String> = vec![kind.clone(), string_of(cpu_text.as_slice())];
                    assert(views(labels@) =~= seq![kind@, decimal_text(i as nat)]);
                    let sample = Sample::integer("softirqs", labels, v as u128);
                    proof {
                        lemma_views_push(out@, sample);
                        assert(before + seq![sample@] =~= before.push(sample@));
                    }
                    out.push(sample);
                },
                None => {
                    assert(before + Seq::<SampleView>::empty() =~= before);
                },
            }
            assert(views(out@) =~= start + count_samples(kind@, counts.take(i + 1)));
            i += 1;
        }
        assert(counts.take(i as int) =~= counts);
    }

    /// The samples of a file with this content.
    pub fn collect_once(content: &str) -> (out: Vec<Sample>)
        ensures
            views(out@) == softirq_samples(content@),
            all_fit(views(out@), seq![family()]),
    {
        let text = chars_of(content);
        let all = split_lines(text.as_slice());
        let mut out: Vec<Sample> = Vec::new();
        assert(views(out@) =~= Seq::<SampleView>::empty());
        if all.len() == 0 {
            return out;
        }
        let ghost rows = lines(content@).skip(1);
        let mut i: usize = 1;
        assert(rows.take(0) =~= Seq::<Seq<char>>::empty());
        while i < all.len()
            invariant
                1 <= i <= all@.len(),
                texts(all@) == lines(content@),
                rows == lines(content@).skip(1),
                views(out@) == rows_samples(rows.take(i - 1)),
            decreases all@.len() - i,
        {
            proof {
                let upto = rows.take(i as int);
                assert(upto.drop_last() =~= rows.take(i - 1));
                assert(upto.last() == all@[i as int]@);
            }
            Self::scan_row(all[i].as_slice(), &mut out);
            i += 1;
        }
        proof {
            assert(rows.take(i - 1) =~= rows);
            softirq_samples_fit(content@);
        }
        out
    }
}

impl Monitor for SoftirqsMonitor {
    type Source = String;

    open spec fn families(&self) -> Seq<FamilyView> {
        seq![family()]
    }

    open spec fn samples(&self, source: &String) -> Seq<SampleView> {
        softirq_samples(source@)
    }

    fn name(&self) -> (r: &'static str)
        ensures
            r@ == "softirqs"@,
    {
        "softirqs"
    }

    fn describe(&self) -> (r: Vec<Family>) {
        let r = vec![
            Family {
                name: "softirqs",
                help: "Per-CPU softirq counters from /proc/softirqs",
                label_keys: vec!["kind", "cpu"],
            },
        ];
        assert(views(r@[0].label_keys@) =~= seq!["kind"@, "cpu"@]);
        assert(views(r@) =~= seq![family()]);
        r
    }

    fn collect(&mut self, source: Option<&String>) -> (r: Result<Vec<Sample>, CollectionError>) {
        match source {
            Some(content) => Ok(SoftirqsMonitor::collect_once(content.as_str())),
            None => Err(CollectionError::SourceUnreadable),
        }
    }
}

} // verus!
