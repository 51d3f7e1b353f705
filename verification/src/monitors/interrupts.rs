//! Interrupt counts, from `/proc/interrupts`.
//!
//! Each count of a row yields a sample of the family `interrupts`, with the
//! labels `irq`, `cpu` and `name`.

use crate::monitor::{CollectionError, Monitor};
use crate::number::{decimal_of, decimal_text, parse_u64, unsigned, Radix};
use crate::sample::{
    all_fit, all_fit_add, count, fits, Family, FamilyView, Sample, SampleView,
};
use crate::text::{
    chars_of, lemma_views_push, lines, remove_char, split_lines, split_words, starts_with,
    string_of, strip_end, texts, trim_end, views, without, words, CharClass,
};
use vstd::prelude::*;

verus! {

/// The name of the family.
pub open spec fn family_name() -> Seq<char> {
    "interrupts"@
}

/// The family that the monitor fills.
pub open spec fn family() -> FamilyView {
    FamilyView {
        name: family_name(),
        help: "Per-IRQ per-CPU interrupt counters from /proc/interrupts"@,
        label_keys: seq!["irq"@, "cpu"@, "name"@],
    }
}

/// The number of words among `tokens` that begin with `CPU`.
pub open spec fn cpu_columns(tokens: Seq<Seq<char>>) -> nat
    decreases tokens.len(),
{
    if tokens.len() == 0 {
        0
    } else {
        cpu_columns(tokens.drop_last()) + (if "CPU"@.is_prefix_of(tokens.last()) {
            1nat
        } else {
            0nat
        })
    }
}

/// The samples of the counts `counts` of the interrupt `irq`: the count at
/// position `i` is that of CPU `i`. A count may hold commas, which do not
/// count; one that is no number then yields no sample.
pub open spec fn count_samples(irq: Seq<char>, name: Seq<char>, counts: Seq<Seq<char>>) -> Seq<
    SampleView,
>
    decreases counts.len(),
{
    if counts.len() == 0 {
        Seq::empty()
    } else {
        let cpu = (counts.len() - 1) as nat;
        count_samples(irq, name, counts.drop_last()) + (match unsigned(
            without(counts.last(), ','),
            Radix::Decimal,
            u64::MAX as nat,
        ) {
            Some(v) => seq![count(family_name(), seq![irq, decimal_text(cpu), name], v)],
            None => Seq::empty(),
        })
    }
}

/// The samples of one row, where the heading names `ncpus` CPUs. The first
/// word is the interrupt, without the colons at its end; up to `ncpus`
/// words after it are the counts; the last word after the counts, if there
/// is one, is the name.
pub open spec fn row_samples(ncpus: nat, line: Seq<char>) -> Seq<SampleView> {
    let tokens = words(line);
    if tokens.len() == 0 {
        Seq::empty()
    } else {
        let irq = strip_end(tokens[0], CharClass::Only(':'));
        let end: int = if tokens.len() - 1 < ncpus {
            tokens.len() as int
        } else {
            1 + ncpus as int
        };
        let name = if end < tokens.len() {
            tokens.last()
        } else {
            Seq::empty()
        };
        count_samples(irq, name, tokens.subrange(1, end))
    }
}

/// The samples of the rows `rows`, in their order.
pub open spec fn rows_samples(ncpus: nat, rows: Seq<Seq<char>>) -> Seq<SampleView>
    decreases rows.len(),
{
    if rows.len() == 0 {
        Seq::empty()
    } else {
        rows_samples(ncpus, rows.drop_last()) + row_samples(ncpus, rows.last())
    }
}

/// The samples of a file with this content: the first line is the heading,
/// the others are rows.
pub open spec fn interrupt_samples(content: Seq<char>) -> Seq<SampleView> {
    let all = lines(content);
    if all.len() == 0 {
        Seq::empty()
    } else {
        rows_samples(cpu_columns(words(all[0])), all.skip(1))
    }
}

/// The samples of the counts of a row fit the family.
pub proof fn count_samples_fit(irq: Seq<char>, name: Seq<char>, counts: Seq<Seq<char>>)
    ensures
        all_fit(count_samples(irq, name, counts), seq![family()]),
    decreases counts.len(),
{
    if counts.len() > 0 {
        count_samples_fit(irq, name, counts.drop_last());
        let families = seq![family()];
        let added = count_samples(irq, name, counts).skip(
            count_samples(irq, name, counts.drop_last()).len() as int,
        );
        assert forall|i: int| 0 <= i < added.len() implies fits(#[trigger] added[i], families) by {
            assert(families[0].name == family_name());
        }
        all_fit_add(count_samples(irq, name, counts.drop_last()), added, families);
        assert(count_samples(irq, name, counts) =~= count_samples(irq, name, counts.drop_last())
            + added);
    }
}

/// The samples of rows fit the family.
pub proof fn rows_samples_fit(ncpus: nat, rows: Seq<Seq<char>>)
    ensures
        all_fit(rows_samples(ncpus, rows), seq![family()]),
    decreases rows.len(),
{
    if rows.len() > 0 {
        rows_samples_fit(ncpus, rows.drop_last());
        let tokens = words(rows.last());
        if tokens.len() > 0 {
            let end: int = if tokens.len() - 1 < ncpus {
                tokens.len() as int
            } else {
                1 + ncpus as int
            };
            let name = if end < tokens.len() {
                tokens.last()
            } else {
                Seq::empty()
            };
            count_samples_fit(
                strip_end(tokens[0], CharClass::Only(':')),
                name,
                tokens.subrange(1, end),
            );
        }
        all_fit_add(
            rows_samples(ncpus, rows.drop_last()),
            row_samples(ncpus, rows.last()),
            seq![family()],
        );
    }
}

/// Every sample of a file belongs to the family and has its three labels.
pub proof fn interrupt_samples_fit(content: Seq<char>)
    ensures
        all_fit(interrupt_samples(content), seq![family()]),
{
    let all = lines(content);
    if all.len() > 0 {
        rows_samples_fit(cpu_columns(words(all[0])), all.skip(1));
    }
}

/// The monitor of interrupt counts.
#[derive(Debug, PartialEq, Eq)]
pub struct InterruptsMonitor {}

impl InterruptsMonitor {
    /// The monitor.
    pub fn new() -> Self {
        InterruptsMonitor {  }
    }

    /// The file that a pass reads.
    pub fn path(&self) -> (r: &'static str)
        ensures
            r@ == "/proc/interrupts"@,
    {
        "/proc/interrupts"
    }

    /// The number of CPUs that the heading names.
    pub fn count_cpus(header: &[char]) -> (n: usize)
        ensures
            n == cpu_columns(words(header@)),
    {
        let tokens = split_words(header);
        let cpu = chars_of("CPU");
        let mut n: usize = 0;
        let mut i: usize = 0;
        assert(tokens@.take(0) =~= Seq::<Vec<char>>::empty());
        while i < tokens.len()
            invariant
                i <= tokens@.len(),
                cpu@ == "CPU"@,
                n <= i,
                n == cpu_columns(texts(tokens@.take(i as int))),
            decreases tokens@.len() - i,
        {
            proof {
                let upto = texts(tokens@.take(i + 1));
                assert(upto.drop_last() =~= texts(tokens@.take(i as int)));
                assert(upto.last() == tokens@[i as int]@);
            }
            if starts_with(tokens[i].as_slice(), cpu.as_slice()) {
                n += 1;
            }
            i += 1;
        }
        assert(tokens@.take(i as int) =~= tokens@);
        n
    }

    /// Adds the samples of one row to `out`.
    pub fn scan_row(ncpus: usize, line: &[char], out: &mut Vec<Sample>)
        ensures
            views(final(out)@) == views(old(out)@) + row_samples(ncpus as nat, line@),
    {
        let ghost start = views(out@);
        let tokens = split_words(line);
        if tokens.len() == 0 {
            assert(start + Seq::<SampleView>::empty() =~= start);
            return ;
        }
        let irq_text = trim_end(tokens[0].as_slice(), CharClass::Only(':'));
        let irq = string_of(irq_text.as_slice());
        let end: usize = if tokens.len() - 1 < ncpus {
            tokens.len()
        } else {
            1 + ncpus
        };
        let name = if end < tokens.len() {
            string_of(tokens[tokens.len() - 1].as_slice())
        } else {
            String::new()
        };
        let ghost counts = texts(tokens@).subrange(1, end as int);
        let mut i: usize = 1;
        assert(counts.take(0) =~= Seq::<Seq<char>>::empty());
        assert(start + Seq::<SampleView>::empty() =~= start);
        while i < end
            invariant
                1 <= i <= end <= tokens@.len(),
                counts == texts(tokens@).subrange(1, end as int),
                views(out@) == start + count_samples(irq@, name@, counts.take(i - 1)),
            decreases end - i,
        {
            let ghost before = views(out@);
            proof {
                let upto = counts.take(i as int);
                assert(upto.drop_last() =~= counts.take(i - 1));
                assert(upto.last() == tokens@[i as int]@);
            }
            let digits = remove_char(tokens[i].as_slice(), ',');
            match parse_u64(digits.as_slice()) {
                Some(v) => {
                    let cpu_text = decimal_of((i - 1) as u64);
                    let labels: Vec<String> = vec![
                        irq.clone(),
                        string_of(cpu_text.as_slice()),
                        name.clone(),
                    ];
                    assert(views(labels@) =~= seq![irq@, decimal_text((i - 1) as nat), name@]);
                    let sample = Sample::integer("interrupts", labels, v as u128);
                    proof {
                        lemma_views_push(out@, sample);
                        assert(before + seq![sample@] =~= before.push(sample@));
                    }
                    out.push(sample);
                },
                None => {
                    assert(before + Seq::<SampleView>::empty() =~= before);
                },
            }
            assert(views(out@) =~= start + count_samples(irq@, name@, counts.take(i as int)));
            i += 1;
        }
        assert(counts.take(i - 1) =~= counts);
    }

    /// The samples of a file with this content.
    pub fn collect_once(content: &str) -> (out: Vec<Sample>)
        ensures
            views(out@) == interrupt_samples(content@),
            all_fit(views(out@), seq![family()]),
    {
        let text = chars_of(content);
        let all = split_lines(text.as_slice());
        let mut out: Vec<Sample> = Vec::new();
        assert(views(out@) =~= Seq::<SampleView>::empty());
        if all.len() == 0 {
            return out;
        }
        let ncpus = Self::count_cpus(all[0].as_slice());
        let ghost rows = lines(content@).skip(1);
        let mut i: usize = 1;
        assert(rows.take(0) =~= Seq::<Seq<char>>::empty());
        while i < all.len()
            invariant
                1 <= i <= all@.len(),
                texts(all@) == lines(content@),
                rows == lines(content@).skip(1),
                views(out@) == rows_samples(ncpus as nat, rows.take(i - 1)),
            decreases all@.len() - i,
        {
            proof {
                let upto = rows.take(i as int);
                assert(upto.drop_last() =~= rows.take(i - 1));
                assert(upto.last() == all@[i as int]@);
            }
            Self::scan_row(ncpus, all[i].as_slice(), &mut out);
            i += 1;
        }
        proof {
            assert(rows.take(i - 1) =~= rows);
            assert(all@[0]@ == lines(content@)[0]);
            interrupt_samples_fit(content@);
        }
        out
    }
}

impl Monitor for InterruptsMonitor {
    type Source = String;

    open spec fn families(&self) -> Seq<FamilyView> {
        seq![family()]
    }

    open spec fn samples(&self, source: &String) -> Seq<SampleView> {
        interrupt_samples(source@)
    }

    fn name(&self) -> (r: &'static str)
        ensures
            r@ == "interrupts"@,
    {
        "interrupts"
    }

    fn describe(&self) -> (r: Vec<Family>) {
        let r = vec![
            Family {
                name: "interrupts",
                help: "Per-IRQ per-CPU interrupt counters from /proc/interrupts",
                label_keys: vec!["irq", "cpu", "name"],
            },
        ];
        assert(views(r@[0].label_keys@) =~= seq!["irq"@, "cpu"@, "name"@]);
        assert(views(r@) =~= seq![family()]);
        r
    }

    fn collect(&mut self, source: Option<&String>) -> (r: Result<Vec<Sample>, CollectionError>) {
        match source {
            Some(content) => Ok(InterruptsMonitor::collect_once(content.as_str())),
            None => Err(CollectionError::SourceUnreadable),
        }
    }
}

} // verus!
