//! Counters of the network receive path, from `/proc/net/softnet_stat`.
//!
//! The file has one line for each CPU, of hexadecimal counters. Each counter
//! yields a sample of the family `softnet_stat`, with the labels `cpu` and
//! `key`, under the key `f` and its position; each of the first three
//! yields a second sample under a name of its own.

use crate::monitor::{CollectionError, Monitor};
use crate::number::{decimal_of, decimal_text, parse_unsigned, unsigned, Radix};
use crate::sample::{
    all_fit, all_fit_add, count, fits, Family, FamilyView, Sample, SampleView,
};
use crate::text::{
    chars_of, lemma_views_push, lines, split_lines, split_words, string_of, texts, views, words,
};
use vstd::prelude::*;
use vstd::string::StringExecFns;

verus! {

/// The name of the family.
pub open spec fn family_name() -> Seq<char> {
    "softnet_stat"@
}

/// The family that the monitor fills.
pub open spec fn family() -> FamilyView {
    FamilyView {
        name: family_name(),
        help: "Per-CPU hex counters from /proc/net/softnet_stat (RX path health)"@,
        label_keys: seq!["cpu"@, "key"@],
    }
}

/// The name of the counter at position `idx`, where it has one.
pub open spec fn counter_name(idx: nat) -> Option<Seq<char>> {
    if idx == 0 {
        Some("processed"@)
    } else if idx == 1 {
        Some("dropped"@)
    } else if idx == 2 {
        Some("time_squeezed"@)
    } else {
        None
    }
}

/// The key of the counter at position `idx`: `f` and the position.
pub open spec fn positional_key(idx: nat) -> Seq<char> {
    "f"@ + decimal_text(idx)
}

/// The samples of the counter at position `idx` with the value `val`: one
/// under the counter's name, where it has one, then one under its
/// positional key.
pub open spec fn counter_samples(cpu: Seq<char>, idx: nat, val: nat) -> Seq<SampleView> {
    (match counter_name(idx) {
        Some(name) => seq![count(family_name(), seq![cpu, name], val)],
        None => Seq::empty(),
    }) + seq![count(family_name(), seq![cpu, positional_key(idx)], val)]
}

/// The samples of the counters `tokens` of one CPU: the counter at position
/// `i` is the word `i`, a hexadecimal integer of 64 bits. A word that is no
/// such integer yields no sample.
pub open spec fn counters_samples(cpu: Seq<char>, tokens: Seq<Seq<char>>) -> Seq<SampleView>
    decreases tokens.len(),
{
    if tokens.len() == 0 {
        Seq::empty()
    } else {
        let idx = (tokens.len() - 1) as nat;
        counters_samples(cpu, tokens.drop_last()) + (match unsigned(
            tokens.last(),
            Radix::Hex,
            u64::MAX as nat,
        ) {
            Some(v) => counter_samples(cpu, idx, v),
            None => Seq::empty(),
        })
    }
}

/// The samples of the lines `rows`: the line at position `i` is that of
/// CPU `i`.
pub open spec fn rows_samples(rows: Seq<Seq<char>>) -> Seq<SampleView>
    decreases rows.len(),
{
    if rows.len() == 0 {
        Seq::empty()
    } else {
        let cpu = (rows.len() - 1) as nat;
        rows_samples(rows.drop_last()) + counters_samples(decimal_text(cpu), words(rows.last()))
    }
}

/// The samples of a file with this content.
pub open spec fn softnet_samples(content: Seq<char>) -> Seq<SampleView> {
    rows_samples(lines(content))
}

/// The samples of a counter fit the family.
pub proof fn counter_samples_fit(cpu: Seq<char>, idx: nat, val: nat)
    ensures
        all_fit(counter_samples(cpu, idx, val), seq![family()]),
{
    let families = seq![family()];
    let samples = counter_samples(cpu, idx, val);
    assert forall|i: int| 0 <= i < samples.len() implies fits(#[trigger] samples[i], families) by {
        assert(families[0].name == family_name());
    }
}

/// The samples of the counters of one CPU fit the family.
pub proof fn counters_samples_fit(cpu: Seq<char>, tokens: Seq<Seq<char>>)
    ensures
        all_fit(counters_samples(cpu, tokens), seq![family()]),
    decreases tokens.len(),
{
    if tokens.len() > 0 {
        counters_samples_fit(cpu, tokens.drop_last());
        let added = match unsigned(tokens.last(), Radix::Hex, u64::MAX as nat) {
            Some(v) => counter_samples(cpu, (tokens.len() - 1) as nat, v),
            None => Seq::empty(),
        };
        match unsigned(tokens.last(), Radix::Hex, u64::MAX as nat) {
            Some(v) => counter_samples_fit(cpu, (tokens.len() - 1) as nat, v),
            None => {},
        }
        all_fit_add(counters_samples(cpu, tokens.drop_last()), added, seq![family()]);
    }
}

/// Every sample of a file belongs to the family and has its two labels.
pub proof fn rows_samples_fit(rows: Seq<Seq<char>>)
    ensures
        all_fit(rows_samples(rows), seq![family()]),
    decreases rows.len(),
{
    if rows.len() > 0 {
        rows_samples_fit(rows.drop_last());
        let cpu = decimal_text((rows.len() - 1) as nat);
        counters_samples_fit(cpu, words(rows.last()));
        all_fit_add(
            rows_samples(rows.drop_last()),
            counters_samples(cpu, words(rows.last())),
            seq![family()],
        );
    }
}

/// The monitor of the network receive path.
#[derive(Debug, PartialEq, Eq)]
pub struct SoftnetStatMonitor {}

impl SoftnetStatMonitor {
    /// The monitor.
    pub fn new() -> Self {
        SoftnetStatMonitor {  }
    }

    /// The file that a pass reads.
    pub fn path(&self) -> (r: &'static str)
        ensures
            r@ == "/proc/net/softnet_stat"@,
    {
        "/proc/net/softnet_stat"
    }

    /// Adds the samples of the counter at position `idx` of the CPU `cpu_s`
    /// to `out`.
    pub fn set_named_and_indexed(cpu_s: &str, idx: usize, val: u64, out: &mut Vec<Sample>)
        ensures
            views(final(out)@) == views(old(out)@) + counter_samples(cpu_s@, idx as nat, val as nat),
    {
        let ghost start = views(out@);
        let name: Option<&'static str> = if idx == 0 {
            Some("processed")
        } else if idx == 1 {
            Some("dropped")
        } else if idx == 2 {
            Some("time_squeezed")
        } else {
            None
        };
        match name {
            Some(name) => {
                let labels: Vec<String> = vec![cpu_s.to_owned(), name.to_owned()];
                assert(views(labels@) =~= seq![cpu_s@, name@]);
                let sample = Sample::integer("softnet_stat", labels, val as u128);
                proof {
                    lemma_views_push(out@, sample);
                }
                out.push(sample);
            },
            None => {},
        }
        let ghost middle = views(out@);
        let digits = decimal_of(idx as u64);
        let mut key = "f".to_owned();
        key.append(string_of(digits.as_slice()).as_str());
        let labels: Vec<String> = vec![cpu_s.to_owned(), key];
        assert(views(labels@) =~= seq![cpu_s@, positional_key(idx as nat)]);
        let sample = Sample::integer("softnet_stat", labels, val as u128);
        proof {
            lemma_views_push(out@, sample);
            assert(middle.push(sample@) =~= start + counter_samples(
                cpu_s@,
                idx as nat,
                val as nat,
            ));
        }
        out.push(sample);
    }

    /// Adds the samples of the line of the CPU `cpu` to `out`.
    pub fn scan_line(cpu: usize, line: &[char], out: &mut Vec<Sample>)
        ensures
            views(final(out)@) == views(old(out)@) + counters_samples(
                decimal_text(cpu as nat),
                words(line@),
            ),
    {
        let ghost start = views(out@);
        assert(start + Seq::<SampleView>::empty() =~= start);
        let cpu_text = decimal_of(cpu as u64);
        let cpu_s = string_of(cpu_text.as_slice());
        let tokens = split_words(line);
        let ghost toks = texts(tokens@);
        let mut i: usize = 0;
        assert(toks.take(0) =~= Seq::<Seq<char>>::empty());
        while i < tokens.len()
            invariant
                i <= tokens@.len(),
                toks == texts(tokens@),
                views(out@) == start + counters_samples(cpu_s@, toks.take(i as int)),
            decreases tokens@.len() - i,
        {
            let ghost before = views(out@);
            proof {
                let upto = toks.take(i + 1);
                assert(upto.drop_last() =~= toks.take(i as int));
                assert(upto.last() == tokens@[i as int]@);
            }
            match parse_unsigned(tokens[i].as_slice(), Radix::Hex, u64::MAX) {
                Some(v) => {
                    Self::set_named_and_indexed(cpu_s.as_str(), i, v, out);
                },
                None => {
                    assert(before + Seq::<SampleView>::empty() =~= before);
                },
            }
            assert(views(out@) =~= start + counters_samples(cpu_s@, toks.take(i + 1)));
            i += 1;
        }
        assert(toks.take(i as int) =~= toks);
    }

    /// The samples of a file with this content.
    pub fn collect_once(content: &str) -> (out: Vec<Sample>)
        ensures
            views(out@) == softnet_samples(content@),
            all_fit(views(out@), seq![family()]),
    {
        let text = chars_of(content);
        let all = split_lines(text.as_slice());
        let mut out: Vec<Sample> = Vec::new();
        assert(views(out@) =~= Seq::<SampleView>::empty());
        let ghost rows = lines(content@);
        let mut i: usize = 0;
        assert(rows.take(0) =~= Seq::<Seq<char>>::empty());
        while i < all.len()
            invariant
                i <= all@.len(),
                texts(all@) == rows,
                views(out@) == rows_samples(rows.take(i as int)),
            decreases all@.len() - i,
        {
            proof {
                let upto = rows.take(i + 1);
                assert(upto.drop_last() =~= rows.take(i as int));
                assert(upto.last() == all@[i as int]@);
            }
            Self::scan_line(i, all[i].as_slice(), &mut out);
            i += 1;
        }
        proof {
            assert(rows.take(i as int) =~= rows);
            rows_samples_fit(rows);
        }
        out
    }
}

impl Monitor for SoftnetStatMonitor {
    type Source = String;

    open spec fn families(&self) -> Seq<FamilyView> {
        seq![family()]
    }

    open spec fn samples(&self, source: &String) -> Seq<SampleView> {
        softnet_samples(source@)
    }

    fn name(&self) -> (r: &'static str)
        ensures
            r@ == "softnet_stat"@,
    {
        "softnet_stat"
    }

    fn describe(&self) -> (r: Vec<Family>) {
        let r = vec![
            Family {
                name: "softnet_stat",
                help: "Per-CPU hex counters from /proc/net/softnet_stat (RX path health)",
                label_keys: vec!["cpu", "key"],
            },
        ];
        assert(views(r@[0].label_keys@) =~= seq!["cpu"@, "key"@]);
        assert(views(r@) =~= seq![family()]);
        r
    }

    fn collect(&mut self, source: Option<&String>) -> (r: Result<Vec<Sample>, CollectionError>) {
        match source {
            Some(content) => Ok(SoftnetStatMonitor::collect_once(content.as_str())),
            None => Err(CollectionError::SourceUnreadable),
        }
    }
}

} // verus!
