//! Memory statistics, from `/proc/meminfo`.
//!
//! A line whose value is in kB yields a sample of the family
//! `meminfo_bytes`, in bytes; a line with a bare value yields one of the
//! family `meminfo`. Both families have the label `key`.

use crate::monitor::{CollectionError, Monitor};
use crate::number::{parse_u64, unsigned, Radix};
use crate::sample::{
    all_fit, all_fit_add, count, fits, Family, FamilyView, Sample, SampleView,
};
use crate::text::{
    chars_of, lemma_views_push, lines, same, split_at_first, split_lines, split_once,
    split_words, string_of, texts, trim, trimmed, views, words,
};
use vstd::prelude::*;

verus! {

/// The family of the values that the file gives in kB.
pub open spec fn bytes_family() -> FamilyView {
    FamilyView {
        name: "meminfo_bytes"@,
        help: "Meminfo entries reported in kB, converted to bytes"@,
        label_keys: seq!["key"@],
    }
}

/// The family of the values that the file gives without a unit.
pub open spec fn other_family() -> FamilyView {
    FamilyView {
        name: "meminfo"@,
        help: "Meminfo entries without kB units (counts)"@,
        label_keys: seq!["key"@],
    }
}

/// The two families.
pub open spec fn meminfo_families() -> Seq<FamilyView> {
    seq![bytes_family(), other_family()]
}

/// The sample of one line `key: value unit`. The value is a decimal integer
/// of 64 bits. Where the unit is exactly `kB` the sample holds 1024 times
/// the value, in the family of bytes; else it holds the value, in the other
/// family. A line without a colon, without a value or with a value that is
/// no number yields no sample.
pub open spec fn line_samples(line: Seq<char>) -> Seq<SampleView> {
    match split_at_first(line, ':') {
        Some((k, rest)) => {
            let key = trimmed(k);
            let tokens = words(rest);
            if tokens.len() == 0 {
                Seq::empty()
            } else {
                match unsigned(tokens[0], Radix::Decimal, u64::MAX as nat) {
                    Some(n) => if tokens.len() > 1 && tokens[1] == "kB"@ {
                        seq![count(bytes_family().name, seq![key], n * 1024)]
                    } else {
                        seq![count(other_family().name, seq![key], n)]
                    },
                    None => Seq::empty(),
                }
            }
        },
        None => Seq::empty(),
    }
}

/// The samples of the lines `rows`, in their order.
pub open spec fn rows_samples(rows: Seq<Seq<char>>) -> Seq<SampleView>
    decreases rows.len(),
{
    if rows.len() == 0 {
        Seq::empty()
    } else {
        rows_samples(rows.drop_last()) + line_samples(rows.last())
    }
}

/// The samples of a file with this content.
pub open spec fn meminfo_samples(content: Seq<char>) -> Seq<SampleView> {
    rows_samples(lines(content))
}

/// The sample of a line belongs to one of the two families and has its one
/// label.
pub proof fn line_samples_fit(line: Seq<char>)
    ensures
        all_fit(line_samples(line), meminfo_families()),
{
    let families = meminfo_families();
    let samples = line_samples(line);
    assert forall|i: int| 0 <= i < samples.len() implies fits(#[trigger] samples[i], families) by {
        assert(families[0].name == bytes_family().name);
        assert(families[1].name == other_family().name);
    }
}

/// Every sample of a file belongs to one of the two families and has its
/// one label.
pub proof fn rows_samples_fit(rows: Seq<Seq<char>>)
    ensures
        all_fit(rows_samples(rows), meminfo_families()),
    decreases rows.len(),
{
    if rows.len() > 0 {
        rows_samples_fit(rows.drop_last());
        line_samples_fit(rows.last());
        all_fit_add(rows_samples(rows.drop_last()), line_samples(rows.last()), meminfo_families());
    }
}

/// The monitor of memory statistics.
#[derive(Debug, PartialEq, Eq)]
pub struct MeminfoMonitor {}

impl MeminfoMonitor {
    /// The monitor.
    pub fn new() -> Self {
        MeminfoMonitor {  }
    }

    /// The file that a pass reads.
    pub fn path(&self) -> (r: &'static str)
        ensures
            r@ == "/proc/meminfo"@,
    {
        "/proc/meminfo"
    }

    /// Adds the sample of one line to `out`.
    pub fn scan_line(line: &[char], out: &mut Vec<Sample>)
        ensures
            views(final(out)@) == views(old(out)@) + line_samples(line@),
    {
        let ghost start = views(out@);
        assert(start + Seq::<SampleView>::empty() =~= start);
        let (k, rest) = match split_once(line, ':') {
            Some(halves) => halves,
            None => {
                return ;
            },
        };
        let key = trim(k.as_slice());
        let tokens = split_words(rest.as_slice());
        if tokens.len() == 0 {
            return ;
        }
        assert(texts(tokens@)[0] == tokens@[0]@);
        let n = match parse_u64(tokens[0].as_slice()) {
            Some(n) => n,
            None => {
                return ;
            },
        };
        let labels: Vec<String> = vec![string_of(key.as_slice())];
        assert(views(labels@) =~= seq![key@]);
        let unit = chars_of("kB");
        let in_kb = tokens.len() > 1 && same(tokens[1].as_slice(), unit.as_slice());
        assert(tokens@.len() > 1 ==> texts(tokens@)[1] == tokens@[1]@);
        let sample = if in_kb {
            Sample::integer("meminfo_bytes", labels, n as u128 * 1024)
        } else {
            Sample::integer("meminfo", labels, n as u128)
        };
        proof {
            lemma_views_push(out@, sample);
            assert(start + seq![sample@] =~= start.push(sample@));
        }
        out.push(sample);
    }

    /// The samples of a file with this content.
    pub fn collect_once(content: &str) -> (out: Vec<Sample>)
        ensures
            views(out@) == meminfo_samples(content@),
            all_fit(views(out@), meminfo_families()),
    {
        let text = chars_of(content);
        let all = split_lines(text.as_slice());
        let mut out: Vec<Sample> = Vec::new();
        assert(views(out@) =~= Seq::<SampleView>::empty());
        let ghost rows = lines(content@);
        let mut i: usize = 0;
        assert(rows.take(0) =~= Seq::<Seq<char>>::empty());
        while i < all.len()
            invariant
                i <= all@.len(),
                texts(all@) == rows,
                views(out@) == rows_samples(rows.take(i as int)),
            decreases all@.len() - i,
        {
            proof {
                let upto = rows.take(i + 1);
                assert(upto.drop_last() =~= rows.take(i as int));
                assert(upto.last() == all@[i as int]@);
            }
            Self::scan_line(all[i].as_slice(), &mut out);
            i += 1;
        }
        proof {
            assert(rows.take(i as int) =~= rows);
            rows_samples_fit(rows);
        }
        out
    }
}

impl Monitor for MeminfoMonitor {
    type Source = String;

    open spec fn families(&self) -> Seq<FamilyView> {
        meminfo_families()
    }

    open spec fn samples(&self, source: &String) -> Seq<SampleView> {
        meminfo_samples(source@)
    }

    fn name(&self) -> (r: &'static str)
        ensures
            r@ == "meminfo"@,
    {
        "meminfo"
    }

    fn describe(&self) -> (r: Vec<Family>) {
        let r = vec![
            Family {
                name: "meminfo_bytes",
                help: "Meminfo entries reported in kB, converted to bytes",
                label_keys: vec!["key"],
            },
            Family {
                name: "meminfo",
                help: "Meminfo entries without kB units (counts)",
                label_keys: vec!["key"],
            },
        ];
        assert(views(r@[0].label_keys@) =~= seq!["key"@]);
        assert(views(r@[1].label_keys@) =~= seq!["key"@]);
        assert(views(r@) =~= meminfo_families());
        r
    }

    fn collect(&mut self, source: Option<&String>) -> (r: Result<Vec<Sample>, CollectionError>) {
        match source {
            Some(content) => Ok(MeminfoMonitor::collect_once(content.as_str())),
            None => Err(CollectionError::SourceUnreadable),
        }
    }
}

} // verus!
