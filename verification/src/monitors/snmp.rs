//! Protocol counters, from `/proc/net/snmp`.
//!
//! The file is made of sections of two lines: a line of keys and a line of
//! values, each headed by the protocol's name and a colon. The sections of
//! `Tcp` and `Udp` yield samples of the families `snmp_tcp` and `snmp_udp`,
//! which have the label `key`.

use crate::monitor::{CollectionError, Monitor};
use crate::number::{float_literal, is_float_literal};
use crate::sample::{all_fit, fits, reading, Family, FamilyView, Sample, SampleView};
use crate::text::{
    chars_of, lemma_views_push, lines, same, split_at_first, split_lines, split_once,
    split_words, string_of, texts, trim, trimmed, views, words,
};
use vstd::prelude::*;

verus! {

/// The family of the `Tcp` section.
pub open spec fn tcp_family() -> FamilyView {
    FamilyView {
        name: "snmp_tcp"@,
        help: "TCP Stats from /proc/net/snmp"@,
        label_keys: seq!["key"@],
    }
}

/// The family of the `Udp` section.
pub open spec fn udp_family() -> FamilyView {
    FamilyView {
        name: "snmp_udp"@,
        help: "UDP Stats from /proc/net/snmp"@,
        label_keys: seq!["key"@],
    }
}

/// The two families.
pub open spec fn snmp_families() -> Seq<FamilyView> {
    seq![tcp_family(), udp_family()]
}

/// One counter of a section: the protocol, the key and the value as the
/// file writes it.
#[derive(Debug, PartialEq, Eq)]
pub struct SnmpPair {
    pub proto: String,
    pub key: String,
    pub value: String,
}

/// What an [`SnmpPair`] stands for.
pub ghost struct SnmpPairView {
    pub proto: Seq<char>,
    pub key: Seq<char>,
    pub value: Seq<char>,
}

impl View for SnmpPair {
    type V = SnmpPairView;

    open spec fn view(&self) -> SnmpPairView {
        SnmpPairView { proto: self.proto@, key: self.key@, value: self.value@ }
    }
}

/// Whether every one of `values` is the text of a floating-point literal.
pub open spec fn all_numeric(values: Seq<Seq<char>>) -> bool {
    forall|i: int| 0 <= i < values.len() ==> is_float_literal(#[trigger] values[i])
}

/// The counters of the section made of the line of keys `header` and the
/// line of values `row`. The section yields one counter for each key, in
/// order, where both lines have a colon, name the same protocol, that
/// protocol is `Tcp` or `Udp`, there are as many values as keys and every
/// value is a number. Else it yields none.
pub open spec fn section_pairs(header: Seq<char>, row: Seq<char>) -> Seq<SnmpPairView> {
    match (split_at_first(header, ':'), split_at_first(row, ':')) {
        (Some((proto_h, keys_text)), Some((proto_v, values_text))) => {
            let proto = trimmed(proto_h);
            let keys = words(keys_text);
            let values = words(values_text);
            if proto == trimmed(proto_v) && (proto == "Tcp"@ || proto == "Udp"@) && keys.len()
                == values.len() && all_numeric(values) {
                Seq::new(
                    keys.len(),
                    |i: int| SnmpPairView { proto, key: keys[i], value: values[i] },
                )
            } else {
                Seq::empty()
            }
        },
        _ => Seq::empty(),
    }
}

/// The counters of the first `n` sections of `rows`: section `i` is made of
/// the lines `2 i` and `2 i + 1`.
pub open spec fn sections_pairs(rows: Seq<Seq<char>>, n: nat) -> Seq<SnmpPairView>
    decreases n,
{
    if n == 0 {
        Seq::empty()
    } else {
        sections_pairs(rows, (n - 1) as nat) + section_pairs(rows[2 * (n - 1)], rows[2 * (n - 1) + 1])
    }
}

/// The counters of a file with this content. A last line without a partner
/// belongs to no section.
pub open spec fn snmp_pairs(content: Seq<char>) -> Seq<SnmpPairView> {
    let rows = lines(content);
    sections_pairs(rows, rows.len() / 2)
}

/// The sample of one counter: in the family of its protocol, under its key,
/// with its value as written.
pub open spec fn pair_sample(pair: SnmpPairView) -> Seq<SampleView> {
    if pair.proto == "Tcp"@ {
        seq![reading(tcp_family().name, seq![pair.key], pair.value)]
    } else if pair.proto == "Udp"@ {
        seq![reading(udp_family().name, seq![pair.key], pair.value)]
    } else {
        Seq::empty()
    }
}

/// The samples of the counters `pairs`, in their order.
pub open spec fn pairs_samples(pairs: Seq<SnmpPairView>) -> Seq<SampleView>
    decreases pairs.len(),
{
    if pairs.len() == 0 {
        Seq::empty()
    } else {
        pairs_samples(pairs.drop_last()) + pair_sample(pairs.last())
    }
}

/// The samples of a file with this content.
pub open spec fn snmp_samples(content: Seq<char>) -> Seq<SampleView> {
    pairs_samples(snmp_pairs(content))
}

/// The protocol that a line names: what stands before its first colon,
/// without the white space around it.
pub open spec fn protocol(line: Seq<char>) -> Option<Seq<char>> {
    match split_at_first(line, ':') {
        Some((name, _)) => Some(trimmed(name)),
        None => None,
    }
}

/// A section whose two lines do not name the same protocol yields no
/// counter, and so no sample.
pub proof fn mismatched_section_is_dropped(header: Seq<char>, row: Seq<char>)
    requires
        protocol(header) != protocol(row),
    ensures
        section_pairs(header, row) == Seq::<SnmpPairView>::empty(),
        pairs_samples(section_pairs(header, row)) == Seq::<SampleView>::empty(),
{
    assert(section_pairs(header, row) =~= Seq::<SnmpPairView>::empty());
}

/// The monitor of protocol counters.
#[derive(Debug, PartialEq, Eq)]
pub struct SNMPMonitor {}

impl SNMPMonitor {
    /// The monitor.
    pub fn new() -> Self {
        SNMPMonitor {  }
    }

    /// The file that a pass reads.
    pub fn path(&self) -> (r: &'static str)
        ensures
            r@ == "/proc/net/snmp"@,
    {
        "/proc/net/snmp"
    }

    /// Tests whether every one of `values` is a number.
    fn numeric(values: &Vec<Vec<char>>) -> (r: bool)
        ensures
            r == all_numeric(texts(values@)),
    {
        let mut j: usize = 0;
        while j < values.len()
            invariant
                j <= values@.len(),
                forall|k: int| 0 <= k < j ==> is_float_literal(#[trigger] texts(values@)[k]),
            decreases values@.len() - j,
        {
            assert(texts(values@)[j as int] == values@[j as int]@);
            if !float_literal(values[j].as_slice()) {
                return false;
            }
            j += 1;
        }
        true
    }

    /// Adds the counters of one section to `out`.
    pub fn parse_section(header: &[char], row: &[char], out: &mut Vec<SnmpPair>)
        ensures
            views(final(out)@) == views(old(out)@) + section_pairs(header@, row@),
    {
        let ghost start = views(out@);
        assert(start + Seq::<SnmpPairView>::empty() =~= start);
        let (proto_h, keys_text) = match split_once(header, ':') {
            Some(halves) => halves,
            None => {
                return ;
            },
        };
        let (proto_v, values_text) = match split_once(row, ':') {
            Some(halves) => halves,
            None => {
                return ;
            },
        };
        let proto = trim(proto_h.as_slice());
        let other = trim(proto_v.as_slice());
        if !same(proto.as_slice(), other.as_slice()) {
            return ;
        }
        let tcp = chars_of("Tcp");
        let udp = chars_of("Udp");
        if !same(proto.as_slice(), tcp.as_slice()) && !same(proto.as_slice(), udp.as_slice()) {
            return ;
        }
        let keys = split_words(keys_text.as_slice());
        let values = split_words(values_text.as_slice());
        if keys.len() != values.len() {
            return ;
        }
        if !Self::numeric(&values) {
            return ;
        }
        let ghost expected = section_pairs(header@, row@);
        let mut i: usize = 0;
        while i < keys.len()
            invariant
                i <= keys@.len(),
                keys@.len() == values@.len(),
                expected.len() == keys@.len(),
                forall|k: int|
                    0 <= k < keys@.len() ==> #[trigger] expected[k] == (SnmpPairView {
                        proto: proto@,
                        key: keys@[k]@,
                        value: values@[k]@,
                    }),
                views(out@) == start + expected.take(i as int),
            decreases keys@.len() - i,
        {
            let pair = SnmpPair {
                proto: string_of(proto.as_slice()),
                key: string_of(keys[i].as_slice()),
                value: string_of(values[i].as_slice()),
            };
            proof {
                lemma_views_push(out@, pair);
                assert(pair@ == expected[i as int]);
                assert((start + expected.take(i as int)).push(pair@) =~= start + expected.take(
                    i + 1,
                ));
            }
            out.push(pair);
            i += 1;
        }
        assert(expected.take(i as int) =~= expected);
    }

    /// Reads the counters of a file with this content.
    pub fn parse_snmp_pairs(content: &str) -> (out: Vec<SnmpPair>)
        ensures
            views(out@) == snmp_pairs(content@),
    {
        let text = chars_of(content);
        let all = split_lines(text.as_slice());
        let ghost rows = lines(content@);
        let n = all.len() / 2;
        let mut out: Vec<SnmpPair> = Vec::new();
        assert(views(out@) =~= Seq::<SnmpPairView>::empty());
        let mut i: usize = 0;
        while i < n
            invariant
                i <= n,
                n == all@.len() / 2,
                2 * n <= all@.len() <= usize::MAX,
                texts(all@) == rows,
                views(out@) == sections_pairs(rows, i as nat),
            decreases n - i,
        {
            assert(rows[2 * i] == all@[2 * i]@);
            assert(rows[2 * i + 1] == all@[2 * i + 1]@);
            Self::parse_section(all[2 * i].as_slice(), all[2 * i + 1].as_slice(), &mut out);
            i += 1;
        }
        out
    }

    /// The samples of the counters `pairs`.
    pub fn samples_of(pairs: &Vec<SnmpPair>) -> (out: Vec<Sample>)
        ensures
            views(out@) == pairs_samples(views(pairs@)),
            all_fit(views(out@), snmp_families()),
    {
        let tcp = chars_of("Tcp");
        let udp = chars_of("Udp");
        let mut out: Vec<Sample> = Vec::new();
        assert(views(out@) =~= Seq::<SampleView>::empty());
        let ghost all = views(pairs@);
        let mut i: usize = 0;
        assert(all.take(0) =~= Seq::<SnmpPairView>::empty());
        while i < pairs.len()
            invariant
                i <= pairs@.len(),
                all == views(pairs@),
                tcp@ == "Tcp"@,
                udp@ == "Udp"@,
                views(out@) == pairs_samples(all.take(i as int)),
                all_fit(views(out@), snmp_families()),
            decreases pairs@.len() - i,
        {
            let ghost before = views(out@);
            proof {
                let upto = all.take(i + 1);
                assert(upto.drop_last() =~= all.take(i as int));
                assert(upto.last() == pairs@[i as int]@);
            }
            let pair = &pairs[i];
            let proto = chars_of(pair.proto.as_str());
            let family: Option<&'static str> = if same(proto.as_slice(), tcp.as_slice()) {
                Some("snmp_tcp")
            } else if same(proto.as_slice(), udp.as_slice()) {
                Some("snmp_udp")
            } else {
                None
            };
            match family {
                Some(family) => {
                    let labels: Vec<String> = vec![pair.key.clone()];
                    assert(views(labels@) =~= seq![pair.key@]);
                    let sample = Sample::literal(family, labels, pair.value.clone());
                    proof {
                        lemma_views_push(out@, sample);
                        assert(before + seq![sample@] =~= before.push(sample@));
                        let families = snmp_families();
                        assert(families[0].name == "snmp_tcp"@);
                        assert(families[1].name == "snmp_udp"@);
                        assert(fits(sample@, families));
                    }
                    out.push(sample);
                },
                None => {
                    assert(before + Seq::<SampleView>::empty() =~= before);
                },
            }
            i += 1;
        }
        assert(all.take(i as int) =~= all);
        out
    }
}

impl Monitor for SNMPMonitor {
    type Source = String;

    open spec fn families(&self) -> Seq<FamilyView> {
        snmp_families()
    }

    open spec fn samples(&self, source: &String) -> Seq<SampleView> {
        snmp_samples(source@)
    }

    fn name(&self) -> (r: &'static str)
        ensures
            r@ == "snmp"@,
    {
        "snmp"
    }

    fn describe(&self) -> (r: Vec<Family>) {
        let r = vec![
            Family {
                name: "snmp_tcp",
                help: "TCP Stats from /proc/net/snmp",
                label_keys: vec!["key"],
            },
            Family {
                name: "snmp_udp",
                help: "UDP Stats from /proc/net/snmp",
                label_keys: vec!["key"],
            },
        ];
        assert(views(r@[0].label_keys@) =~= seq!["key"@]);
        assert(views(r@[1].label_keys@) =~= seq!["key"@]);
        assert(views(r@) =~= snmp_families());
        r
    }

    fn collect(&mut self, source: Option<&String>) -> (r: Result<Vec<Sample>, CollectionError>) {
        match source {
            Some(content) => {
                let pairs = SNMPMonitor::parse_snmp_pairs(content.as_str());
                Ok(SNMPMonitor::samples_of(&pairs))
            },
            None => Err(CollectionError::SourceUnreadable),
        }
    }
}

} // verus!
