//! Samples, the metric families they belong to, and the table of latest
//! values that they are written into.

use crate::text::views;
use vstd::prelude::*;

verus! {

/// The value of a sample.
#[derive(Debug, PartialEq, Eq)]
pub enum Value {
    /// An exact unsigned quantity.
    Integer(u128),
    /// The text of a floating-point literal, as the source holds it.
    Literal(String),
}

/// What a [`Value`] stands for.
pub ghost enum ValueView {
    Integer(nat),
    Literal(Seq<char>),
}

impl View for Value {
    type V = ValueView;

    open spec fn view(&self) -> ValueView {
        match self {
            Value::Integer(n) => ValueView::Integer(*n as nat),
            Value::Literal(t) => ValueView::Literal(t@),
        }
    }
}

/// One measurement: the metric family it belongs to, the values of that
/// family's labels in the order of its label keys, and the measured value.
#[derive(Debug, PartialEq, Eq)]
pub struct Sample {
    pub family: String,
    pub labels: Vec<String>,
    pub value: Value,
}

/// What a [`Sample`] stands for.
pub ghost struct SampleView {
    pub family: Seq<char>,
    pub labels: Seq<Seq<char>>,
    pub value: ValueView,
}

impl View for Sample {
    type V = SampleView;

    open spec fn view(&self) -> SampleView {
        SampleView { family: self.family@, labels: views(self.labels@), value: self.value@ }
    }
}

/// The sample of `family` with the label values `labels` and the exact
/// value `n`.
pub open spec fn count(family: Seq<char>, labels: Seq<Seq<char>>, n: nat) -> SampleView {
    SampleView { family, labels, value: ValueView::Integer(n) }
}

/// The sample of `family` with the label values `labels` whose value is
/// written as `text`.
pub open spec fn reading(family: Seq<char>, labels: Seq<Seq<char>>, text: Seq<char>) -> SampleView {
    SampleView { family, labels, value: ValueView::Literal(text) }
}

impl Sample {
    /// A sample with an exact value.
    pub fn integer(family: &str, labels: Vec<String>, n: u128) -> (s: Sample)
        ensures
            s@ == count(family@, views(labels@), n as nat),
    {
        Sample { family: family.to_owned(), labels, value: Value::Integer(n) }
    }

    /// A sample whose value is the floating-point literal `text`.
    pub fn literal(family: &str, labels: Vec<String>, text: String) -> (s: Sample)
        ensures
            s@ == reading(family@, views(labels@), text@),
    {
        Sample { family: family.to_owned(), labels, value: Value::Literal(text) }
    }
}

/// A metric family: a named group of samples that share their label keys.
#[derive(Debug, PartialEq, Eq)]
pub struct Family {
    pub name: &'static str,
    pub help: &'static str,
    pub label_keys: Vec<&'static str>,
}

/// What a [`Family`] stands for.
pub ghost struct FamilyView {
    pub name: Seq<char>,
    pub help: Seq<char>,
    pub label_keys: Seq<Seq<char>>,
}

impl View for Family {
    type V = FamilyView;

    open spec fn view(&self) -> FamilyView {
        FamilyView { name: self.name@, help: self.help@, label_keys: views(self.label_keys@) }
    }
}

/// Whether `sample` belongs to one of `families` and has one label value for
/// each label key of that family.
pub open spec fn fits(sample: SampleView, families: Seq<FamilyView>) -> bool {
    exists|i: int|
        0 <= i < families.len() && (#[trigger] families[i]).name == sample.family
            && families[i].label_keys.len() == sample.labels.len()
}

/// Whether every sample of `samples` fits `families`.
pub open spec fn all_fit(samples: Seq<SampleView>, families: Seq<FamilyView>) -> bool {
    forall|i: int| 0 <= i < samples.len() ==> fits(#[trigger] samples[i], families)
}

/// Samples that fit stay fitting when they are put one after the other.
pub proof fn all_fit_add(a: Seq<SampleView>, b: Seq<SampleView>, families: Seq<FamilyView>)
    requires
        all_fit(a, families),
        all_fit(b, families),
    ensures
        all_fit(a + b, families),
{
    assert forall|i: int| 0 <= i < (a + b).len() implies fits(#[trigger] (a + b)[i], families) by {
        if i < a.len() {
            assert((a + b)[i] == a[i]);
        } else {
            assert((a + b)[i] == b[i - a.len()]);
        }
    }
}

/// What tells one series of a family from another: the family and the label
/// values.
pub ghost struct SeriesKey {
    pub family: Seq<char>,
    pub labels: Seq<Seq<char>>,
}

/// The series that `sample` belongs to.
pub open spec fn series(sample: SampleView) -> SeriesKey {
    SeriesKey { family: sample.family, labels: sample.labels }
}

/// The table of latest values after `samples` have been written into
/// `table` in order: each sample replaces the value of its series, and a
/// series that no sample names keeps the value it had.
pub open spec fn written(table: Map<SeriesKey, ValueView>, samples: Seq<SampleView>) -> Map<
    SeriesKey,
    ValueView,
>
    decreases samples.len(),
{
    if samples.len() == 0 {
        table
    } else {
        written(table, samples.drop_last()).insert(series(samples.last()), samples.last().value)
    }
}

/// The value of the last sample of `samples` that belongs to the series
/// `key`, if there is one.
pub open spec fn latest(samples: Seq<SampleView>, key: SeriesKey) -> Option<ValueView>
    decreases samples.len(),
{
    if samples.len() == 0 {
        None
    } else if series(samples.last()) == key {
        Some(samples.last().value)
    } else {
        latest(samples.drop_last(), key)
    }
}

/// After a write, a series holds the value of the last sample written for
/// it; a series for which no sample was written is as it was before: with
/// its old value, or still absent.
pub proof fn written_holds_latest(
    table: Map<SeriesKey, ValueView>,
    samples: Seq<SampleView>,
    key: SeriesKey,
)
    ensures
        written(table, samples).dom().contains(key) <==> latest(samples, key).is_some()
            || table.dom().contains(key),
        latest(samples, key) matches Some(v) ==> written(table, samples)[key] == v,
        latest(samples, key).is_none() ==> written(table, samples)[key] == table[key],
    decreases samples.len(),
{
    if samples.len() > 0 {
        written_holds_latest(table, samples.drop_last(), key);
    }
}

/// Writing the same samples a second time changes nothing: the table is as
/// it was after the first write.
pub proof fn written_twice_is_written_once(
    table: Map<SeriesKey, ValueView>,
    samples: Seq<SampleView>,
)
    ensures
        written(written(table, samples), samples) == written(table, samples),
{
    let once = written(table, samples);
    let twice = written(once, samples);
    assert forall|key: SeriesKey| #[trigger]
        twice.dom().contains(key) <==> once.dom().contains(key) by {
        written_holds_latest(table, samples, key);
        written_holds_latest(once, samples, key);
    }
    assert forall|key: SeriesKey| once.dom().contains(key) implies #[trigger] twice[key]
        == once[key] by {
        written_holds_latest(table, samples, key);
        written_holds_latest(once, samples, key);
    }
    assert(twice =~= once);
}

} // verus!
