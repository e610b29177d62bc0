use crate::numeral::{numeral_view, Numeral};
use crate::series::Series;
use vstd::prelude::*;

verus! {

/// The name of the label that holds the name of the device.
pub const NAME_LABEL: &'static str = "name";

/// The name of the label that holds the identifier of the device.
pub const ID_LABEL: &'static str = "id";

/// The pair of labels that tells which meter a series belongs to.
#[derive(Debug, PartialEq, Eq)]
pub struct Labels {
    /// The name that the owner gave the device.
    pub name: String,
    /// The identifier that the service gave the device.
    pub id: String,
}

/// One exported value: a series, the meter it belongs to, and what it stands at.
#[derive(Debug, PartialEq, Eq)]
pub struct Sample {
    pub series: Series,
    pub labels: Labels,
    pub value: Numeral,
}

/// What identifies a labeled series in the store.
pub ghost struct SeriesKey {
    pub series: Series,
    pub name: Seq<char>,
    pub id: Seq<char>,
}

/// A `Sample` with its labels as sequences of characters.
pub ghost struct SampleView {
    pub key: SeriesKey,
    pub value: Seq<char>,
}

impl View for Labels {
    type V = (Seq<char>, Seq<char>);

    open spec fn view(&self) -> (Seq<char>, Seq<char>) {
        (self.name@, self.id@)
    }
}

impl View for Sample {
    type V = SampleView;

    open spec fn view(&self) -> SampleView {
        SampleView { key: series_key(self.series, self.labels@), value: self.value@ }
    }
}

/// The key of `series` for the meter that `labels` name.
pub open spec fn series_key(series: Series, labels: (Seq<char>, Seq<char>)) -> SeriesKey {
    SeriesKey { series, name: labels.0, id: labels.1 }
}

/// The samples of a list, each by its view.
pub open spec fn sample_views(samples: Seq<Sample>) -> Seq<SampleView> {
    Seq::new(samples.len(), |i: int| samples[i]@)
}

/// Whether the store holds a value under `key`.
pub open spec fn holds(model: Seq<SampleView>, key: SeriesKey) -> bool {
    exists|i: int| 0 <= i < model.len() && (#[trigger] model[i]).key == key
}

/// Whether no key occurs twice.
pub open spec fn distinct(model: Seq<SampleView>) -> bool {
    forall|i: int, j: int|
        0 <= i < model.len() && 0 <= j < model.len() && i != j ==> (#[trigger] model[i]).key != (
        #[trigger] model[j]).key
}

/// The value that the store holds under `key`, if any.
pub open spec fn value_of(model: Seq<SampleView>, key: SeriesKey) -> Option<Seq<char>> {
    if holds(model, key) {
        Some(model[choose|i: int| 0 <= i < model.len() && (#[trigger] model[i]).key == key].value)
    } else {
        None
    }
}

/// The store after `value` is written under `key`: a key that is there keeps its
/// place and takes the value, a new one goes to the end.
pub open spec fn written(model: Seq<SampleView>, key: SeriesKey, value: Seq<char>) -> Seq<
    SampleView,
> {
    if holds(model, key) {
        Seq::new(
            model.len(),
            |i: int|
                if model[i].key == key {
                    SampleView { key, value }
                } else {
                    model[i]
                },
        )
    } else {
        model.push(SampleView { key, value })
    }
}

impl Labels {
    /// The labels of the device called `name` with the identifier `id`.
    pub fn new(name: &str, id: &str) -> (labels: Labels)
        ensures
            labels@ == (name@, id@),
    {
        Labels { name: name.to_owned(), id: id.to_owned() }
    }

    /// A second copy of the labels.
    pub fn duplicate(&self) -> (labels: Labels)
        ensures
            labels@ == self@,
    {
        Labels { name: self.name.clone(), id: self.id.clone() }
    }

    /// Whether both labels are the same as those of `other`.
    pub fn same(&self, other: &Labels) -> (same: bool)
        ensures
            same == (self@ == other@),
    {
        self.name == other.name && self.id == other.id
    }
}

/// The current value of each labeled series, in the order of their first writes.
///
/// A series comes to be when it is first written, and is never taken out again.
pub struct MetricStore {
    samples: Vec<Sample>,
}

impl View for MetricStore {
    type V = Seq<SampleView>;

    closed spec fn view(&self) -> Seq<SampleView> {
        sample_views(self.samples@)
    }
}

impl MetricStore {
    /// What every store keeps: each labeled series stands in it once.
    pub open spec fn wf(&self) -> bool {
        distinct(self@)
    }

    /// A store without any series.
    pub fn new() -> (store: MetricStore)
        ensures
            store@ == Seq::<SampleView>::empty(),
            store.wf(),
    {
        let store = MetricStore { samples: Vec::new() };
        assert(store@ =~= Seq::<SampleView>::empty());
        store
    }

    /// How many labeled series the store holds.
    pub fn len(&self) -> (count: usize)
        ensures
            count == self@.len(),
    {
        self.samples.len()
    }

    /// Where the store holds the series, if it does.
    fn position(&self, series: Series, labels: &Labels) -> (place: Option<usize>)
        ensures
            match place {
                Some(i) => i < self@.len() && self@[i as int].key == series_key(series, labels@),
                None => !holds(self@, series_key(series, labels@)),
            },
    {
        let mut at: usize = 0;
        while at < self.samples.len()
            invariant
                at <= self.samples.len(),
                forall|i: int| 0 <= i < at ==> (#[trigger] self@[i]).key != series_key(series, labels@),
            decreases self.samples.len() - at,
        {
            if self.samples[at].series == series && self.samples[at].labels.same(labels) {
                return Some(at);
            }
            at = at + 1;
        }
        None
    }

    /// Puts `value` under the series, in place or at the end.
    fn write(&mut self, series: Series, labels: &Labels, value: Numeral)
        requires
            old(self).wf(),
        ensures
            final(self).wf(),
            final(self)@ == written(old(self)@, series_key(series, labels@), value@),
    {
        let ghost before = self@;
        let ghost key = series_key(series, labels@);
        let ghost text = value@;
        let sample = Sample { series, labels: labels.duplicate(), value };
        match self.position(series, labels) {
            Some(at) => {
                self.samples.set(at, sample);
                assert(self@ =~= written(before, key, text));
            },
            None => {
                self.samples.push(sample);
                assert(self@ =~= written(before, key, text));
            },
        }
        proof {
            lemma_written_distinct(before, key, text);
        }
    }

    /// Sets a gauge: the series stands at `value`, whatever it stood at.
    pub fn set_gauge(&mut self, series: Series, labels: &Labels, value: Numeral)
        requires
            old(self).wf(),
        ensures
            final(self).wf(),
            final(self)@ == written(old(self)@, series_key(series, labels@), value@),
    {
        self.write(series, labels, value);
    }

    /// Takes an absolute reading into a counter: the counter restarts from zero
    /// and is raised by `value`, so that it stands at `value`, whatever it stood at.
    pub fn reset_and_add(&mut self, series: Series, labels: &Labels, value: Numeral)
        requires
            old(self).wf(),
        ensures
            final(self).wf(),
            final(self)@ == written(old(self)@, series_key(series, labels@), value@),
    {
        self.write(series, labels, value);
    }

    /// The value that the series stands at, if it was ever written.
    pub fn get(&self, series: Series, labels: &Labels) -> (value: Option<Numeral>)
        requires
            self.wf(),
        ensures
            numeral_view(value) == value_of(self@, series_key(series, labels@)),
    {
        match self.position(series, labels) {
            Some(at) => {
                assert(self@[at as int].value == self.samples[at as int].value@);
                Some(self.samples[at].value.duplicate())
            },
            None => None,
        }
    }

    /// Every labeled series with its current value, in the order of their first
    /// writes.
    pub fn snapshot(&self) -> (samples: Vec<Sample>)
        ensures
            sample_views(samples@) == self@,
    {
        let mut samples: Vec<Sample> = Vec::new();
        let mut at: usize = 0;
        while at < self.samples.len()
            invariant
                at <= self.samples.len(),
                samples@.len() == at,
                forall|i: int| 0 <= i < at ==> (#[trigger] samples@[i])@ == self@[i],
            decreases self.samples.len() - at,
        {
            let sample = &self.samples[at];
            samples.push(
                Sample {
                    series: sample.series,
                    labels: sample.labels.duplicate(),
                    value: sample.value.duplicate(),
                },
            );
            at = at + 1;
        }
        assert(sample_views(samples@) =~= self@);
        samples
    }
}

/// A write leaves each key in the store once.
pub proof fn lemma_written_distinct(model: Seq<SampleView>, key: SeriesKey, value: Seq<char>)
    requires
        distinct(model),
    ensures
        distinct(written(model, key, value)),
{
    let after = written(model, key, value);
    assert forall|i: int, j: int|
        0 <= i < after.len() && 0 <= j < after.len() && i != j implies (#[trigger] after[i]).key != (
    #[trigger] after[j]).key by {
        if holds(model, key) {
            assert(after[i].key == model[i].key);
            assert(after[j].key == model[j].key);
        } else {
            if i < model.len() {
                assert(after[i] == model[i]);
            }
            if j < model.len() {
                assert(after[j] == model[j]);
            }
        }
    }
}

/// After a write the series stands at the value written.
pub proof fn lemma_read_after_write(model: Seq<SampleView>, key: SeriesKey, value: Seq<char>)
    requires
        distinct(model),
    ensures
        value_of(written(model, key, value), key) == Some(value),
{
    let after = written(model, key, value);
    lemma_written_distinct(model, key, value);
    if holds(model, key) {
        let at = choose|i: int| 0 <= i < model.len() && (#[trigger] model[i]).key == key;
        assert(after[at].key == key);
    } else {
        assert(after[model.len() as int].key == key);
    }
    let found = choose|i: int| 0 <= i < after.len() && (#[trigger] after[i]).key == key;
    assert(after[found].value == value);
}

/// A write changes no series but its own.
pub proof fn lemma_write_keeps_others(
    model: Seq<SampleView>,
    key: SeriesKey,
    value: Seq<char>,
    other: SeriesKey,
)
    requires
        distinct(model),
        other != key,
    ensures
        holds(written(model, key, value), other) == holds(model, other),
        value_of(written(model, key, value), other) == value_of(model, other),
{
    let after = written(model, key, value);
    lemma_written_distinct(model, key, value);
    if holds(model, other) {
        let at = choose|i: int| 0 <= i < model.len() && (#[trigger] model[i]).key == other;
        assert(after[at] == model[at]);
        let found = choose|i: int| 0 <= i < after.len() && (#[trigger] after[i]).key == other;
        assert(found == at) by {
            if found != at {
                assert(after[found].key != after[at].key);
            }
        }
    } else {
        if holds(after, other) {
            let found = choose|i: int| 0 <= i < after.len() && (#[trigger] after[i]).key == other;
            if found < model.len() {
                assert(model[found].key == other);
            }
        }
    }
}

/// Of two writes to one series the second alone shows: a reading replaces the
/// one before it and is not added to it.
pub proof fn lemma_last_write_wins(
    model: Seq<SampleView>,
    key: SeriesKey,
    first: Seq<char>,
    second: Seq<char>,
)
    ensures
        written(written(model, key, first), key, second) == written(model, key, second),
{
    let once = written(model, key, first);
    if holds(model, key) {
        let at = choose|i: int| 0 <= i < model.len() && (#[trigger] model[i]).key == key;
        assert(once[at].key == key);
    } else {
        assert(once[model.len() as int].key == key);
        assert forall|i: int| 0 <= i < model.len() implies (#[trigger] model[i]).key != key by {}
    }
    assert(written(once, key, second) =~= written(model, key, second));
}

/// A write takes no series out of the store, and adds at most its own.
pub proof fn lemma_write_never_evicts(
    model: Seq<SampleView>,
    key: SeriesKey,
    value: Seq<char>,
    other: SeriesKey,
)
    requires
        holds(model, other),
    ensures
        holds(written(model, key, value), other),
        written(model, key, value).len() == model.len() + if holds(model, key) {
            0int
        } else {
            1int
        },
{
    let after = written(model, key, value);
    let at = choose|i: int| 0 <= i < model.len() && (#[trigger] model[i]).key == other;
    assert(after[at].key == other);
}

/// Two snapshots of one store, with no write between them, hold the same
/// samples in the same order.
pub proof fn lemma_snapshots_agree(store: MetricStore, first: Seq<Sample>, second: Seq<Sample>)
    requires
        sample_views(first) == store@,
        sample_views(second) == store@,
    ensures
        first.len() == second.len(),
        forall|i: int| 0 <= i < first.len() ==> (#[trigger] first[i])@ == second[i]@,
{
    assert(sample_views(first).len() == first.len());
    assert(sample_views(second).len() == second.len());
    assert forall|i: int| 0 <= i < first.len() implies (#[trigger] first[i])@ == second[i]@ by {
        assert(sample_views(first)[i] == first[i]@);
        assert(sample_views(second)[i] == second[i]@);
    }
}

} // verus!
