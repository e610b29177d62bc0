use crate::decoder::{decode, decode_spec, MetricWrite, WriteView};
use crate::errors::{Error, ErrorView};
use crate::nature_client::{Appliance, EchonetliteProperties};
use crate::series::SeriesKind;
use crate::store::{
    distinct, lemma_read_after_write, lemma_write_keeps_others, lemma_written_distinct,
    sample_views, series_key, value_of, written, Labels, MetricStore, Sample, SampleView,
    SeriesKey,
};
use vstd::prelude::*;

verus! {

/// Where a run of readings has brought the store, and the error that ended it,
/// if one did.
pub ghost struct Outcome {
    pub model: Seq<SampleView>,
    pub error: Option<ErrorView>,
}

/// The store after one decoded reading of the meter that `labels` name.
pub open spec fn apply_write(
    model: Seq<SampleView>,
    labels: (Seq<char>, Seq<char>),
    write: Option<WriteView>,
) -> Seq<SampleView> {
    match write {
        Some(write) => written(model, series_key(write.series, labels), write.value),
        None => model,
    }
}

/// The store after the readings of one meter, taken in order. The first reading
/// that fails to decode ends the run: the writes before it stay, and neither it
/// nor any reading behind it is written.
pub open spec fn apply_readings(
    model: Seq<SampleView>,
    labels: (Seq<char>, Seq<char>),
    readings: Seq<EchonetliteProperties>,
) -> Outcome
    decreases readings.len(),
{
    if readings.len() == 0 {
        Outcome { model, error: None }
    } else {
        let before = apply_readings(model, labels, readings.drop_last());
        if before.error is Some {
            before
        } else {
            match decode_spec(readings.last().epc, readings.last().val@) {
                Ok(write) => Outcome {
                    model: apply_write(before.model, labels, write),
                    error: None,
                },
                Err(error) => Outcome { model: before.model, error: Some(error) },
            }
        }
    }
}

/// The store after the appliances of one fetch, taken in order, each under its
/// nickname and identifier. The first reading that fails ends the run.
pub open spec fn apply_appliances(model: Seq<SampleView>, appliances: Seq<Appliance>) -> Outcome
    decreases appliances.len(),
{
    if appliances.len() == 0 {
        Outcome { model, error: None }
    } else {
        let before = apply_appliances(model, appliances.drop_last());
        if before.error is Some {
            before
        } else {
            apply_readings(
                before.model,
                (appliances.last().nickname@, appliances.last().id@),
                appliances.last().readings(),
            )
        }
    }
}

/// Once a reading has failed, no reading behind it changes the outcome.
pub proof fn lemma_readings_stop_at_error(
    model: Seq<SampleView>,
    labels: (Seq<char>, Seq<char>),
    readings: Seq<EchonetliteProperties>,
    upto: int,
)
    requires
        0 <= upto <= readings.len(),
        apply_readings(model, labels, readings.take(upto)).error is Some,
    ensures
        apply_readings(model, labels, readings) == apply_readings(
            model,
            labels,
            readings.take(upto),
        ),
    decreases readings.len(),
{
    if upto == readings.len() {
        assert(readings.take(upto) =~= readings);
    } else {
        assert(readings.drop_last().take(upto) =~= readings.take(upto));
        lemma_readings_stop_at_error(model, labels, readings.drop_last(), upto);
    }
}

/// Once an appliance has failed, no appliance behind it changes the outcome.
pub proof fn lemma_appliances_stop_at_error(
    model: Seq<SampleView>,
    appliances: Seq<Appliance>,
    upto: int,
)
    requires
        0 <= upto <= appliances.len(),
        apply_appliances(model, appliances.take(upto)).error is Some,
    ensures
        apply_appliances(model, appliances) == apply_appliances(model, appliances.take(upto)),
    decreases appliances.len(),
{
    if upto == appliances.len() {
        assert(appliances.take(upto) =~= appliances);
    } else {
        assert(appliances.drop_last().take(upto) =~= appliances.take(upto));
        lemma_appliances_stop_at_error(model, appliances.drop_last(), upto);
    }
}

/// An appliance without a meter, or whose meter lists no readings, writes
/// nothing and fails nothing, wherever in the list it stands.
pub proof fn lemma_appliance_without_readings(
    model: Seq<SampleView>,
    before: Seq<Appliance>,
    appliance: Appliance,
    after: Seq<Appliance>,
)
    requires
        appliance.smart_meter is None
            || appliance.smart_meter.unwrap().echonetlite_properties is None,
    ensures
        apply_appliances(model, before.push(appliance) + after) == apply_appliances(
            model,
            before + after,
        ),
    decreases after.len(),
{
    let with = before.push(appliance) + after;
    let without = before + after;
    if after.len() == 0 {
        assert(with.drop_last() =~= before);
        assert(without =~= before);
        assert(with.last() == appliance);
        assert(appliance.readings().len() == 0);
    } else {
        assert(with.drop_last() =~= before.push(appliance) + after.drop_last());
        assert(without.drop_last() =~= before + after.drop_last());
        assert(with.last() == without.last());
        lemma_appliance_without_readings(model, before, appliance, after.drop_last());
    }
}

/// A reading that fails to decode ends the run with its error, and the writes
/// of the readings before it stay as they were made.
pub proof fn lemma_failure_keeps_earlier_writes(
    model: Seq<SampleView>,
    labels: (Seq<char>, Seq<char>),
    before: Seq<EchonetliteProperties>,
    failing: EchonetliteProperties,
    after: Seq<EchonetliteProperties>,
)
    requires
        apply_readings(model, labels, before).error is None,
        decode_spec(failing.epc, failing.val@) is Err,
    ensures
        apply_readings(model, labels, before.push(failing) + after) == (Outcome {
            model: apply_readings(model, labels, before).model,
            error: Some(decode_spec(failing.epc, failing.val@)->Err_0),
        }),
{
    let all = before.push(failing) + after;
    let upto: int = before.len() as int + 1;
    assert(all.take(upto) =~= before.push(failing));
    assert(before.push(failing).drop_last() =~= before);
    assert(before.push(failing).last() == failing);
    lemma_readings_stop_at_error(model, labels, all, upto);
}

/// A reading whose code feeds no series leaves the store as it is, whatever its
/// value, and the readings behind it are carried out.
pub proof fn lemma_unknown_code_is_passed_over(
    model: Seq<SampleView>,
    labels: (Seq<char>, Seq<char>),
    before: Seq<EchonetliteProperties>,
    reading: EchonetliteProperties,
)
    requires
        crate::series::series_of_code(reading.epc) is None,
    ensures
        apply_readings(model, labels, before.push(reading)) == apply_readings(
            model,
            labels,
            before,
        ),
{
    assert(before.push(reading).drop_last() =~= before);
    assert(before.push(reading).last() == reading);
}

/// Whether every one of the readings decodes.
pub open spec fn all_decode(readings: Seq<EchonetliteProperties>) -> bool {
    forall|i: int|
        0 <= i < readings.len() ==> decode_spec(
            (#[trigger] readings[i]).epc,
            readings[i].val@,
        ) is Ok
}

/// Whether every reading of every one of the appliances decodes.
pub open spec fn all_appliances_decode(appliances: Seq<Appliance>) -> bool {
    forall|i: int|
        0 <= i < appliances.len() ==> all_decode((#[trigger] appliances[i]).readings())
}

/// What the last of the readings that write to the series `key` writes there,
/// the readings being those of the meter that `labels` name; `None` where none
/// of them writes there.
pub open spec fn last_reading(
    labels: (Seq<char>, Seq<char>),
    readings: Seq<EchonetliteProperties>,
    key: SeriesKey,
) -> Option<Seq<char>>
    decreases readings.len(),
{
    if readings.len() == 0 {
        None
    } else {
        match decode_spec(readings.last().epc, readings.last().val@) {
            Ok(Some(write)) => if series_key(write.series, labels) == key {
                Some(write.value)
            } else {
                last_reading(labels, readings.drop_last(), key)
            },
            _ => last_reading(labels, readings.drop_last(), key),
        }
    }
}

/// What the last reading that writes to the series `key` writes there, among
/// all the readings of the appliances, each appliance under its nickname and
/// identifier; `None` where none of them writes there.
pub open spec fn last_value(appliances: Seq<Appliance>, key: SeriesKey) -> Option<Seq<char>>
    decreases appliances.len(),
{
    if appliances.len() == 0 {
        None
    } else {
        let last = appliances.last();
        match last_reading((last.nickname@, last.id@), last.readings(), key) {
            Some(value) => Some(value),
            None => last_value(appliances.drop_last(), key),
        }
    }
}

/// The value under `key` after a run of writes of which `last` is the last that
/// went there, in a store that held `before` under it.
pub open spec fn standing(last: Option<Seq<char>>, before: Option<Seq<char>>) -> Option<
    Seq<char>,
> {
    match last {
        Some(value) => Some(value),
        None => before,
    }
}

/// Where every reading of a meter decodes, the run does not fail, and each
/// series stands at the last reading that went to it; a series that no reading
/// went to is as it was, there or not.
pub proof fn lemma_readings_leave_last_values(
    model: Seq<SampleView>,
    labels: (Seq<char>, Seq<char>),
    readings: Seq<EchonetliteProperties>,
    key: SeriesKey,
)
    requires
        distinct(model),
        all_decode(readings),
    ensures
        apply_readings(model, labels, readings).error is None,
        distinct(apply_readings(model, labels, readings).model),
        value_of(apply_readings(model, labels, readings).model, key) == standing(
            last_reading(labels, readings, key),
            value_of(model, key),
        ),
    decreases readings.len(),
{
    if readings.len() > 0 {
        let earlier = readings.drop_last();
        assert forall|i: int| 0 <= i < earlier.len() implies decode_spec(
            (#[trigger] earlier[i]).epc,
            earlier[i].val@,
        ) is Ok by {
            assert(earlier[i] == readings[i]);
        }
        lemma_readings_leave_last_values(model, labels, earlier, key);
        let before = apply_readings(model, labels, earlier).model;
        let last = readings[readings.len() - 1];
        assert(readings.last() == last);
        match decode_spec(last.epc, last.val@) {
            Ok(Some(write)) => {
                let target = series_key(write.series, labels);
                lemma_written_distinct(before, target, write.value);
                if target == key {
                    lemma_read_after_write(before, target, write.value);
                } else {
                    lemma_write_keeps_others(before, target, write.value, key);
                }
            },
            _ => {},
        }
    }
}

/// Where every reading of a fetch decodes, the update does not fail, and each
/// series stands at the last reading that went to it; a series that no reading
/// went to is as it was, there or not.
pub proof fn lemma_update_leaves_last_values(
    model: Seq<SampleView>,
    appliances: Seq<Appliance>,
    key: SeriesKey,
)
    requires
        distinct(model),
        all_appliances_decode(appliances),
    ensures
        apply_appliances(model, appliances).error is None,
        distinct(apply_appliances(model, appliances).model),
        value_of(apply_appliances(model, appliances).model, key) == standing(
            last_value(appliances, key),
            value_of(model, key),
        ),
    decreases appliances.len(),
{
    if appliances.len() > 0 {
        let earlier = appliances.drop_last();
        assert forall|i: int| 0 <= i < earlier.len() implies all_decode(
            (#[trigger] earlier[i]).readings(),
        ) by {
            assert(earlier[i] == appliances[i]);
        }
        lemma_update_leaves_last_values(model, earlier, key);
        let before = apply_appliances(model, earlier).model;
        let last = appliances[appliances.len() - 1];
        assert(appliances.last() == last);
        lemma_readings_leave_last_values(before, (last.nickname@, last.id@), last.readings(), key);
    }
}

/// Whether `result` reports what `error` says: success for none, else that error.
pub open spec fn reports(result: Result<(), Error>, error: Option<ErrorView>) -> bool {
    match result {
        Ok(_) => error is None,
        Err(raised) => error == Some(raised@),
    }
}

/// The update engine: it owns the metric store and brings each fetch into it.
pub struct Engine {
    store: MetricStore,
}

impl View for Engine {
    type V = Seq<SampleView>;

    closed spec fn view(&self) -> Seq<SampleView> {
        self.store@
    }
}

impl Engine {
    /// What every engine keeps: its store holds each labeled series once.
    pub closed spec fn wf(&self) -> bool {
        self.store.wf()
    }

    /// An engine whose store is empty.
    pub fn new() -> (engine: Engine)
        ensures
            engine.wf(),
            engine@ == Seq::<SampleView>::empty(),
    {
        Engine { store: MetricStore::new() }
    }

    /// Carries out one decoded reading: a gauge is set, a counter is restarted
    /// and raised.
    fn write(&mut self, labels: &Labels, write: MetricWrite)
        requires
            old(self).wf(),
        ensures
            final(self).wf(),
            final(self)@ == apply_write(old(self)@, labels@, Some(write@)),
    {
        let MetricWrite { series, value } = write;
        match series.kind() {
            SeriesKind::Gauge => self.store.set_gauge(series, labels, value),
            SeriesKind::Counter => self.store.reset_and_add(series, labels, value),
        }
    }

    /// Brings the readings of one meter into the store.
    fn apply(&mut self, labels: &Labels, readings: &Vec<EchonetliteProperties>) -> (result: Result<
        (),
        Error,
    >)
        requires
            old(self).wf(),
        ensures
            final(self).wf(),
            final(self)@ == apply_readings(old(self)@, labels@, readings@).model,
            reports(result, apply_readings(old(self)@, labels@, readings@).error),
    {
        let ghost start = self@;
        let mut at: usize = 0;
        while at < readings.len()
            invariant
                at <= readings.len(),
                start == old(self)@,
                self.wf(),
                apply_readings(start, labels@, readings@.take(at as int)) == (Outcome {
                    model: self@,
                    error: None,
                }),
            decreases readings.len() - at,
        {
            let reading = &readings[at];
            proof {
                assert(readings@.take(at + 1).drop_last() =~= readings@.take(at as int));
                assert(readings@.take(at + 1).last() == readings@[at as int]);
            }
            match decode(reading.epc, reading.val.as_str()) {
                Ok(Some(write)) => self.write(labels, write),
                Ok(None) => {},
                Err(error) => {
                    proof {
                        lemma_readings_stop_at_error(start, labels@, readings@, at + 1);
                    }
                    return Err(error);
                },
            }
            at = at + 1;
        }
        assert(readings@.take(at as int) =~= readings@);
        Ok(())
    }

    /// Brings what one fetch returned into the store.
    ///
    /// An appliance without a meter, or whose meter lists no readings, is passed
    /// over. A reading whose code feeds no series is passed over. The first
    /// reading that fails to decode ends the update with its error; what was
    /// written before it stays.
    pub fn update(&mut self, appliances: Vec<Appliance>) -> (result: Result<(), Error>)
        requires
            old(self).wf(),
        ensures
            final(self).wf(),
            final(self)@ == apply_appliances(old(self)@, appliances@).model,
            reports(result, apply_appliances(old(self)@, appliances@).error),
    {
        let ghost start = self@;
        let mut at: usize = 0;
        while at < appliances.len()
            invariant
                at <= appliances.len(),
                start == old(self)@,
                self.wf(),
                apply_appliances(start, appliances@.take(at as int)) == (Outcome {
                    model: self@,
                    error: None,
                }),
            decreases appliances.len() - at,
        {
            let appliance = &appliances[at];
            proof {
                assert(appliances@.take(at + 1).drop_last() =~= appliances@.take(at as int));
                assert(appliances@.take(at + 1).last() == appliances@[at as int]);
            }
            match &appliance.smart_meter {
                Some(meter) => match &meter.echonetlite_properties {
                    Some(readings) => {
                        let labels = Labels::new(
                            appliance.nickname.as_str(),
                            appliance.id.as_str(),
                        );
                        match self.apply(&labels, readings) {
                            Ok(_) => {},
                            Err(error) => {
                                proof {
                                    lemma_appliances_stop_at_error(start, appliances@, at + 1);
                                }
                                return Err(error);
                            },
                        }
                    },
                    None => {},
                },
                None => {},
            }
            at = at + 1;
        }
        assert(appliances@.take(at as int) =~= appliances@);
        Ok(())
    }

    /// The store that the engine writes to.
    pub fn store(&self) -> (store: &MetricStore)
        ensures
            store@ == self@,
            store.wf() == self.wf(),
    {
        &self.store
    }

    /// Every labeled series with its current value, in the order of their first
    /// writes.
    pub fn snapshot(&self) -> (samples: Vec<Sample>)
        ensures
            sample_views(samples@) == self@,
    {
        self.store.snapshot()
    }
}

} // verus!
