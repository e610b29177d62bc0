use crate::errors::{Error, ErrorView};
use crate::numeral::{digits_end, is_decimal, is_numeral, numeral_view, parse_byte, parse_u8, Numeral};
use crate::series::{series_of_code, Series};
use vstd::prelude::*;

verus! {

/// What one reading asks of the metric store: the series to write, and the value.
/// The kind of the series says how the value is taken.
#[derive(Debug, PartialEq, Eq)]
pub struct MetricWrite {
    pub series: Series,
    pub value: Numeral,
}

/// A `MetricWrite` with its value as it is written.
pub ghost struct WriteView {
    pub series: Series,
    pub value: Seq<char>,
}

impl View for MetricWrite {
    type V = WriteView;

    open spec fn view(&self) -> WriteView {
        WriteView { series: self.series, value: self.value@ }
    }
}

/// The multiplier, in kWh, that a unit byte of the meter stands for, as it is
/// written.
pub open spec fn unit_multiplier(unit: u8) -> Option<Seq<char>> {
    if unit == 0x00 {
        Some("1"@)
    } else if unit == 0x01 {
        Some("0.1"@)
    } else if unit == 0x02 {
        Some("0.01"@)
    } else if unit == 0x03 {
        Some("0.001"@)
    } else if unit == 0x04 {
        Some("0.0001"@)
    } else if unit == 0x0A {
        Some("10"@)
    } else if unit == 0x0B {
        Some("100"@)
    } else if unit == 0x0C {
        Some("1000"@)
    } else if unit == 0x0D {
        Some("10000"@)
    } else {
        None
    }
}

/// What a reading with the property code `code` and the value `raw` comes to:
/// no write for a code that feeds no series; the unit's multiplier for the unit
/// code; the number that `raw` is for every other code, whenever `raw` is a
/// numeral; or the error that `raw` gives rise to.
pub open spec fn decode_spec(code: u8, raw: Seq<char>) -> Result<Option<WriteView>, ErrorView> {
    match series_of_code(code) {
        None => Ok(None),
        Some(Series::CumulativeElectricEnergyUnit) => match parse_byte(raw) {
            None => Err(ErrorView::MalformedByte(raw)),
            Some(unit) => match unit_multiplier(unit) {
                None => Err(ErrorView::UnknownCumulativeElectricEnergyUnit(raw)),
                Some(value) => Ok(
                    Some(WriteView { series: Series::CumulativeElectricEnergyUnit, value }),
                ),
            },
        },
        Some(series) => if is_numeral(raw) {
            Ok(Some(WriteView { series, value: raw }))
        } else {
            Err(ErrorView::MalformedNumber(raw))
        },
    }
}

/// The result of `decode`, with the write and the error by their views.
pub open spec fn decoded_view(result: Result<Option<MetricWrite>, Error>) -> Result<
    Option<WriteView>,
    ErrorView,
> {
    match result {
        Ok(Some(write)) => Ok(Some(write@)),
        Ok(None) => Ok(None),
        Err(error) => Err(error@),
    }
}

/// Every multiplier in the table of units is written as a numeral.
pub proof fn lemma_unit_multipliers_are_numerals(unit: u8)
    requires
        unit_multiplier(unit) is Some,
    ensures
        is_numeral(unit_multiplier(unit).unwrap()),
{
    reveal_with_fuel(digits_end, 8);
    reveal_strlit("1");
    reveal_strlit("0.1");
    reveal_strlit("0.01");
    reveal_strlit("0.001");
    reveal_strlit("0.0001");
    reveal_strlit("10");
    reveal_strlit("100");
    reveal_strlit("1000");
    reveal_strlit("10000");
    assert(is_decimal(unit_multiplier(unit).unwrap()));
}

/// The text of the multiplier that a unit byte of the meter stands for.
fn unit_text(unit: u8) -> (text: Option<&'static str>)
    ensures
        match text {
            Some(text) => unit_multiplier(unit) == Some(text@),
            None => unit_multiplier(unit) is None,
        },
{
    if unit == 0x00 {
        Some("1")
    } else if unit == 0x01 {
        Some("0.1")
    } else if unit == 0x02 {
        Some("0.01")
    } else if unit == 0x03 {
        Some("0.001")
    } else if unit == 0x04 {
        Some("0.0001")
    } else if unit == 0x0A {
        Some("10")
    } else if unit == 0x0B {
        Some("100")
    } else if unit == 0x0C {
        Some("1000")
    } else if unit == 0x0D {
        Some("10000")
    } else {
        None
    }
}

/// The multiplier, in kWh, that a unit byte of the meter stands for.
pub fn unit_for(unit: u8) -> (value: Option<Numeral>)
    ensures
        numeral_view(value) == unit_multiplier(unit),
{
    match unit_text(unit) {
        Some(text) => {
            proof {
                lemma_unit_multipliers_are_numerals(unit);
            }
            Numeral::parse(text)
        },
        None => None,
    }
}

/// Decodes one reading of a meter.
pub fn decode(code: u8, raw: &str) -> (result: Result<Option<MetricWrite>, Error>)
    ensures
        decoded_view(result) == decode_spec(code, raw@),
{
    match Series::of_code(code) {
        None => Ok(None),
        Some(Series::CumulativeElectricEnergyUnit) => match parse_u8(raw) {
            None => Err(Error::MalformedByte(raw.to_owned())),
            Some(unit) => match unit_for(unit) {
                None => Err(Error::UnknownCumulativeElectricEnergyUnit(raw.to_owned())),
                Some(value) => Ok(
                    Some(MetricWrite { series: Series::CumulativeElectricEnergyUnit, value }),
                ),
            },
        },
        Some(series) => match Numeral::parse(raw) {
            None => Err(Error::MalformedNumber(raw.to_owned())),
            Some(value) => Ok(Some(MetricWrite { series, value })),
        },
    }
}

} // verus!
