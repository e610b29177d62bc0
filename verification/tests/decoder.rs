use remo_e_exporter::numeral::Numeral;
use remo_e_exporter::decoder::{decode, unit_for, MetricWrite};
use remo_e_exporter::errors::Error;
use remo_e_exporter::series::Series;

fn as_float(value: &Numeral) -> f64 {
    value.as_str().parse().unwrap()
}

fn write(series: Series, text: &str) -> Result<Option<MetricWrite>, Error> {
    Ok(Some(MetricWrite { series, value: Numeral::parse(text).unwrap() }))
}

#[test]
fn unit_byte_two_is_a_hundredth() {
    let decoded = decode(0xE1, "2").unwrap().unwrap();
    assert_eq!(decoded.series, Series::CumulativeElectricEnergyUnit);
    assert_eq!(decoded.value.as_str(), "0.01");
    assert_eq!(as_float(&decoded.value), 0.01);
}

#[test]
fn unit_byte_five_is_unknown() {
    let error = decode(0xE1, "5").unwrap_err();
    assert_eq!(error, Error::UnknownCumulativeElectricEnergyUnit("5".to_string()));
    assert!(error.message().contains("5"));
}

#[test]
fn every_unit_has_its_multiplier() {
    let table: [(u8, f64); 9] = [
        (0x00, 1.0),
        (0x01, 0.1),
        (0x02, 0.01),
        (0x03, 0.001),
        (0x04, 0.0001),
        (0x0A, 10.0),
        (0x0B, 100.0),
        (0x0C, 1000.0),
        (0x0D, 10000.0),
    ];
    for (unit, multiplier) in table {
        assert_eq!(as_float(&unit_for(unit).unwrap()), multiplier);
        let decoded = decode(0xE1, &unit.to_string()).unwrap().unwrap();
        assert_eq!(as_float(&decoded.value), multiplier);
    }
}

#[test]
fn no_other_byte_is_a_unit() {
    for unit in 0..=255u8 {
        let known = unit <= 0x04 || (0x0A..=0x0D).contains(&unit);
        assert_eq!(unit_for(unit).is_some(), known);
        if !known {
            assert_eq!(
                decode(0xE1, &unit.to_string()),
                Err(Error::UnknownCumulativeElectricEnergyUnit(unit.to_string()))
            );
        }
    }
}

#[test]
fn unknown_unit_keeps_the_reading_as_received() {
    assert_eq!(decode(0xE1, "+005"), Err(Error::UnknownCumulativeElectricEnergyUnit("+005".to_string())));
}

#[test]
fn unit_that_is_no_byte_is_malformed() {
    assert_eq!(decode(0xE1, "abc"), Err(Error::MalformedByte("abc".to_string())));
    assert_eq!(decode(0xE1, "256"), Err(Error::MalformedByte("256".to_string())));
    assert_eq!(decode(0xE1, "1.0"), Err(Error::MalformedByte("1.0".to_string())));
    assert_eq!(decode(0xE1, ""), Err(Error::MalformedByte(String::new())));
}

#[test]
fn gauges_take_the_number_written() {
    assert_eq!(decode(0xE7, "432"), write(Series::MeasuredInstantaneous, "432"));
    assert_eq!(decode(0xE7, "-120.5"), write(Series::MeasuredInstantaneous, "-120.5"));
    assert_eq!(decode(0xD3, "1"), write(Series::Coefficient, "1"));
    assert_eq!(decode(0xD7, "6"), write(Series::CumulativeElectricEnergyEffectiveDigits, "6"));
}

#[test]
fn counters_take_the_number_written() {
    assert_eq!(decode(0xE0, "123.4"), write(Series::NormalDirectionCumulativeElectricEnergy, "123.4"));
    assert_eq!(decode(0xE3, "50.0"), write(Series::ReverseDirectionCumulativeElectricEnergy, "50.0"));
}

#[test]
fn number_that_is_none_is_malformed() {
    for code in [0xE7u8, 0xD3, 0xD7, 0xE0, 0xE3] {
        assert_eq!(decode(code, "abc"), Err(Error::MalformedNumber("abc".to_string())));
        assert_eq!(decode(code, ""), Err(Error::MalformedNumber(String::new())));
    }
}

#[test]
fn other_codes_are_passed_over() {
    for code in 0..=255u8 {
        if ![0xE7u8, 0xD3, 0xD7, 0xE1, 0xE0, 0xE3].contains(&code) {
            assert_eq!(decode(code, "abc"), Ok(None));
            assert_eq!(decode(code, "12"), Ok(None));
        }
    }
}

#[test]
fn messages_name_the_reading() {
    assert_eq!(
        Error::UnknownCumulativeElectricEnergyUnit("5".to_string()).message(),
        "Unknown cumulative electric energy unit: 5"
    );
    assert_eq!(Error::UnsupportedRolloutKind.message(), "Unsupported kind for rollout");
    assert_eq!(Error::MalformedNumber("abc".to_string()).message(), "Invalid number: abc");
    assert_eq!(Error::MalformedByte("x".to_string()).message(), "Invalid byte: x");
}

#[test]
fn every_numeral_is_taken_whatever_its_size() {
    for code in [0xE7u8, 0xD3, 0xD7, 0xE0, 0xE3] {
        for text in [
            "100000000000000000000",
            "1.00000000000000000000",
            "1e2147483648",
            "1e-99999999999999999999",
            "nan",
            "NaN",
            "inf",
            "-Infinity",
        ] {
            let decoded = decode(code, text).unwrap().unwrap();
            assert_eq!(decoded.value.as_str(), text);
            assert_eq!(Some(decoded.series), Series::of_code(code));
        }
    }
    assert_eq!(as_float(&decode(0xE7, "100000000000000000000").unwrap().unwrap().value), 1e20);
}

#[test]
fn number_is_malformed_exactly_when_no_float_is_read_from_it() {
    for text in ["", "1", "1.5", "abc", "1e", "e1", "nan", "nane", "in", "inf", "1 ", "+", "-.5", "5.e", "0x1", "1e400"] {
        let taken = decode(0xE7, text);
        if text.parse::<f64>().is_ok() {
            assert_eq!(taken, write(Series::MeasuredInstantaneous, text));
        } else {
            assert_eq!(taken, Err(Error::MalformedNumber(text.to_string())));
        }
    }
}
