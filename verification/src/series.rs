use vstd::prelude::*;

verus! {

/// How a series takes a new reading.
#[derive(Clone, Copy, Debug, PartialEq, Eq, Structural, Hash)]
pub enum SeriesKind {
    /// A scalar that is set: the last write wins.
    Gauge,
    /// An accumulator that can only be restarted from zero and added to.
    Counter,
}

/// The series that the exporter publishes, one for each meter property it reads.
#[derive(Clone, Copy, Debug, PartialEq, Eq, Structural, Hash)]
pub enum Series {
    /// Measured instantaneous power, in W.
    MeasuredInstantaneous,
    /// Coefficient for the cumulative energy readings.
    Coefficient,
    /// Number of effective digits of the cumulative energy readings.
    CumulativeElectricEnergyEffectiveDigits,
    /// Unit of the cumulative energy readings, in kWh.
    CumulativeElectricEnergyUnit,
    /// Cumulative energy in the normal direction, as the meter counts it.
    NormalDirectionCumulativeElectricEnergy,
    /// Cumulative energy in the reverse direction, as the meter counts it.
    ReverseDirectionCumulativeElectricEnergy,
}

/// The series that a property code feeds, if any.
pub open spec fn series_of_code(code: u8) -> Option<Series> {
    if code == 0xE7 {
        Some(Series::MeasuredInstantaneous)
    } else if code == 0xD3 {
        Some(Series::Coefficient)
    } else if code == 0xD7 {
        Some(Series::CumulativeElectricEnergyEffectiveDigits)
    } else if code == 0xE1 {
        Some(Series::CumulativeElectricEnergyUnit)
    } else if code == 0xE0 {
        Some(Series::NormalDirectionCumulativeElectricEnergy)
    } else if code == 0xE3 {
        Some(Series::ReverseDirectionCumulativeElectricEnergy)
    } else {
        None
    }
}

/// Every series, in the order in which they are registered for export.
pub open spec fn all_series() -> Seq<Series> {
    seq![
        Series::MeasuredInstantaneous,
        Series::Coefficient,
        Series::CumulativeElectricEnergyUnit,
        Series::CumulativeElectricEnergyEffectiveDigits,
        Series::NormalDirectionCumulativeElectricEnergy,
        Series::ReverseDirectionCumulativeElectricEnergy,
    ]
}

impl Series {
    /// The property code that feeds this series.
    pub open spec fn spec_code(self) -> u8 {
        match self {
            Series::MeasuredInstantaneous => 0xE7,
            Series::Coefficient => 0xD3,
            Series::CumulativeElectricEnergyEffectiveDigits => 0xD7,
            Series::CumulativeElectricEnergyUnit => 0xE1,
            Series::NormalDirectionCumulativeElectricEnergy => 0xE0,
            Series::ReverseDirectionCumulativeElectricEnergy => 0xE3,
        }
    }

    /// How this series takes a reading.
    pub open spec fn spec_kind(self) -> SeriesKind {
        match self {
            Series::NormalDirectionCumulativeElectricEnergy => SeriesKind::Counter,
            Series::ReverseDirectionCumulativeElectricEnergy => SeriesKind::Counter,
            _ => SeriesKind::Gauge,
        }
    }

    /// The name under which this series is exported.
    pub open spec fn spec_name(self) -> Seq<char> {
        match self {
            Series::MeasuredInstantaneous => "remo_measured_instantaneous"@,
            Series::Coefficient => "remo_coefficient"@,
            Series::CumulativeElectricEnergyEffectiveDigits => {
                "remo_cumulative_electric_energy_effective_digits"@
            },
            Series::CumulativeElectricEnergyUnit => "remo_cumulative_electric_energy_unit"@,
            Series::NormalDirectionCumulativeElectricEnergy => {
                "remo_normal_direction_cumulative_electric_energy"@
            },
            Series::ReverseDirectionCumulativeElectricEnergy => {
                "remo_reverse_direction_cumulative_electric_energy"@
            },
        }
    }

    /// The line that explains this series in an export.
    pub open spec fn spec_help(self) -> Seq<char> {
        match self {
            Series::MeasuredInstantaneous => {
                "Measured instantaneous usage in W (echonet lite property, smart meter EPC=0xE7)"@
            },
            Series::Coefficient => {
                "Coefficient for remo_*_cumulative_electric_energy metrics (echonet lite property, smart meter EPC=0xD3)"@
            },
            Series::CumulativeElectricEnergyEffectiveDigits => {
                "Number of effective digits for remo_*_cumulative_electric_energy metrics (echonet lite property, smart meter EPC=0xD7)"@
            },
            Series::CumulativeElectricEnergyUnit => {
                "Unit in kWh for remo_*_cumulative_electric_energy metrics (echonet lite property, smart meter EPC=0xE1)"@
            },
            Series::NormalDirectionCumulativeElectricEnergy => {
                "Raw value for cumulative electric energy usage in positive direction (echonet lite property, smart meter EPC=0xE0)"@
            },
            Series::ReverseDirectionCumulativeElectricEnergy => {
                "Raw value for cumulative electric energy usage in reverse direction (echonet lite property, smart meter EPC=0xE3)"@
            },
        }
    }

    /// The series that a property code feeds, if any.
    pub fn of_code(code: u8) -> (series: Option<Series>)
        ensures
            series == series_of_code(code),
    {
        if code == 0xE7 {
            Some(Series::MeasuredInstantaneous)
        } else if code == 0xD3 {
            Some(Series::Coefficient)
        } else if code == 0xD7 {
            Some(Series::CumulativeElectricEnergyEffectiveDigits)
        } else if code == 0xE1 {
            Some(Series::CumulativeElectricEnergyUnit)
        } else if code == 0xE0 {
            Some(Series::NormalDirectionCumulativeElectricEnergy)
        } else if code == 0xE3 {
            Some(Series::ReverseDirectionCumulativeElectricEnergy)
        } else {
            None
        }
    }

    /// The property code that feeds this series.
    pub fn code(&self) -> (code: u8)
        ensures
            code == self.spec_code(),
    {
        match self {
            Series::MeasuredInstantaneous => 0xE7,
            Series::Coefficient => 0xD3,
            Series::CumulativeElectricEnergyEffectiveDigits => 0xD7,
            Series::CumulativeElectricEnergyUnit => 0xE1,
            Series::NormalDirectionCumulativeElectricEnergy => 0xE0,
            Series::ReverseDirectionCumulativeElectricEnergy => 0xE3,
        }
    }

    /// How this series takes a reading.
    pub fn kind(&self) -> (kind: SeriesKind)
        ensures
            kind == self.spec_kind(),
    {
        match self {
            Series::NormalDirectionCumulativeElectricEnergy => SeriesKind::Counter,
            Series::ReverseDirectionCumulativeElectricEnergy => SeriesKind::Counter,
            _ => SeriesKind::Gauge,
        }
    }

    /// The name under which this series is exported.
    pub fn name(&self) -> (name: &'static str)
        ensures
            name@ == self.spec_name(),
    {
        match self {
            Series::MeasuredInstantaneous => "remo_measured_instantaneous",
            Series::Coefficient => "remo_coefficient",
            Series::CumulativeElectricEnergyEffectiveDigits => {
                "remo_cumulative_electric_energy_effective_digits"
            },
            Series::CumulativeElectricEnergyUnit => "remo_cumulative_electric_energy_unit",
            Series::NormalDirectionCumulativeElectricEnergy => {
                "remo_normal_direction_cumulative_electric_energy"
            },
            Series::ReverseDirectionCumulativeElectricEnergy => {
                "remo_reverse_direction_cumulative_electric_energy"
            },
        }
    }

    /// The line that explains this series in an export.
    pub fn help(&self) -> (help: &'static str)
        ensures
            help@ == self.spec_help(),
    {
        match self {
            Series::MeasuredInstantaneous => {
                "Measured instantaneous usage in W (echonet lite property, smart meter EPC=0xE7)"
            },
            Series::Coefficient => {
                "Coefficient for remo_*_cumulative_electric_energy metrics (echonet lite property, smart meter EPC=0xD3)"
            },
            Series::CumulativeElectricEnergyEffectiveDigits => {
                "Number of effective digits for remo_*_cumulative_electric_energy metrics (echonet lite property, smart meter EPC=0xD7)"
            },
            Series::CumulativeElectricEnergyUnit => {
                "Unit in kWh for remo_*_cumulative_electric_energy metrics (echonet lite property, smart meter EPC=0xE1)"
            },
            Series::NormalDirectionCumulativeElectricEnergy => {
                "Raw value for cumulative electric energy usage in positive direction (echonet lite property, smart meter EPC=0xE0)"
            },
            Series::ReverseDirectionCumulativeElectricEnergy => {
                "Raw value for cumulative electric energy usage in reverse direction (echonet lite property, smart meter EPC=0xE3)"
            },
        }
    }

    /// Every series, in the order in which they are registered for export.
    pub fn all() -> (list: Vec<Series>)
        ensures
            list@ == all_series(),
    {
        let mut list: Vec<Series> = Vec::new();
        list.push(Series::MeasuredInstantaneous);
        list.push(Series::Coefficient);
        list.push(Series::CumulativeElectricEnergyUnit);
        list.push(Series::CumulativeElectricEnergyEffectiveDigits);
        list.push(Series::NormalDirectionCumulativeElectricEnergy);
        list.push(Series::ReverseDirectionCumulativeElectricEnergy);
        assert(list@ =~= all_series());
        list
    }
}

/// A series is found again from its own property code.
pub proof fn lemma_code_round_trip(series: Series)
    ensures
        series_of_code(series.spec_code()) == Some(series),
{
}

/// A code that feeds a series is that series' own code.
pub proof fn lemma_code_of_series(code: u8)
    requires
        series_of_code(code) is Some,
    ensures
        series_of_code(code).unwrap().spec_code() == code,
{
}

/// Every series stands in the list of all series, once.
pub proof fn lemma_all_series_complete(series: Series)
    ensures
        exists|i: int|
            0 <= i < all_series().len() && #[trigger] all_series()[i] == series && forall|j: int|
                0 <= j < all_series().len() && all_series()[j] == series ==> j == i,
{
    let i: int = match series {
        Series::MeasuredInstantaneous => 0,
        Series::Coefficient => 1,
        Series::CumulativeElectricEnergyUnit => 2,
        Series::CumulativeElectricEnergyEffectiveDigits => 3,
        Series::NormalDirectionCumulativeElectricEnergy => 4,
        Series::ReverseDirectionCumulativeElectricEnergy => 5,
    };
    assert(all_series()[i] == series);
}

/// No two series are exported under one name.
pub proof fn lemma_names_distinct(a: Series, b: Series)
    requires
        a != b,
    ensures
        a.spec_name() != b.spec_name(),
{
    reveal_strlit("remo_measured_instantaneous");
    reveal_strlit("remo_coefficient");
    reveal_strlit("remo_cumulative_electric_energy_effective_digits");
    reveal_strlit("remo_cumulative_electric_energy_unit");
    reveal_strlit("remo_normal_direction_cumulative_electric_energy");
    reveal_strlit("remo_reverse_direction_cumulative_electric_energy");
    assert(a.spec_name().len() != b.spec_name().len() || a.spec_name()[5] != b.spec_name()[5]);
}

} // verus!
