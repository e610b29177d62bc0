use vstd::prelude::*;
use vstd::string::StringExecFns;

verus! {

/// What makes a refresh fail inside the library.
#[derive(Debug, PartialEq, Eq)]
pub enum Error {
    /// The unit reading is a byte, but none of the units that a meter can report.
    /// Holds the reading as it was received.
    UnknownCumulativeElectricEnergyUnit(String),
    /// A series was asked to take a kind of write that it does not support.
    UnsupportedRolloutKind,
    /// A reading that has to be a number is written as none. Holds the reading
    /// as it was received.
    MalformedNumber(String),
    /// The unit reading is no byte. Holds the reading as it was received.
    MalformedByte(String),
}

/// An `Error` with its texts as sequences of characters.
pub ghost enum ErrorView {
    UnknownCumulativeElectricEnergyUnit(Seq<char>),
    UnsupportedRolloutKind,
    MalformedNumber(Seq<char>),
    MalformedByte(Seq<char>),
}

impl View for Error {
    type V = ErrorView;

    open spec fn view(&self) -> ErrorView {
        match self {
            Error::UnknownCumulativeElectricEnergyUnit(raw) => {
                ErrorView::UnknownCumulativeElectricEnergyUnit(raw@)
            },
            Error::UnsupportedRolloutKind => ErrorView::UnsupportedRolloutKind,
            Error::MalformedNumber(raw) => ErrorView::MalformedNumber(raw@),
            Error::MalformedByte(raw) => ErrorView::MalformedByte(raw@),
        }
    }
}

impl ErrorView {
    /// The line that describes the error to an operator.
    pub open spec fn message(self) -> Seq<char> {
        match self {
            ErrorView::UnknownCumulativeElectricEnergyUnit(raw) => {
                "Unknown cumulative electric energy unit: "@ + raw
            },
            ErrorView::UnsupportedRolloutKind => "Unsupported kind for rollout"@,
            ErrorView::MalformedNumber(raw) => "Invalid number: "@ + raw,
            ErrorView::MalformedByte(raw) => "Invalid byte: "@ + raw,
        }
    }
}

impl Error {
    /// The line that describes the error to an operator.
    pub fn message(&self) -> (line: String)
        ensures
            line@ == self@.message(),
    {
        match self {
            Error::UnknownCumulativeElectricEnergyUnit(raw) => {
                let mut line = "Unknown cumulative electric energy unit: ".to_owned();
                line.append(raw.as_str());
                line
            },
            Error::UnsupportedRolloutKind => "Unsupported kind for rollout".to_owned(),
            Error::MalformedNumber(raw) => {
                let mut line = "Invalid number: ".to_owned();
                line.append(raw.as_str());
                line
            },
            Error::MalformedByte(raw) => {
                let mut line = "Invalid byte: ".to_owned();
                line.append(raw.as_str());
                line
            },
        }
    }
}

} // verus!
