use vstd::prelude::*;

verus! {

/// A device as the device-management service lists it.
#[derive(Debug)]
pub struct Appliance {
    /// The identifier that the service gave the device.
    pub id: String,
    /// The name that the owner gave the device.
    pub nickname: String,
    /// The meter part of the device, where it has one.
    pub smart_meter: Option<SmartMeter>,
}

/// The smart meter of an appliance.
#[derive(Debug)]
pub struct SmartMeter {
    /// The readings of the meter, where the service lists them.
    pub echonetlite_properties: Option<Vec<EchonetliteProperties>>,
}

/// One reading of a smart meter.
#[derive(Debug)]
pub struct EchonetliteProperties {
    /// The name of the property.
    pub name: String,
    /// The code of the property.
    pub epc: u8,
    /// The value, as text.
    pub val: String,
    /// When the value was last updated, in milliseconds since the Unix epoch.
    pub updated_at: i64,
}

impl Appliance {
    /// The readings that this appliance brings: none where it has no meter, or
    /// where the meter lists none.
    pub open spec fn readings(self) -> Seq<EchonetliteProperties> {
        match self.smart_meter {
            Some(meter) => match meter.echonetlite_properties {
                Some(list) => list@,
                None => Seq::empty(),
            },
            None => Seq::empty(),
        }
    }
}

} // verus!
