//! The carbon intensity of electricity, as the service reports it.

use vstd::prelude::*;
use vstd::string::StringExecFns;

verus! {

/// How the intensity of a period compares with what is usual.
#[derive(Debug, Clone, Copy)]
pub enum IntensityIndex {
    VeryLow,
    Low,
    Moderate,
    High,
    VeryHigh,
}

/// The intensity of a period, in grams of carbon dioxide per kilowatt hour.
#[derive(Debug, Clone, Copy)]
pub struct Intensity {
    /// What was forecast for the period.
    pub forecast: u32,
    /// What was measured.
    pub actual: u32,
    /// How that compares with what is usual.
    pub index: IntensityIndex,
}

/// The intensity of one period.
#[derive(Debug, Clone)]
pub struct CarbonIntensityData {
    /// When the period begins.
    pub from: String,
    /// When it ends.
    pub to: String,
    /// The intensity during it.
    pub intensity: Intensity,
}

impl IntensityIndex {
    /// The index in words.
    pub open spec fn label(self) -> Seq<char> {
        match self {
            IntensityIndex::VeryLow => "very low"@,
            IntensityIndex::Low => "low"@,
            IntensityIndex::Moderate => "moderate"@,
            IntensityIndex::High => "high"@,
            IntensityIndex::VeryHigh => "very high"@,
        }
    }

    /// The index in words.
    pub fn as_text(&self) -> (r: &'static str)
        ensures
            r@ == self.label(),
    {
        match self {
            IntensityIndex::VeryLow => "very low",
            IntensityIndex::Low => "low",
            IntensityIndex::Moderate => "moderate",
            IntensityIndex::High => "high",
            IntensityIndex::VeryHigh => "very high",
        }
    }
}

/// The intensity that the service reports: for the time being always that of one half hour of
/// January 2018.
pub fn reported_intensity() -> (r: CarbonIntensityData)
    ensures
        r.from@ == "2018-01-20T12:00Z"@,
        r.to@ == "2018-01-20T12:30Z"@,
        r.intensity.forecast == 266,
        r.intensity.actual == 263,
        r.intensity.index == IntensityIndex::Moderate,
{
    CarbonIntensityData {
        from: String::from_str("2018-01-20T12:00Z"),
        to: String::from_str("2018-01-20T12:30Z"),
        intensity: Intensity { forecast: 266, actual: 263, index: IntensityIndex::Moderate },
    }
}

} // verus!
