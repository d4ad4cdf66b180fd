//! Kinds of units.

use vstd::prelude::*;
use crate::text::same_text;

verus! {

/// A kind of physical quantity that units are grouped by.
#[derive(PartialEq, Eq, Structural, Clone, Copy, Debug)]
pub enum UnitType {
    Volume,
    Mass,
    Time,
    Moles,
    Concentration,
    MassConcentration,
    Temperature,
}

/// The kind named by a text, if any.
pub open spec fn unit_type_named(s: Seq<char>) -> Option<UnitType> {
    if s == "volume"@ {
        Some(UnitType::Volume)
    } else if s == "mass"@ {
        Some(UnitType::Mass)
    } else if s == "time"@ {
        Some(UnitType::Time)
    } else if s == "moles"@ {
        Some(UnitType::Moles)
    } else if s == "concentration"@ {
        Some(UnitType::Concentration)
    } else if s == "mass_concentration"@ {
        Some(UnitType::MassConcentration)
    } else if s == "temperature"@ {
        Some(UnitType::Temperature)
    } else {
        None
    }
}

impl UnitType {
    /// The kind of the given name, such as `volume` or `mass_concentration`.
    pub fn from_name(s: &str) -> (r: Option<UnitType>)
        ensures
            r == unit_type_named(s@),
    {
        if same_text(s, "volume") {
            Some(UnitType::Volume)
        } else if same_text(s, "mass") {
            Some(UnitType::Mass)
        } else if same_text(s, "time") {
            Some(UnitType::Time)
        } else if same_text(s, "moles") {
            Some(UnitType::Moles)
        } else if same_text(s, "concentration") {
            Some(UnitType::Concentration)
        } else if same_text(s, "mass_concentration") {
            Some(UnitType::MassConcentration)
        } else if same_text(s, "temperature") {
            Some(UnitType::Temperature)
        } else {
            None
        }
    }
}

} // verus!
