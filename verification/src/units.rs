//! The units in which a report is given.

use vstd::prelude::*;
use vstd::string::*;

use crate::error::Failure;
use crate::error::WeatherError;
use crate::text::ascii_lowercase;
use crate::text::blank_text_is_trimmed_to_nothing;
use crate::text::equal_ignoring_ascii_case;
use crate::text::optional_text;
use crate::text::trim;
use crate::text::trimmed;
use crate::text::white_space;

verus! {

/// The units of a report: of its temperatures, and with them of its wind speed.
#[derive(Debug, Clone, Copy, PartialEq, Eq, Structural)]
pub enum Units {
    Celsius,
    Fahrenheit,
}

impl Units {
    /// What is written behind a temperature.
    pub open spec fn symbol_text(self) -> Seq<char> {
        match self {
            Units::Celsius => "°C"@,
            Units::Fahrenheit => "°F"@,
        }
    }

    /// What is written behind a wind speed.
    pub open spec fn wind_unit_text(self) -> Seq<char> {
        match self {
            Units::Celsius => "km/h"@,
            Units::Fahrenheit => "mph"@,
        }
    }

    /// The units that are not these.
    pub open spec fn opposite(self) -> Units {
        match self {
            Units::Celsius => Units::Fahrenheit,
            Units::Fahrenheit => Units::Celsius,
        }
    }

    /// What is written behind a temperature.
    pub fn symbol(self) -> (text: &'static str)
        ensures
            text@ == self.symbol_text(),
    {
        match self {
            Units::Celsius => "°C",
            Units::Fahrenheit => "°F",
        }
    }

    /// What is written behind a wind speed.
    pub fn wind_unit(self) -> (text: &'static str)
        ensures
            text@ == self.wind_unit_text(),
    {
        match self {
            Units::Celsius => "km/h",
            Units::Fahrenheit => "mph",
        }
    }

    /// The units that are not these.
    pub fn other(self) -> (units: Units)
        ensures
            units == self.opposite(),
    {
        match self {
            Units::Celsius => Units::Fahrenheit,
            Units::Fahrenheit => Units::Celsius,
        }
    }
}

/// The other units of the other units are the units themselves, and never the same as the others.
pub proof fn other_units_alternate(units: Units)
    ensures
        units.opposite() != units,
        units.opposite().opposite() == units,
{
}

/// Whether a text names the units, in any case.
pub open spec fn names_units(text: Seq<char>, units: Units) -> bool {
    match units {
        Units::Celsius => ascii_lowercase(text) == "celsius"@,
        Units::Fahrenheit => ascii_lowercase(text) == "fahrenheit"@,
    }
}

/// The units that a request asks for: Fahrenheit where it names none, else the units that it
/// names, in any case and with any white space around the name.
pub open spec fn requested_units(text: Option<Seq<char>>) -> Result<Units, Failure> {
    match text {
        None => Ok(Units::Fahrenheit),
        Some(text) => {
            let name = trimmed(text);
            if name.len() == 0 {
                Ok(Units::Fahrenheit)
            } else if names_units(name, Units::Celsius) {
                Ok(Units::Celsius)
            } else if names_units(name, Units::Fahrenheit) {
                Ok(Units::Fahrenheit)
            } else {
                Err(
                    Failure::InvalidInput(
                        "Unsupported units '"@ + name + "'. Use 'celsius' or 'fahrenheit'."@,
                    ),
                )
            }
        },
    }
}

proof fn lemma_names_are_lowercase()
    ensures
        ascii_lowercase("celsius"@) == "celsius"@,
        ascii_lowercase("fahrenheit"@) == "fahrenheit"@,
{
    reveal_strlit("celsius");
    reveal_strlit("fahrenheit");
    assert(ascii_lowercase("celsius"@) =~= "celsius"@);
    assert(ascii_lowercase("fahrenheit"@) =~= "fahrenheit"@);
}

/// The units that a request asks for.
pub fn parse_units(units: Option<&str>) -> (result: Result<Units, WeatherError>)
    ensures
        match result {
            Ok(chosen) => requested_units(optional_text(units)) == Ok::<Units, Failure>(chosen),
            Err(error) => requested_units(optional_text(units)) == Err::<Units, Failure>(error@),
        },
{
    proof {
        lemma_names_are_lowercase();
    }
    match units {
        None => Ok(Units::Fahrenheit),
        Some(text) => {
            let value = trim(text);
            if value.as_str().is_empty() {
                Ok(Units::Fahrenheit)
            } else if equal_ignoring_ascii_case(value.as_str(), "celsius") {
                Ok(Units::Celsius)
            } else if equal_ignoring_ascii_case(value.as_str(), "fahrenheit") {
                Ok(Units::Fahrenheit)
            } else {
                let mut message = "Unsupported units '".to_string();
                message.append(value.as_str());
                message.append("'. Use 'celsius' or 'fahrenheit'.");
                Err(WeatherError::InvalidInput(message))
            }
        },
    }
}

/// A request that names no units, or names them with white space alone, is served in Fahrenheit.
pub proof fn units_default_to_fahrenheit(text: Option<Seq<char>>)
    requires
        text matches Some(text) ==> forall|i: int|
            0 <= i < text.len() ==> white_space(#[trigger] text[i]),
    ensures
        requested_units(text) == Ok::<Units, Failure>(Units::Fahrenheit),
{
    if let Some(text) = text {
        blank_text_is_trimmed_to_nothing(text);
    }
}

/// The case of the letters of a name does not count: where one spelling is accepted, so is every
/// other, for the same units.
pub proof fn case_of_units_does_not_count(one: Seq<char>, other: Seq<char>)
    requires
        ascii_lowercase(trimmed(one)) == ascii_lowercase(trimmed(other)),
        requested_units(Some(one)) is Ok,
    ensures
        requested_units(Some(other)) == requested_units(Some(one)),
{
    assert(ascii_lowercase(trimmed(one)).len() == trimmed(one).len());
    assert(ascii_lowercase(trimmed(other)).len() == trimmed(other).len());
}

/// How a temperature is converted: subtract, multiply, divide and add, in this order.
#[derive(Debug, Clone, Copy, PartialEq, Eq, Structural)]
pub struct Conversion {
    pub subtract: i32,
    pub multiply: i32,
    pub divide: i32,
    pub add: i32,
}

impl Conversion {
    /// Whether the conversion takes the temperature `from` to the temperature `to`, in exact
    /// arithmetic. Both are given in units of `1 / scale` degrees.
    pub open spec fn takes(self, from: int, to: int, scale: int) -> bool {
        (to - self.add * scale) * self.divide == (from - self.subtract * scale) * self.multiply
    }
}

/// How a temperature in `from` is converted to `to`: degrees Fahrenheit are nine fifths of degrees
/// Celsius, counted from 32.
pub fn temperature_conversion(from: Units, to: Units) -> (conversion: Conversion)
    ensures
        conversion == conversion_between(from, to),
{
    match (from, to) {
        (Units::Celsius, Units::Fahrenheit) => Conversion {
            subtract: 0,
            multiply: 9,
            divide: 5,
            add: 32,
        },
        (Units::Fahrenheit, Units::Celsius) => Conversion {
            subtract: 32,
            multiply: 5,
            divide: 9,
            add: 0,
        },
        _ => Conversion { subtract: 0, multiply: 1, divide: 1, add: 0 },
    }
}

/// How a temperature in `from` is converted to `to`.
pub open spec fn conversion_between(from: Units, to: Units) -> Conversion {
    if from == to {
        Conversion { subtract: 0, multiply: 1, divide: 1, add: 0 }
    } else if to == Units::Fahrenheit {
        Conversion { subtract: 0, multiply: 9, divide: 5, add: 32 }
    } else {
        Conversion { subtract: 32, multiply: 5, divide: 9, add: 0 }
    }
}

/// In exact arithmetic, converting back undoes converting: a temperature is taken to another
/// exactly where that one is taken back to it.
pub proof fn converting_back_undoes(from: Units, to: Units, one: int, other: int, scale: int)
    ensures
        conversion_between(from, to).takes(one, other, scale) <==> conversion_between(
            to,
            from,
        ).takes(other, one, scale),
{
}

/// Converting to the same units changes nothing.
pub proof fn same_units_convert_to_themselves(units: Units, one: int, other: int, scale: int)
    ensures
        conversion_between(units, units).takes(one, other, scale) <==> one == other,
{
    assert((other - 0 * scale) * 1 == other) by (nonlinear_arith);
    assert((one - 0 * scale) * 1 == one) by (nonlinear_arith);
}

} // verus!
