//! What the weather codes of the World Meteorological Organization mean.

use vstd::prelude::*;

verus! {

/// How a weather code is shown: as a picture and in words.
#[derive(Debug, Clone, Copy)]
pub struct ConditionInfo {
    pub emoji: &'static str,
    pub description: &'static str,
}

/// The model of [`ConditionInfo`].
pub struct Condition {
    pub emoji: Seq<char>,
    pub description: Seq<char>,
}

impl View for ConditionInfo {
    type V = Condition;

    open spec fn view(&self) -> Condition {
        Condition { emoji: self.emoji@, description: self.description@ }
    }
}

/// The picture of a weather code.
pub open spec fn code_emoji(code: int) -> Seq<char> {
    if code == 0 {
        "☀️"@
    } else if 1 <= code <= 3 {
        "⛅"@
    } else if code == 45 || code == 48 {
        "🌫️"@
    } else if 51 <= code <= 55 || 80 <= code <= 82 {
        "🌦️"@
    } else if 56 <= code <= 57 || 61 <= code <= 67 {
        "🌧️"@
    } else if 71 <= code <= 75 || code == 77 {
        "❄️"@
    } else if 85 <= code <= 86 {
        "🌨️"@
    } else if code == 95 || code == 96 || code == 99 {
        "⛈️"@
    } else {
        "🌤️"@
    }
}

/// The description of a weather code.
pub open spec fn code_description(code: int) -> Seq<char> {
    if code == 0 {
        "Clear Sky"@
    } else if 1 <= code <= 3 {
        "Partly Cloudy"@
    } else if code == 45 || code == 48 {
        "Fog"@
    } else if 51 <= code <= 55 {
        "Drizzle"@
    } else if 56 <= code <= 57 {
        "Freezing Drizzle"@
    } else if 61 <= code <= 65 {
        "Rain"@
    } else if 66 <= code <= 67 {
        "Freezing Rain"@
    } else if 71 <= code <= 75 {
        "Snow"@
    } else if code == 77 {
        "Snow Grains"@
    } else if 80 <= code <= 82 {
        "Rain Showers"@
    } else if 85 <= code <= 86 {
        "Snow Showers"@
    } else if code == 95 {
        "Thunderstorm"@
    } else if code == 96 || code == 99 {
        "Thunderstorm With Hail"@
    } else {
        "Unknown Conditions"@
    }
}

/// The picture and the description of a weather code.
pub open spec fn condition_of(code: int) -> Condition {
    Condition { emoji: code_emoji(code), description: code_description(code) }
}

/// The picture and the description of a weather code.
pub fn weather_condition(code: u32) -> (info: ConditionInfo)
    ensures
        info@ == condition_of(code as int),
{
    let (emoji, description): (&'static str, &'static str) = match code {
        0 => ("☀️", "Clear Sky"),
        1..=3 => ("⛅", "Partly Cloudy"),
        45 | 48 => ("🌫️", "Fog"),
        51..=55 => ("🌦️", "Drizzle"),
        56..=57 => ("🌧️", "Freezing Drizzle"),
        61..=65 => ("🌧️", "Rain"),
        66..=67 => ("🌧️", "Freezing Rain"),
        71..=75 => ("❄️", "Snow"),
        77 => ("❄️", "Snow Grains"),
        80..=82 => ("🌦️", "Rain Showers"),
        85..=86 => ("🌨️", "Snow Showers"),
        95 => ("⛈️", "Thunderstorm"),
        96 | 99 => ("⛈️", "Thunderstorm With Hail"),
        _ => ("🌤️", "Unknown Conditions"),
    };
    ConditionInfo { emoji, description }
}

} // verus!
