//! Weather-provider support types: units, query kinds, configuration and
//! the condition-code wording. The provider calls themselves are the
//! host's business.

use vstd::prelude::*;
use crate::text::{self, lower};

verus! {

/// The temperature unit a reading is shown in.
#[derive(Debug, Clone, Copy, PartialEq, Eq, Structural)]
pub enum TemperatureUnit {
    Celsius,
    Fahrenheit,
}

impl Default for TemperatureUnit {
    fn default() -> (r: Self)
        ensures
            r == TemperatureUnit::Celsius,
    {
        TemperatureUnit::Celsius
    }
}

/// Which unit a token names: `f` and `fahrenheit` in any case mean
/// Fahrenheit, everything else Celsius.
pub open spec fn temp_unit_of(s: Seq<char>) -> TemperatureUnit {
    let l = lower(s);
    if l == "f"@ || l == "fahrenheit"@ {
        TemperatureUnit::Fahrenheit
    } else {
        TemperatureUnit::Celsius
    }
}

impl TemperatureUnit {
    /// Reads a unit token, in any letter case.
    pub fn from_str(s: &str) -> (r: Self)
        ensures
            r == temp_unit_of(s@),
    {
        let v = text::str_to_chars(s);
        let l = text::to_lower_vec(&v);
        if text::vec_eq(&l, &text::str_to_chars("f")) || text::vec_eq(
            &l,
            &text::str_to_chars("fahrenheit"),
        ) {
            TemperatureUnit::Fahrenheit
        } else {
            TemperatureUnit::Celsius
        }
    }

    /// The display suffix of the unit.
    pub fn suffix(&self) -> (r: &'static str)
        ensures
            self is Celsius ==> r@ == "C"@,
            self is Fahrenheit ==> r@ == "F"@,
    {
        match self {
            TemperatureUnit::Celsius => "C",
            TemperatureUnit::Fahrenheit => "F",
        }
    }
}

/// The kind of weather question a request asks.
#[derive(Debug, Clone, Copy, PartialEq, Eq, Structural)]
pub enum QueryType {
    Current,
    Forecast,
    Assessment,
}

impl Default for QueryType {
    fn default() -> (r: Self)
        ensures
            r == QueryType::Current,
    {
        QueryType::Current
    }
}

pub open spec fn query_type_of(s: Seq<char>) -> QueryType {
    let l = lower(s);
    if l == "forecast"@ {
        QueryType::Forecast
    } else if l == "assessment"@ {
        QueryType::Assessment
    } else {
        QueryType::Current
    }
}

impl QueryType {
    /// Reads a query-kind token, in any letter case; unknown tokens mean
    /// a current-conditions query.
    pub fn from_str(s: &str) -> (r: Self)
        ensures
            r == query_type_of(s@),
    {
        let v = text::str_to_chars(s);
        let l = text::to_lower_vec(&v);
        if text::vec_eq(&l, &text::str_to_chars("forecast")) {
            QueryType::Forecast
        } else if text::vec_eq(&l, &text::str_to_chars("assessment")) {
            QueryType::Assessment
        } else {
            QueryType::Current
        }
    }
}

/// Credentials for the premium weather provider.
#[derive(Debug, Clone)]
pub struct WeatherKitConfig {
    /// Developer team identifier.
    pub team_id: String,
    /// Service identifier.
    pub service_id: String,
    /// Key identifier from the signing key's file name.
    pub key_id: String,
    /// Path to the signing key file.
    pub private_key_path: String,
}

impl WeatherKitConfig {
    /// A configuration from explicit values.
    pub fn new(team_id: &str, service_id: &str, key_id: &str, private_key_path: &str) -> (r: Self)
        ensures
            r.team_id@ == team_id@,
            r.service_id@ == service_id@,
            r.key_id@ == key_id@,
            r.private_key_path@ == private_key_path@,
    {
        WeatherKitConfig {
            team_id: team_id.to_owned(),
            service_id: service_id.to_owned(),
            key_id: key_id.to_owned(),
            private_key_path: private_key_path.to_owned(),
        }
    }
}

/// Credentials for the maps geocoding provider.
#[derive(Debug, Clone)]
pub struct AppleMapsConfig {
    /// Developer team identifier.
    pub team_id: String,
    /// Maps identifier.
    pub maps_id: String,
    /// Key identifier from the signing key's file name.
    pub key_id: String,
    /// Path to the signing key file.
    pub private_key_path: String,
}

/// A provider access token with the moment it was obtained, in seconds of
/// monotonic time supplied by the host.
#[derive(Debug, Clone)]
pub struct CachedAccessToken {
    pub token: String,
    pub obtained_at_secs: u64,
}

impl CachedAccessToken {
    /// Whether the token is still fresh at `now_secs`: tokens last half an
    /// hour and are refreshed five minutes early.
    pub fn is_valid(&self, now_secs: u64) -> (r: bool)
        requires
            now_secs >= self.obtained_at_secs,
        ensures
            r == (now_secs - self.obtained_at_secs < 1500),
    {
        now_secs - self.obtained_at_secs < 1500
    }
}

/// The human wording of a provider condition code; unknown codes pass
/// through.
pub open spec fn condition_text(code: Seq<char>) -> Seq<char> {
    if code == "Clear"@ { "clear"@ }
    else if code == "Cloudy"@ { "cloudy"@ }
    else if code == "MostlyClear"@ { "mostly clear"@ }
    else if code == "MostlyCloudy"@ { "mostly cloudy"@ }
    else if code == "PartlyCloudy"@ { "partly cloudy"@ }
    else if code == "Rain"@ { "rain"@ }
    else if code == "Drizzle"@ { "drizzle"@ }
    else if code == "HeavyRain"@ { "heavy rain"@ }
    else if code == "Snow"@ { "snow"@ }
    else if code == "Flurries"@ { "flurries"@ }
    else if code == "HeavySnow"@ { "heavy snow"@ }
    else if code == "Sleet"@ { "sleet"@ }
    else if code == "FreezingRain"@ { "freezing rain"@ }
    else if code == "Thunderstorms"@ { "thunderstorms"@ }
    else if code == "Windy"@ { "windy"@ }
    else if code == "Foggy"@ { "foggy"@ }
    else if code == "Haze"@ { "haze"@ }
    else if code == "Hot"@ { "hot"@ }
    else if code == "Cold"@ { "cold"@ }
    else { code }
}

/// Turns a provider condition code into human wording; unknown codes pass
/// through unchanged.
pub fn format_condition<'a>(code: &'a str) -> (r: &'a str)
    ensures
        r@ == condition_text(code@),
{
    let v = text::str_to_chars(code);
    if text::vec_eq(&v, &text::str_to_chars("Clear")) { "clear" }
    else if text::vec_eq(&v, &text::str_to_chars("Cloudy")) { "cloudy" }
    else if text::vec_eq(&v, &text::str_to_chars("MostlyClear")) { "mostly clear" }
    else if text::vec_eq(&v, &text::str_to_chars("MostlyCloudy")) { "mostly cloudy" }
    else if text::vec_eq(&v, &text::str_to_chars("PartlyCloudy")) { "partly cloudy" }
    else if text::vec_eq(&v, &text::str_to_chars("Rain")) { "rain" }
    else if text::vec_eq(&v, &text::str_to_chars("Drizzle")) { "drizzle" }
    else if text::vec_eq(&v, &text::str_to_chars("HeavyRain")) { "heavy rain" }
    else if text::vec_eq(&v, &text::str_to_chars("Snow")) { "snow" }
    else if text::vec_eq(&v, &text::str_to_chars("Flurries")) { "flurries" }
    else if text::vec_eq(&v, &text::str_to_chars("HeavySnow")) { "heavy snow" }
    else if text::vec_eq(&v, &text::str_to_chars("Sleet")) { "sleet" }
    else if text::vec_eq(&v, &text::str_to_chars("FreezingRain")) { "freezing rain" }
    else if text::vec_eq(&v, &text::str_to_chars("Thunderstorms")) { "thunderstorms" }
    else if text::vec_eq(&v, &text::str_to_chars("Windy")) { "windy" }
    else if text::vec_eq(&v, &text::str_to_chars("Foggy")) { "foggy" }
    else if text::vec_eq(&v, &text::str_to_chars("Haze")) { "haze" }
    else if text::vec_eq(&v, &text::str_to_chars("Hot")) { "hot" }
    else if text::vec_eq(&v, &text::str_to_chars("Cold")) { "cold" }
    else { code }
}

} // verus!
