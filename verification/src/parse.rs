//! Reading a forecast document into a history.
//!
//! The document is a JSON object of the shape
//! `{"location": {"name": ..}, "forecast": {"forecastday": [{"date": ..,
//! "day": {"condition": {"text": ..}}}, ..]}}`. What the reader returns for
//! a document is stated as a function of the document's tree.

use vstd::prelude::*;
use vstd::string::StringExecFns;
use vstd::utf8::encode_utf8;
use crate::classify::{classification, classify_weather, lowercase_of};
use crate::date::{date_timestamp, parse_date_to_timestamp};
use crate::history::HistoricalData;
use crate::json::{as_items, as_text, error_message, json_document, json_tree, member, parse_json, JsonTree};
use crate::state::WeatherState;

verus! {

/// Why a document could not be read.
#[derive(Debug, Clone)]
pub enum ParseError {
    /// The text is not JSON; holds the parser's message.
    JsonError(String),
    /// A member is missing or has the wrong type; holds its dotted path.
    MissingField(String),
    /// The document is well-shaped but its content cannot be used.
    InvalidData(String),
}

/// A `ParseError` with its texts as character sequences.
pub enum Fault {
    Json(Seq<char>),
    MissingField(Seq<char>),
    InvalidData(Seq<char>),
}

impl View for ParseError {
    type V = Fault;

    open spec fn view(&self) -> Fault {
        match self {
            ParseError::JsonError(msg) => Fault::Json(msg@),
            ParseError::MissingField(field) => Fault::MissingField(field@),
            ParseError::InvalidData(msg) => Fault::InvalidData(msg@),
        }
    }
}

impl Fault {
    /// The sentence that describes the fault.
    pub open spec fn message_text(self) -> Seq<char> {
        match self {
            Fault::Json(msg) => "JSON parsing error: "@ + msg,
            Fault::MissingField(field) => "Missing required field: "@ + field,
            Fault::InvalidData(msg) => "Invalid data: "@ + msg,
        }
    }
}

impl ParseError {
    /// The sentence that describes the error.
    pub fn message(&self) -> (s: String)
        ensures
            s@ == self@.message_text(),
    {
        match self {
            ParseError::JsonError(msg) => String::from_str("JSON parsing error: ").concat(
                msg.as_str(),
            ),
            ParseError::MissingField(field) => String::from_str("Missing required field: ").concat(
                field.as_str(),
            ),
            ParseError::InvalidData(msg) => String::from_str("Invalid data: ").concat(msg.as_str()),
        }
    }
}

/// Fewest observations that make a usable history.
pub const MIN_OBSERVATIONS: usize = 2;

/// What one element of the forecast array yields: its date as a timestamp
/// and its condition text as a state, or the first fault met on the way.
pub open spec fn day_entry(day: JsonTree) -> Result<WeatherState, Fault> {
    match day.text_member("date"@) {
        None => Err(Fault::MissingField("date"@)),
        Some(date) => match date_timestamp(encode_utf8(date)) {
            Err(e) => Err(Fault::InvalidData("Invalid date format: "@ + e.message_text())),
            Ok(timestamp) => match day.member("day"@) {
                None => Err(Fault::MissingField("day"@)),
                Some(summary) => match summary.member("condition"@) {
                    None => Err(Fault::MissingField("day.condition"@)),
                    Some(condition) => match condition.text_member("text"@) {
                        None => Err(Fault::MissingField("day.condition.text"@)),
                        Some(text) => Ok(
                            WeatherState { state: classification(lowercase_of(text)), timestamp },
                        ),
                    },
                },
            },
        },
    }
}

/// What the first `n` elements of the forecast array yield: their
/// observations in order, or the fault of the first element that has one.
pub open spec fn day_entries(days: Seq<JsonTree>, n: nat) -> Result<Seq<WeatherState>, Fault>
    decreases n,
{
    if n == 0 {
        Ok(Seq::empty())
    } else {
        match day_entries(days, (n - 1) as nat) {
            Err(fault) => Err(fault),
            Ok(observations) => match day_entry(days[n - 1]) {
                Err(fault) => Err(fault),
                Ok(observation) => Ok(observations.push(observation)),
            },
        }
    }
}

/// The history that a location name and the outcome of reading the days
/// make: the fault if there is one, a refusal if there are fewer than two
/// observations, and otherwise the name with the observations.
pub open spec fn history_of(name: Seq<char>, entries: Result<Seq<WeatherState>, Fault>) -> Result<
    (Seq<char>, Seq<WeatherState>),
    Fault,
> {
    match entries {
        Err(fault) => Err(fault),
        Ok(observations) => if observations.len() < MIN_OBSERVATIONS {
            Err(Fault::InvalidData("Insufficient weather data (need at least 2 days)"@))
        } else {
            Ok((name, observations))
        },
    }
}

/// What a document yields: the location name and the observations of its
/// forecast days, or the first fault met when reading it from the top.
pub open spec fn forecast(doc: JsonTree) -> Result<(Seq<char>, Seq<WeatherState>), Fault> {
    match doc.member("location"@) {
        None => Err(Fault::MissingField("location"@)),
        Some(location) => match location.text_member("name"@) {
            None => Err(Fault::MissingField("location.name"@)),
            Some(name) => match doc.member("forecast"@) {
                None => Err(Fault::MissingField("forecast"@)),
                Some(section) => match section.list_member("forecastday"@) {
                    None => Err(Fault::MissingField("forecast.forecastday"@)),
                    Some(days) => history_of(name, day_entries(days, days.len())),
                },
            },
        }
    }
}

/// What a parsed or unparsable text yields.
pub open spec fn reading(document: Result<JsonTree, Seq<char>>) -> Result<
    (Seq<char>, Seq<WeatherState>),
    Fault,
> {
    match document {
        Err(msg) => Err(Fault::Json(msg)),
        Ok(tree) => forecast(tree),
    }
}

/// The result `r` is exactly what `expected` describes.
pub open spec fn delivers(
    r: Result<HistoricalData, ParseError>,
    expected: Result<(Seq<char>, Seq<WeatherState>), Fault>,
) -> bool {
    match r {
        Ok(data) => expected == Ok::<(Seq<char>, Seq<WeatherState>), Fault>(
            (data.location@, data.states@),
        ),
        Err(e) => expected == Err::<(Seq<char>, Seq<WeatherState>), Fault>(e@),
    }
}

fn missing(field: &str) -> (e: ParseError)
    ensures
        e@ == Fault::MissingField(field@),
{
    ParseError::MissingField(field.to_owned())
}

/// Reads one element of the forecast array.
fn read_day(day_data: &serde_json::Value) -> (r: Result<WeatherState, ParseError>)
    ensures
        match r {
            Ok(w) => day_entry(json_tree(*day_data)) == Ok::<WeatherState, Fault>(w),
            Err(e) => day_entry(json_tree(*day_data)) == Err::<WeatherState, Fault>(e@),
        },
{
    let date_str: &str = match member(day_data, "date") {
        Some(v) => match as_text(v) {
            Some(s) => s,
            None => {
                return Err(missing("date"));
            },
        },
        None => {
            return Err(missing("date"));
        },
    };
    let timestamp: i64 = match parse_date_to_timestamp(date_str) {
        Ok(t) => t,
        Err(e) => {
            return Err(
                ParseError::InvalidData(String::from_str("Invalid date format: ").concat(e.message())),
            );
        },
    };
    let day_obj = match member(day_data, "day") {
        Some(v) => v,
        None => {
            return Err(missing("day"));
        },
    };
    let condition_obj = match member(day_obj, "condition") {
        Some(v) => v,
        None => {
            return Err(missing("day.condition"));
        },
    };
    let condition_text: &str = match member(condition_obj, "text") {
        Some(v) => match as_text(v) {
            Some(s) => s,
            None => {
                return Err(missing("day.condition.text"));
            },
        },
        None => {
            return Err(missing("day.condition.text"));
        },
    };
    let state = classify_weather(condition_text);
    Ok(WeatherState::new(state, timestamp))
}

/// Reads a parsed forecast document into a history.
///
/// Members are looked up in document order: the location and its name, the
/// forecast and its day array, then for each day its date, its summary, the
/// summary's condition and the condition's text. The first member that is
/// missing or of the wrong type, or the first date that cannot be read,
/// ends the reading with its error. A document with fewer than two days is
/// refused.
pub fn extract_history(data: &serde_json::Value) -> (r: Result<HistoricalData, ParseError>)
    ensures
        delivers(r, forecast(json_tree(*data))),
{
    let location_obj = match member(data, "location") {
        Some(v) => v,
        None => {
            return Err(missing("location"));
        },
    };
    let location_name: String = match member(location_obj, "name") {
        Some(v) => match as_text(v) {
            Some(s) => s.to_owned(),
            None => {
                return Err(missing("location.name"));
            },
        },
        None => {
            return Err(missing("location.name"));
        },
    };
    let mut historical_data = HistoricalData::new(location_name);
    let forecast_obj = match member(data, "forecast") {
        Some(v) => v,
        None => {
            return Err(missing("forecast"));
        },
    };
    let forecast_days: &Vec<serde_json::Value> = match member(forecast_obj, "forecastday") {
        Some(v) => match as_items(v) {
            Some(items) => items,
            None => {
                return Err(missing("forecast.forecastday"));
            },
        },
        None => {
            return Err(missing("forecast.forecastday"));
        },
    };
    let ghost days = forecast_days@.map_values(|e: serde_json::Value| json_tree(e));
    let ghost name = historical_data.location@;
    let n: usize = forecast_days.len();
    let mut k: usize = 0;
    assert(forecast(json_tree(*data)) == history_of(name, day_entries(days, days.len())));
    while k < n
        invariant
            k <= n,
            forecast(json_tree(*data)) == history_of(name, day_entries(days, days.len())),
            n == forecast_days@.len(),
            days == forecast_days@.map_values(|e: serde_json::Value| json_tree(e)),
            historical_data.location@ == name,
            day_entries(days, k as nat) == Ok::<Seq<WeatherState>, Fault>(historical_data.states@),
        decreases n - k,
    {
        assert(days[k as int] == json_tree(forecast_days@[k as int]));
        match read_day(&forecast_days[k]) {
            Ok(weather_state) => {
                historical_data.add_state(weather_state);
            },
            Err(e) => {
                proof {
                    lemma_fault_persists(days, (k + 1) as nat, n as nat);
                }
                return Err(e);
            },
        }
        k += 1;
    }
    if !historical_data.is_complete() {
        return Err(
            ParseError::InvalidData(
                "Insufficient weather data (need at least 2 days)".to_owned(),
            ),
        );
    }
    Ok(historical_data)
}

/// Once a prefix of the days yields a fault, every longer prefix yields the
/// same fault.
pub proof fn lemma_fault_persists(days: Seq<JsonTree>, k: nat, n: nat)
    requires
        k <= n,
        day_entries(days, k) is Err,
    ensures
        day_entries(days, n) == day_entries(days, k),
    decreases n - k,
{
    if k < n {
        lemma_fault_persists(days, k, (n - 1) as nat);
    }
}

/// Reads the text of a forecast document into a history.
///
/// A text that is not JSON gives `JsonError` with the parser's message;
/// otherwise the result is that of `extract_history` on the parsed value.
pub fn parse_weather_data(json_data: &str) -> (r: Result<HistoricalData, ParseError>)
    ensures
        delivers(r, reading(json_document(json_data@))),
{
    match parse_json(json_data) {
        Ok(data) => extract_history(&data),
        Err(e) => Err(ParseError::JsonError(error_message(&e))),
    }
}

} // verus!
