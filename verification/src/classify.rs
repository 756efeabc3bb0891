//! Mapping a free-text weather description to a state of the alphabet.

use vstd::prelude::*;
use crate::state::StateType;

verus! {

/// `needle` occurs somewhere in `hay` as a contiguous run of characters.
pub open spec fn occurs_in(needle: Seq<char>, hay: Seq<char>) -> bool {
    exists|i: int|
        0 <= i && i + needle.len() <= hay.len() && #[trigger] hay.subrange(i, i + needle.len())
            == needle
}

/// The lower-case form of a text, as `str::to_lowercase` computes it.
pub uninterp spec fn lowercase_of(text: Seq<char>) -> Seq<char>;

/// The text mentions rain in one of its forms.
pub open spec fn mentions_rain(lower: Seq<char>) -> bool {
    occurs_in("rain"@, lower) || occurs_in("drizzle"@, lower) || occurs_in("shower"@, lower)
        || occurs_in("thunderstorm"@, lower) || occurs_in("storm"@, lower)
}

/// The text mentions cloud cover or reduced visibility.
pub open spec fn mentions_cloud(lower: Seq<char>) -> bool {
    occurs_in("cloud"@, lower) || occurs_in("overcast"@, lower) || occurs_in("fog"@, lower)
        || occurs_in("mist"@, lower) || occurs_in("haze"@, lower)
}

/// The text mentions a clear sky.
pub open spec fn mentions_sun(lower: Seq<char>) -> bool {
    occurs_in("clear"@, lower) || occurs_in("sunny"@, lower) || occurs_in("fair"@, lower)
}

/// The state that a lower-case description stands for. Rain wins over
/// cloud, cloud over sun, and a description that mentions none of them
/// counts as cloudy.
pub open spec fn classification(lower: Seq<char>) -> StateType {
    if mentions_rain(lower) {
        StateType::Rainy
    } else if mentions_cloud(lower) {
        StateType::Cloudy
    } else if mentions_sun(lower) {
        StateType::Sunny
    } else {
        StateType::Cloudy
    }
}

/// Calls `str::to_lowercase`, which returns the lower-case equivalent of
/// the text as a new `String`. The result depends on the text alone and is
/// named by `lowercase_of`.
#[verifier::external_body]
pub(crate) fn to_lowercase(text: &str) -> (lower: String)
    ensures
        lower@ == lowercase_of(text@),
{
    text.to_lowercase()
}

/// Calls `str::contains` with a string pattern, which is true exactly when
/// the pattern matches a sub-slice of the text.
#[verifier::external_body]
fn contains(hay: &str, needle: &str) -> (found: bool)
    ensures
        found == occurs_in(needle@, hay@),
{
    hay.contains(needle)
}

/// Classifies a description that is already in lower case.
pub fn classify_lowercase(lower: &str) -> (s: StateType)
    ensures
        s == classification(lower@),
{
    if contains(lower, "rain") || contains(lower, "drizzle") || contains(lower, "shower")
        || contains(lower, "thunderstorm") || contains(lower, "storm") {
        return StateType::Rainy;
    }
    if contains(lower, "cloud") || contains(lower, "overcast") || contains(lower, "fog")
        || contains(lower, "mist") || contains(lower, "haze") {
        return StateType::Cloudy;
    }
    if contains(lower, "clear") || contains(lower, "sunny") || contains(lower, "fair") {
        return StateType::Sunny;
    }
    StateType::Cloudy
}

/// Classifies a weather description, ignoring case.
pub fn classify_weather(conditions: &str) -> (s: StateType)
    ensures
        s == classification(lowercase_of(conditions@)),
{
    let conditions_lower = to_lowercase(conditions);
    classify_lowercase(conditions_lower.as_str())
}

} // verus!
