use weather_markov::classify::{classify_lowercase, classify_weather};
use weather_markov::state::StateType::{Cloudy, Rainy, Sunny};

#[test]
fn documented_descriptions_classify_as_documented() {
    assert_eq!(classify_weather("Patchy light rain"), Rainy);
    assert_eq!(classify_weather("Partly cloudy"), Cloudy);
    assert_eq!(classify_weather("Sunny"), Sunny);
    assert_eq!(classify_weather("Aliens"), Cloudy);
}

#[test]
fn every_rain_word_is_rainy() {
    for text in ["rain", "Light drizzle", "Heavy showers", "Thunderstorm", "Storm warning"] {
        assert_eq!(classify_weather(text), Rainy);
    }
}

#[test]
fn every_cloud_word_is_cloudy() {
    for text in ["Cloud", "Overcast", "Freezing fog", "Mist", "Haze"] {
        assert_eq!(classify_weather(text), Cloudy);
    }
}

#[test]
fn every_sun_word_is_sunny() {
    for text in ["Clear", "SUNNY", "Fair"] {
        assert_eq!(classify_weather(text), Sunny);
    }
}

#[test]
fn classification_ignores_case() {
    assert_eq!(classify_weather("PATCHY LIGHT RAIN"), Rainy);
    assert_eq!(classify_weather("oVeRcAsT"), Cloudy);
    assert_eq!(classify_weather("cLeAr"), Sunny);
}

#[test]
fn rain_wins_over_cloud_and_cloud_over_sun() {
    assert_eq!(classify_weather("Sunny with rain later"), Rainy);
    assert_eq!(classify_weather("Cloudy with showers"), Rainy);
    assert_eq!(classify_weather("Clear then cloudy"), Cloudy);
}

#[test]
fn empty_and_unknown_descriptions_are_cloudy() {
    assert_eq!(classify_weather(""), Cloudy);
    assert_eq!(classify_weather("Blizzard"), Cloudy);
    assert_eq!(classify_weather("rai n"), Cloudy);
}

#[test]
fn lowercase_classifier_matches_exact_case_only() {
    assert_eq!(classify_lowercase("sunny"), Sunny);
    assert_eq!(classify_lowercase("SUNNY"), Cloudy);
    assert_eq!(classify_lowercase("RAIN"), Cloudy);
    assert_eq!(classify_lowercase("CLEAR"), Cloudy);
    assert_eq!(classify_lowercase("patchy light rain"), Rainy);
}

#[test]
fn lowering_is_what_makes_upper_case_match() {
    assert_eq!(classify_lowercase("CLEAR"), Cloudy);
    assert_eq!(classify_weather("CLEAR"), Sunny);
}
