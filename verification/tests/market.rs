use mji_agenda::{Popularity, Supply};
use std::str::FromStr;

#[test]
fn popularity_letters_in_lower_case() {
    assert_eq!(Popularity::parse("l").unwrap(), Popularity::Low);
    assert_eq!(Popularity::parse("a").unwrap(), Popularity::Average);
    assert_eq!(Popularity::parse("h").unwrap(), Popularity::High);
    assert_eq!(Popularity::parse("v").unwrap(), Popularity::VeryHigh);
}

#[test]
fn popularity_letters_in_upper_case() {
    assert_eq!(Popularity::parse("L").unwrap(), Popularity::Low);
    assert_eq!(Popularity::parse("A").unwrap(), Popularity::Average);
    assert_eq!(Popularity::parse("H").unwrap(), Popularity::High);
    assert_eq!(Popularity::parse("V").unwrap(), Popularity::VeryHigh);
}

#[test]
fn popularity_from_str_reads_the_letter() {
    assert_eq!(Popularity::from_str("h").unwrap(), Popularity::High);
    assert_eq!("V".parse::<Popularity>().unwrap(), Popularity::VeryHigh);
    assert!("very high".parse::<Popularity>().is_err());
}

#[test]
fn popularity_turns_down_other_texts() {
    for text in ["", "x", "ll", "low", " l", "l ", "s", "1"] {
        let error = Popularity::parse(text).unwrap_err();
        assert_eq!(error.rejected(), text);
    }
}

#[test]
fn popularity_error_keeps_the_text_as_typed() {
    let error = Popularity::parse("LOW").unwrap_err();
    assert_eq!(error.rejected(), "LOW");
    assert_eq!(error.message(), "Invalid value for Popularity: LOW");
}

#[test]
fn popularity_from_lowered_does_not_lower() {
    assert_eq!(Popularity::from_lowered("l", "L").unwrap(), Popularity::Low);
    let error = Popularity::from_lowered("L", "typed").unwrap_err();
    assert_eq!(error.rejected(), "typed");
}

#[test]
fn supply_letters_in_lower_case() {
    assert_eq!(Supply::parse("n").unwrap(), Supply::Nonexistent);
    assert_eq!(Supply::parse("i").unwrap(), Supply::Insufficient);
    assert_eq!(Supply::parse("s").unwrap(), Supply::Sufficient);
    assert_eq!(Supply::parse("u").unwrap(), Supply::Surplus);
    assert_eq!(Supply::parse("o").unwrap(), Supply::Overflowing);
}

#[test]
fn supply_letters_in_upper_case() {
    assert_eq!(Supply::parse("N").unwrap(), Supply::Nonexistent);
    assert_eq!(Supply::parse("I").unwrap(), Supply::Insufficient);
    assert_eq!(Supply::parse("S").unwrap(), Supply::Sufficient);
    assert_eq!(Supply::parse("U").unwrap(), Supply::Surplus);
    assert_eq!(Supply::parse("O").unwrap(), Supply::Overflowing);
}

#[test]
fn supply_from_str_reads_the_letter() {
    assert_eq!(Supply::from_str("u").unwrap(), Supply::Surplus);
    assert_eq!("O".parse::<Supply>().unwrap(), Supply::Overflowing);
    assert!("surplus".parse::<Supply>().is_err());
}

#[test]
fn supply_turns_down_other_texts() {
    for text in ["", "x", "nn", "l", "a", "none", "\u{17f}", "\u{130}"] {
        let error = Supply::parse(text).unwrap_err();
        assert_eq!(error.rejected(), text);
    }
}

#[test]
fn supply_error_keeps_the_text_as_typed() {
    let error = Supply::parse("Plenty").unwrap_err();
    assert_eq!(error.rejected(), "Plenty");
    assert_eq!(error.message(), "Invalid value for Supply: Plenty");
}

#[test]
fn supply_from_lowered_does_not_lower() {
    assert_eq!(Supply::from_lowered("s", "S").unwrap(), Supply::Sufficient);
    let error = Supply::from_lowered("S", "typed").unwrap_err();
    assert_eq!(error.rejected(), "typed");
}
