use totem::config::{ConfigError, Mode, TotemConfig, TotemList};

fn strings(v: &[&str]) -> Vec<String> {
    v.iter().map(|s| s.to_string()).collect()
}

#[test]
fn numbers_are_zero_padded_and_wide_ones_kept() {
    let config = TotemConfig::from_list(TotemList::Numbers(vec![7, 1234567])).unwrap();
    assert_eq!(config.mode, Mode::Numbers);
    assert_eq!(config.totems, strings(&["000007", "1234567"]));
}

#[test]
fn padding_edges() {
    let config =
        TotemConfig::from_list(TotemList::Numbers(vec![0, 42, 999999, 1000000, u32::MAX])).unwrap();
    assert_eq!(
        config.totems,
        strings(&["000000", "000042", "999999", "1000000", "4294967295"])
    );
}

#[test]
fn words_are_kept_verbatim_in_order() {
    let words = strings(&["Zebra", "apple pie", "007"]);
    let config = TotemConfig::from_list(TotemList::Words(words.clone())).unwrap();
    assert_eq!(config.mode, Mode::Words);
    assert_eq!(config.totems, words);
}

#[test]
fn empty_lists_are_refused() {
    let e = TotemConfig::from_list(TotemList::Words(vec![])).unwrap_err();
    assert_eq!(e, ConfigError::Empty);
    let e = TotemConfig::from_list(TotemList::Numbers(vec![])).unwrap_err();
    assert_eq!(e, ConfigError::Empty);
}

#[test]
fn parse_numeric_array() {
    let config = TotemConfig::parse("[7, 1234567]").unwrap();
    assert_eq!(config.mode, Mode::Numbers);
    assert_eq!(config.totems, strings(&["000007", "1234567"]));
}

#[test]
fn parse_word_array() {
    let config = TotemConfig::parse(" [\"apple\", \"banana\"] ").unwrap();
    assert_eq!(config.mode, Mode::Words);
    assert_eq!(config.totems, strings(&["apple", "banana"]));
}

#[test]
fn parse_empty_array_is_empty_error() {
    assert_eq!(TotemConfig::parse("[]").unwrap_err(), ConfigError::Empty);
}

#[test]
fn parse_malformed_sources() {
    for text in ["", "{}", "[1, \"a\"]", "[-1]", "[1.5]", "[4294967296]", "[1, 2", "\"apple\""] {
        assert_eq!(TotemConfig::parse(text).unwrap_err(), ConfigError::Parse, "{}", text);
    }
}
