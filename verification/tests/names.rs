use display_map::name::{name_of_replacement, short_name, CARD_PREFIX};

#[test]
fn card_prefix_is_removed() {
    assert_eq!(short_name("card3-DP-2"), Some("DP-2".to_string()));
    assert_eq!(short_name("card0-HDMI-A-1"), Some("HDMI-A-1".to_string()));
}

#[test]
fn name_without_prefix_stays() {
    assert_eq!(short_name("DP-2"), Some("DP-2".to_string()));
    assert_eq!(short_name("eDP-1"), Some("eDP-1".to_string()));
    assert_eq!(short_name(""), Some(String::new()));
}

#[test]
fn card_number_may_have_several_digits() {
    assert_eq!(short_name("card10-DP-1"), Some("DP-1".to_string()));
    assert_eq!(short_name("card123-eDP-1"), Some("eDP-1".to_string()));
}

#[test]
fn prefix_needs_digits_and_hyphen() {
    assert_eq!(short_name("card-DP-1"), Some("card-DP-1".to_string()));
    assert_eq!(short_name("card0"), Some("card0".to_string()));
    assert_eq!(short_name("cardx-DP-1"), Some("cardx-DP-1".to_string()));
    assert_eq!(short_name("Card0-DP-1"), Some("Card0-DP-1".to_string()));
}

#[test]
fn prefix_counts_only_at_the_start() {
    assert_eq!(short_name("xcard0-DP-1"), Some("xcard0-DP-1".to_string()));
    assert_eq!(short_name("DP-card0-1"), Some("DP-card0-1".to_string()));
}

#[test]
fn only_one_prefix_is_removed() {
    assert_eq!(short_name("card0-card1-DP-1"), Some("card1-DP-1".to_string()));
}

#[test]
fn prefix_alone_leaves_nothing() {
    assert_eq!(short_name("card0-"), Some(String::new()));
}

#[test]
fn the_pattern_compiles() {
    assert!(regex::Regex::new(CARD_PREFIX).is_ok());
}

#[test]
fn a_replacement_hands_its_text_on() {
    assert_eq!(name_of_replacement(Ok("DP-2".to_string())), Some("DP-2".to_string()));
}

#[test]
fn a_refused_pattern_gives_no_name() {
    let refusal = regex::Regex::new("(").unwrap_err();
    assert_eq!(name_of_replacement(Err(refusal)), None);
}
