use wahoo::config::BattlefyConfig;
use wahoo::error::FetchError;
use wahoo::profile::{parse_rating_text, role_from_text, Role};
use wahoo::text::{parse_u16, str_eq, trim_chars, u16_to_string};

#[test]
fn u16_to_string_exact() {
    assert_eq!(u16_to_string(0), "0");
    assert_eq!(u16_to_string(7), "7");
    assert_eq!(u16_to_string(2770), "2770");
    assert_eq!(u16_to_string(65535), "65535");
}

#[test]
fn parse_u16_accepts_plain_numbers() {
    assert_eq!(parse_u16("0"), Some(0));
    assert_eq!(parse_u16("2770"), Some(2770));
    assert_eq!(parse_u16("65535"), Some(65535));
    assert_eq!(parse_u16("+123"), Some(123));
}

#[test]
fn parse_u16_rejects_everything_else() {
    assert_eq!(parse_u16(""), None);
    assert_eq!(parse_u16("+"), None);
    assert_eq!(parse_u16("65536"), None);
    assert_eq!(parse_u16("99999999999999999999"), None);
    assert_eq!(parse_u16("12a"), None);
    assert_eq!(parse_u16("-5"), None);
    assert_eq!(parse_u16(" 5"), None);
}

#[test]
fn trim_strips_both_ends() {
    assert_eq!(trim_chars("  4692\n"), "4692");
    assert_eq!(trim_chars("no-space"), "no-space");
    assert_eq!(trim_chars(" \t "), "");
    assert_eq!(trim_chars("a b"), "a b");
}

#[test]
fn rating_text_is_trimmed_then_parsed() {
    assert_eq!(parse_rating_text("\n 4692 "), Some(4692));
    assert_eq!(parse_rating_text("n/a"), None);
}

#[test]
fn role_text_mapping() {
    assert!(matches!(role_from_text("Tank"), Role::Tank));
    assert!(matches!(role_from_text("Offense"), Role::Offense));
    assert!(matches!(role_from_text("Support"), Role::Support));
    assert!(matches!(role_from_text("Defense"), Role::Defense));
    assert!(matches!(role_from_text("tank"), Role::Unknown));
    assert!(matches!(role_from_text(""), Role::Unknown));
}

#[test]
fn str_eq_compares_characters() {
    assert!(str_eq("abc", "abc"));
    assert!(!str_eq("abc", "abd"));
    assert!(!str_eq("abc", "ab"));
    assert!(str_eq("", ""));
}

#[test]
fn fetch_error_carries_its_cause() {
    let net = FetchError::Network(String::from("connection refused"));
    assert_eq!(net.cause(), "connection refused");
    assert!(net.is_network());

    let dec = FetchError::Decode(String::from("missing field"));
    assert_eq!(dec.cause(), "missing field");
    assert!(!dec.is_network());
}

#[test]
fn config_record_holds_fields() {
    let cfg = BattlefyConfig::new(
        String::from("stage"),
        String::from("team"),
        String::from("https://battlefy.com/x"),
    );
    assert_eq!(cfg.stage_id, "stage");
    assert_eq!(cfg.team_id, "team");
    assert_eq!(cfg.tournament_link, "https://battlefy.com/x");
}
