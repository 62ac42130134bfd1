use cloudflaredyndns::config::{
    normalize_domains, parse_bool_flag, parse_u64, parse_update_interval, Config,
    DEFAULT_UPDATE_INTERVAL,
};

#[test]
fn plain_numerals_parse() {
    assert_eq!(parse_u64("300"), Some(300));
    assert_eq!(parse_u64("0"), Some(0));
    assert_eq!(parse_u64("007"), Some(7));
    assert_eq!(parse_u64("18446744073709551615"), Some(u64::MAX));
}

#[test]
fn plus_sign_is_accepted() {
    assert_eq!(parse_u64("+42"), Some(42));
}

#[test]
fn malformed_numerals_are_refused() {
    assert_eq!(parse_u64(""), None);
    assert_eq!(parse_u64("+"), None);
    assert_eq!(parse_u64("12a"), None);
    assert_eq!(parse_u64("-3"), None);
    assert_eq!(parse_u64(" 5"), None);
}

#[test]
fn numerals_beyond_the_word_size_are_refused() {
    assert_eq!(parse_u64("18446744073709551616"), None);
    assert_eq!(parse_u64("99999999999999999999999"), None);
}

#[test]
fn bool_flags_accept_true_in_any_case() {
    assert!(parse_bool_flag("true"));
    assert!(parse_bool_flag("TRUE"));
    assert!(parse_bool_flag("TrUe"));
}

#[test]
fn bool_flags_refuse_everything_else() {
    assert!(!parse_bool_flag("false"));
    assert!(!parse_bool_flag("1"));
    assert!(!parse_bool_flag("yes"));
    assert!(!parse_bool_flag("truex"));
    assert!(!parse_bool_flag(""));
}

#[test]
fn interval_falls_back_to_default() {
    assert_eq!(parse_update_interval("oops"), DEFAULT_UPDATE_INTERVAL);
    assert_eq!(parse_update_interval(""), 300);
}

#[test]
fn interval_takes_the_numeral() {
    assert_eq!(parse_update_interval("60"), 60);
}

#[test]
fn domains_are_deduplicated_keeping_first_occurrence() {
    let raw = vec![
        "b.com".to_string(),
        "a.com".to_string(),
        "b.com".to_string(),
        "".to_string(),
    ];
    let domains = normalize_domains(raw).unwrap();
    assert_eq!(domains, vec!["b.com".to_string(), "a.com".to_string()]);
}

#[test]
fn all_empty_domains_are_refused() {
    assert!(normalize_domains(vec!["".to_string(), "".to_string()]).is_none());
    assert!(normalize_domains(Vec::new()).is_none());
}

#[test]
fn config_carries_its_fields() {
    let config = Config::new(
        "api-token".to_string(),
        vec!["host.example.com".to_string()],
        true,
        false,
        true,
        120,
    )
    .unwrap();
    assert_eq!(config.token, "api-token");
    assert_eq!(config.domains, vec!["host.example.com".to_string()]);
    assert!(config.ipv4_enabled);
    assert!(!config.ipv6_enabled);
    assert!(config.proxied);
    assert_eq!(config.update_interval, 120);
}

#[test]
fn config_without_domains_is_refused() {
    assert!(Config::new("t".to_string(), vec!["".to_string()], true, true, false, 300).is_none());
}
