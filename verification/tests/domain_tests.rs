use cloudflaredyndns::errors::DynDnsError;
use cloudflaredyndns::extract_domain_name;

#[test]
fn base_domain_of_four_labels() {
    assert_eq!(
        extract_domain_name("a.b.example.com").unwrap(),
        "example.com".to_string()
    );
}

#[test]
fn base_domain_of_three_labels() {
    assert_eq!(
        extract_domain_name("host.example.com").unwrap(),
        "example.com".to_string()
    );
}

#[test]
fn base_domain_of_two_labels() {
    assert_eq!(
        extract_domain_name("example.com").unwrap(),
        "example.com".to_string()
    );
}

#[test]
fn base_domain_keeps_two_label_suffix_of_multi_part_suffix() {
    // The documented limitation: only the last two labels are kept, even
    // for multi-part public suffixes.
    assert_eq!(
        extract_domain_name("sub.example.co.uk").unwrap(),
        "co.uk".to_string()
    );
}

#[test]
fn base_domain_of_single_label_is_rejected() {
    assert_eq!(
        extract_domain_name("localhost").unwrap_err(),
        DynDnsError::InvalidDomain
    );
}

#[test]
fn base_domain_of_empty_string_is_rejected() {
    assert_eq!(
        extract_domain_name("").unwrap_err(),
        DynDnsError::InvalidDomain
    );
}

#[test]
fn base_domain_with_trailing_dot() {
    // "example.com." splits into ["example", "com", ""]; the last two
    // labels joined give "com.".
    assert_eq!(extract_domain_name("example.com.").unwrap(), "com.".to_string());
}

#[test]
fn base_domain_of_lone_dot() {
    // "." splits into two empty labels; joining them gives "." again.
    assert_eq!(extract_domain_name(".").unwrap(), ".".to_string());
}
