use cloudflaredyndns::errors::DynDnsError;
use cloudflaredyndns::provider::{
    dns_record_type_a, dns_record_type_aaaa, interpret_write_response, parse_record_data,
    parse_response_errors, plan_upsert, record_from_response, write_request_params,
    zone_id_from_response, DnsRecord, ErrorDetail, RawRecord, RecordListResponse, ResponseStatus,
    UpsertAction, WriteResponse, ZoneInfo, ZoneListResponse,
};

fn raw_record(id: &str, name: &str, record_type: &str, content: &str) -> RawRecord {
    RawRecord {
        id: Some(id.to_string()),
        name: Some(name.to_string()),
        record_type: Some(record_type.to_string()),
        content: Some(content.to_string()),
        proxiable: Some(true),
        proxied: Some(false),
        ttl: Some(120),
    }
}

fn record(id: &str, name: &str, record_type: &str, content: &str) -> DnsRecord {
    parse_record_data(raw_record(id, name, record_type, content))
}

#[test]
fn record_type_names() {
    assert_eq!(dns_record_type_a(), "A");
    assert_eq!(dns_record_type_aaaa(), "AAAA");
}

#[test]
fn record_fields_default_when_absent() {
    let rec = parse_record_data(RawRecord {
        id: None,
        name: None,
        record_type: None,
        content: None,
        proxiable: None,
        proxied: None,
        ttl: None,
    });
    assert_eq!(rec.id, "");
    assert_eq!(rec.name, "");
    assert_eq!(rec.record_type, "");
    assert_eq!(rec.content, "");
    assert!(!rec.proxiable);
    assert!(!rec.proxied);
    assert_eq!(rec.ttl, 0);
}

#[test]
fn record_fields_carried_over_when_present() {
    let rec = record("r1", "host.example.com", "A", "1.2.3.4");
    assert_eq!(rec.id, "r1");
    assert_eq!(rec.name, "host.example.com");
    assert_eq!(rec.record_type, "A");
    assert_eq!(rec.content, "1.2.3.4");
    assert!(rec.proxiable);
    assert!(!rec.proxied);
    assert_eq!(rec.ttl, 120);
}

#[test]
fn error_messages_are_joined_with_comma_space() {
    let status = ResponseStatus {
        success: Some(false),
        errors: Some(vec![
            ErrorDetail {
                message: Some("a".to_string()),
            },
            ErrorDetail {
                message: Some("b".to_string()),
            },
        ]),
    };
    assert_eq!(
        parse_response_errors(&status).unwrap_err(),
        DynDnsError::Provider {
            message: "a, b".to_string()
        }
    );
}

#[test]
fn missing_error_list_yields_unknown_error() {
    let status = ResponseStatus {
        success: Some(false),
        errors: None,
    };
    assert_eq!(
        parse_response_errors(&status).unwrap_err(),
        DynDnsError::Provider {
            message: "Unknown error".to_string()
        }
    );
}

#[test]
fn empty_error_list_yields_empty_message() {
    let status = ResponseStatus {
        success: Some(false),
        errors: Some(Vec::new()),
    };
    assert_eq!(
        parse_response_errors(&status).unwrap_err(),
        DynDnsError::Provider {
            message: "".to_string()
        }
    );
}

#[test]
fn entries_without_message_are_skipped() {
    let status = ResponseStatus {
        success: Some(false),
        errors: Some(vec![
            ErrorDetail { message: None },
            ErrorDetail {
                message: Some("x".to_string()),
            },
        ]),
    };
    assert_eq!(
        parse_response_errors(&status).unwrap_err(),
        DynDnsError::Provider {
            message: "x".to_string()
        }
    );
}

#[test]
fn explicit_success_passes() {
    let status = ResponseStatus {
        success: Some(true),
        errors: None,
    };
    assert!(parse_response_errors(&status).is_ok());
}

#[test]
fn missing_success_flag_counts_as_failure() {
    let status = ResponseStatus {
        success: None,
        errors: Some(vec![ErrorDetail {
            message: Some("down".to_string()),
        }]),
    };
    assert_eq!(
        parse_response_errors(&status).unwrap_err(),
        DynDnsError::Provider {
            message: "down".to_string()
        }
    );
}

#[test]
fn zone_id_taken_from_first_listed_zone() {
    let resp = ZoneListResponse {
        result: Some(vec![
            ZoneInfo {
                id: Some("z1".to_string()),
            },
            ZoneInfo {
                id: Some("z2".to_string()),
            },
        ]),
    };
    assert_eq!(zone_id_from_response(resp).unwrap(), "z1".to_string());
}

#[test]
fn empty_zone_list_is_not_found() {
    let resp = ZoneListResponse {
        result: Some(Vec::new()),
    };
    assert_eq!(zone_id_from_response(resp).unwrap_err(), DynDnsError::NotFound);
}

#[test]
fn zone_envelope_without_result_is_protocol_error() {
    let resp = ZoneListResponse { result: None };
    assert_eq!(zone_id_from_response(resp).unwrap_err(), DynDnsError::Protocol);
}

#[test]
fn zone_without_id_is_protocol_error() {
    let resp = ZoneListResponse {
        result: Some(vec![ZoneInfo { id: None }]),
    };
    assert_eq!(zone_id_from_response(resp).unwrap_err(), DynDnsError::Protocol);
}

#[test]
fn record_lookup_returns_first_match() {
    let resp = RecordListResponse {
        result: Some(vec![raw_record("r1", "host.example.com", "A", "1.2.3.4")]),
    };
    let rec = record_from_response(resp).unwrap().unwrap();
    assert_eq!(rec.id, "r1");
    assert_eq!(rec.content, "1.2.3.4");
}

#[test]
fn record_lookup_reports_absence_without_error() {
    let resp = RecordListResponse {
        result: Some(Vec::new()),
    };
    assert!(record_from_response(resp).unwrap().is_none());
}

#[test]
fn record_envelope_without_result_is_protocol_error() {
    let resp = RecordListResponse { result: None };
    assert_eq!(record_from_response(resp).unwrap_err(), DynDnsError::Protocol);
}

#[test]
fn upsert_keeps_record_with_matching_content() {
    // End-to-end no-op: existing content equals the resolved address.
    let existing = record("r1", "host.example.com", "A", "1.2.3.4");
    let action = plan_upsert(Some(existing), "1.2.3.4");
    assert!(matches!(action, UpsertAction::Keep { .. }));
}

#[test]
fn upsert_updates_record_with_other_content() {
    // End-to-end update: a changed address yields exactly one update
    // against the existing record's id, with the full write body.
    let existing = record("r1", "host.example.com", "A", "1.2.3.4");
    let action = plan_upsert(Some(existing), "5.6.7.8");
    match action {
        UpsertAction::Update { record_id } => assert_eq!(record_id, "r1"),
        _ => panic!("expected an update"),
    }
    let params = write_request_params("host.example.com", "A", "5.6.7.8", true);
    assert_eq!(params.name, "host.example.com");
    assert_eq!(params.record_type, "A");
    assert_eq!(params.content, "5.6.7.8");
    assert!(params.proxied);
}

#[test]
fn upsert_creates_when_no_record_exists() {
    assert!(matches!(plan_upsert(None, "1.2.3.4"), UpsertAction::Create));
}

#[test]
fn second_upsert_with_same_arguments_writes_nothing() {
    // First call: the record differs, so one write is planned.
    let before = record("r1", "host.example.com", "A", "1.2.3.4");
    let first = plan_upsert(Some(before), "5.6.7.8");
    assert!(matches!(first, UpsertAction::Update { .. }));

    // The successful write stored the requested content; the second call
    // finds it and plans no further write.
    let after = record("r1", "host.example.com", "A", "5.6.7.8");
    let second = plan_upsert(Some(after), "5.6.7.8");
    assert!(matches!(second, UpsertAction::Keep { .. }));
}

#[test]
fn write_response_with_success_returns_record() {
    let resp = WriteResponse {
        status: ResponseStatus {
            success: Some(true),
            errors: None,
        },
        result: Some(raw_record("r1", "host.example.com", "A", "5.6.7.8")),
    };
    let rec = interpret_write_response(resp).unwrap();
    assert_eq!(rec.id, "r1");
    assert_eq!(rec.content, "5.6.7.8");
}

#[test]
fn write_response_success_without_record_is_protocol_error() {
    let resp = WriteResponse {
        status: ResponseStatus {
            success: Some(true),
            errors: None,
        },
        result: None,
    };
    assert_eq!(interpret_write_response(resp).unwrap_err(), DynDnsError::Protocol);
}

#[test]
fn write_response_failure_aggregates_messages() {
    let resp = WriteResponse {
        status: ResponseStatus {
            success: Some(false),
            errors: Some(vec![
                ErrorDetail {
                    message: Some("a".to_string()),
                },
                ErrorDetail {
                    message: Some("b".to_string()),
                },
            ]),
        },
        result: Some(raw_record("r1", "host.example.com", "A", "5.6.7.8")),
    };
    assert_eq!(
        interpret_write_response(resp).unwrap_err(),
        DynDnsError::Provider {
            message: "a, b".to_string()
        }
    );
}
