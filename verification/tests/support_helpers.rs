//! Host checking, errors, hashing, readiness, and the small text
//! helpers.

use authcache::errors::AppError;
use authcache::readiness::{compute_readiness_report, readiness_summary, ListingFields};
use authcache::requests::{default_currency, HoldDepositInput, ReservationIdPath};
use authcache::security::host_allowed;
use authcache::text::{
    clean_title, classify_voice_intent, coerce_limit, dispatch_recipient, event_matches_trigger,
    non_empty_opt, normalize_whatsapp_phone, to_title_case, trim_preview, xml_escape,
};
use authcache::token_hash::{encode, hash_token, hash_token_sha1, hex_encode};

#[test]
fn accepts_exact_and_wildcard_hosts() {
    let allowed = vec![
        "localhost".to_string(),
        "*.up.railway.app".to_string(),
        "admin.example.com".to_string(),
    ];
    assert!(host_allowed("localhost:3000", &allowed));
    assert!(host_allowed("api.up.railway.app", &allowed));
    assert!(!host_allowed("evil.example.com", &allowed));
}

#[test]
fn host_matching_details() {
    let allowed = vec!["*.Example.COM".to_string(), "  spaced.host  ".to_string()];
    assert!(host_allowed("sub.example.com:8443", &allowed));
    assert!(host_allowed("EXAMPLE.com", &allowed));
    assert!(host_allowed("spaced.host", &allowed));
    assert!(!host_allowed("notexample.com", &allowed));
    assert!(!host_allowed("", &allowed));
    assert!(host_allowed("anything.at.all", &vec!["*".to_string()]));
    assert!(!host_allowed("anything.at.all", &Vec::new()));
}

#[test]
fn event_matches_exact_and_legacy_aliases() {
    assert!(event_matches_trigger("collection_overdue", "collection_overdue"));
    assert!(event_matches_trigger("collection_overdue", "rent_overdue_1d"));
    assert!(event_matches_trigger("collection_escalated", "rent_overdue_7d"));
    assert!(event_matches_trigger("application_status_changed", "application_received"));
    assert!(!event_matches_trigger("maintenance_submitted", "rent_due_3d"));
}

#[test]
fn error_statuses_and_messages() {
    let unauthorized = AppError::Unauthorized("no token".to_string());
    assert_eq!(unauthorized.status_code(), 401);
    assert_eq!(unauthorized.detail_message(), "no token");
    assert_eq!(AppError::Forbidden("f".to_string()).status_code(), 403);
    assert_eq!(AppError::NotFound("n".to_string()).status_code(), 404);
    assert_eq!(AppError::BadRequest("b".to_string()).status_code(), 400);
    assert_eq!(AppError::Dependency("upstream down".to_string()).status_code(), 502);
    assert_eq!(AppError::Internal("i".to_string()).status_code(), 500);
    assert_eq!(AppError::ServiceUnavailable("s".to_string()).status_code(), 503);
}

#[test]
fn hex_and_token_hashes() {
    assert_eq!(hex_encode(&[0x00, 0xff, 0x1a]), "00ff1a");
    assert_eq!(encode(&[0xde, 0xad]), "dead");
    assert_eq!(
        hash_token("abc"),
        "ba7816bf8f01cfea414140de5dae2223b00361a396177a9cb410ff61f20015ad"
    );
    assert_eq!(hash_token_sha1("abc"), "a9993e364706816aba3e25717850c26c9cd0d89d");
}

fn complete_listing() -> ListingFields {
    ListingFields {
        cover_image_url: Some("https://img.example/cover.jpg".to_string()),
        fee_breakdown_complete: Some(true),
        amenities_count: 4,
        bedrooms: Some(2),
        square_meters_positive: true,
        available_from: Some("2026-03-01".to_string()),
        minimum_lease_months: Some(12),
        description: Some("bright corner unit".to_string()),
    }
}

#[test]
fn readiness_full_listing_scores_hundred() {
    let report = compute_readiness_report(&complete_listing());
    assert_eq!(report.score, 100);
    assert!(!report.blocking);
    assert_eq!(report.issues.len(), 8);
    let (score, missing) = readiness_summary(&complete_listing());
    assert_eq!(score, 100);
    assert!(missing.is_empty());
}

#[test]
fn readiness_missing_cover_blocks() {
    let mut fields = complete_listing();
    fields.cover_image_url = Some("   ".to_string());
    let report = compute_readiness_report(&fields);
    assert_eq!(report.score, 75);
    assert!(report.blocking);
    let (score, missing) = readiness_summary(&fields);
    assert_eq!(score, 75);
    assert_eq!(missing, vec!["cover_image".to_string()]);
}

#[test]
fn readiness_empty_listing_scores_zero() {
    let fields = ListingFields {
        cover_image_url: None,
        fee_breakdown_complete: None,
        amenities_count: 0,
        bedrooms: None,
        square_meters_positive: false,
        available_from: None,
        minimum_lease_months: Some(0),
        description: None,
    };
    let report = compute_readiness_report(&fields);
    assert_eq!(report.score, 0);
    assert!(report.blocking);
    let (_, missing) = readiness_summary(&fields);
    assert_eq!(missing.len(), 8);
}

#[test]
fn text_helpers() {
    assert_eq!(non_empty_opt(Some("  x  ")), Some("x".to_string()));
    assert_eq!(non_empty_opt(Some("   ")), None);
    assert_eq!(non_empty_opt(None), None);
    assert_eq!(normalize_whatsapp_phone("+595 (981) 000-000"), Some("595981000000".to_string()));
    assert_eq!(normalize_whatsapp_phone("no digits"), None);
    assert_eq!(coerce_limit(0, 30, 1, 120), 30);
    assert_eq!(coerce_limit(-5, 30, 1, 120), 30);
    assert_eq!(coerce_limit(500, 30, 1, 120), 120);
    assert_eq!(coerce_limit(7, 30, 1, 120), 7);
}

#[test]
fn request_shapes_carry_plain_values() {
    let path = ReservationIdPath { reservation_id: "r-1".to_string() };
    assert_eq!(path.reservation_id, "r-1");
    let input = HoldDepositInput { reservation_id: "r-1".to_string(), note: None };
    assert!(input.note.is_none());
    assert_eq!(default_currency(), "PYG");
}

#[test]
fn xml_escape_escapes_all_five() {
    assert_eq!(xml_escape("a<b>&\"c'"), "a&lt;b&gt;&amp;&quot;c&apos;");
    assert_eq!(xml_escape("plain"), "plain");
    assert_eq!(xml_escape(""), "");
}

#[test]
fn trim_preview_collapses_and_truncates() {
    assert_eq!(trim_preview("hello   world", 50), "hello world");
    assert_eq!(trim_preview("  spaced   out  text ", 50), "spaced out text");
    assert_eq!(trim_preview("abcdefghij", 8), "abcde...");
    assert_eq!(trim_preview("abcd efgh", 8), "abcd...");
}

#[test]
fn clean_title_trims_and_falls_back() {
    assert_eq!(clean_title(Some("  A Fine Title  "), "fallback"), "A Fine Title");
    assert_eq!(clean_title(Some("   "), "fallback"), "fallback");
    assert_eq!(clean_title(None, "fallback"), "fallback");
    let long = "x".repeat(200);
    assert_eq!(clean_title(Some(&long), "fallback").chars().count(), 180);
}

#[test]
fn title_case_words() {
    assert_eq!(to_title_case("one bedROOM apartment"), "One Bedroom Apartment");
    assert_eq!(to_title_case(""), "");
    assert_eq!(to_title_case("  studio  "), "Studio");
}

#[test]
fn voice_intent_routing() {
    assert_eq!(classify_voice_intent("The SINK is broken"), "maintenance-triage");
    assert_eq!(classify_voice_intent("question about my rent"), "finance-agent");
    assert_eq!(classify_voice_intent("renewing the lease"), "leasing-agent");
    assert_eq!(classify_voice_intent("guest arriving tonight"), "guest-concierge");
    assert_eq!(classify_voice_intent("hello there"), "supervisor");
}

fn string_fields(payload: &serde_json::Value) -> Vec<(String, String)> {
    payload
        .as_object()
        .expect("payload object")
        .iter()
        .filter_map(|(k, v)| v.as_str().map(|s| (k.clone(), s.to_string())))
        .collect()
}

#[test]
fn dispatch_recipient_uses_channel_specific_keys() {
    let payload: serde_json::Value = serde_json::from_str(
        "{\"recipient_email\":\"team@example.com\",\"recipient_phone\":\"+595981000000\",\"tenant_email\":\"tenant@example.com\",\"tenant_phone_e164\":\"+595982000000\"}",
    )
    .unwrap();
    let map = string_fields(&payload);

    assert_eq!(dispatch_recipient("email", &map), "team@example.com");
    assert_eq!(dispatch_recipient("whatsapp", &map), "+595981000000");
    assert_eq!(dispatch_recipient("sms", &map), "+595981000000");
}

#[test]
fn dispatch_recipient_returns_empty_when_missing() {
    let payload: serde_json::Value = serde_json::from_str("{\"irrelevant\":\"value\"}").unwrap();
    let map = string_fields(&payload);
    assert!(dispatch_recipient("email", &map).is_empty());
    assert!(dispatch_recipient("whatsapp", &map).is_empty());
}

#[test]
fn voice_intent_folds_case_before_matching() {
    assert_eq!(classify_voice_intent("REPAIR needed"), "maintenance-triage");
    assert_eq!(classify_voice_intent("PAYMENT overdue"), "finance-agent");
}
