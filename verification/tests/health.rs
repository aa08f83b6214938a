use notebud_websocket::health::{
    format_duration, overall_status, route, wants_detailed, Endpoint, HealthStatus,
};

#[test]
fn seconds_only() {
    assert_eq!(format_duration(0), "0s");
    assert_eq!(format_duration(1), "1s");
    assert_eq!(format_duration(59), "59s");
}

#[test]
fn minutes_and_seconds() {
    assert_eq!(format_duration(60), "1m 0s");
    assert_eq!(format_duration(61), "1m 1s");
    assert_eq!(format_duration(3_599), "59m 59s");
}

#[test]
fn hours_minutes_and_seconds() {
    assert_eq!(format_duration(3_600), "1h 0m 0s");
    assert_eq!(format_duration(3_661), "1h 1m 1s");
    assert_eq!(format_duration(86_399), "23h 59m 59s");
}

#[test]
fn days_hours_minutes_and_seconds() {
    assert_eq!(format_duration(86_400), "1d 0h 0m 0s");
    assert_eq!(format_duration(90_061), "1d 1h 1m 1s");
    assert_eq!(format_duration(1_000_000), "11d 13h 46m 40s");
    assert_eq!(format_duration(i64::MAX), "106751991167300d 15h 30m 7s");
}

#[test]
fn a_negative_duration_shows_its_seconds() {
    assert_eq!(format_duration(-5), "-5s");
    assert_eq!(format_duration(-60), "0s");
    assert_eq!(format_duration(-100_000), "-40s");
    assert_eq!(format_duration(i64::MIN), "-8s");
}

#[test]
fn endpoints_by_method_and_path() {
    assert_eq!(route(true, "/ws"), Endpoint::WebSocket);
    assert_eq!(route(true, "/websocket"), Endpoint::WebSocket);
    assert_eq!(route(true, "/health"), Endpoint::Health);
    assert_eq!(route(true, "/"), Endpoint::Root);
    assert_eq!(route(true, "/ws/"), Endpoint::NotFound);
    assert_eq!(route(true, "/healthz"), Endpoint::NotFound);
    assert_eq!(route(true, ""), Endpoint::NotFound);
    assert_eq!(route(false, "/ws"), Endpoint::NotFound);
    assert_eq!(route(false, "/health"), Endpoint::NotFound);
    assert_eq!(route(false, "/"), Endpoint::NotFound);
}

#[test]
fn the_detailed_report_is_asked_for_by_parameter() {
    assert!(wants_detailed(Some("detailed=true")));
    assert!(wants_detailed(Some("a=b&detailed=true")));
    assert!(wants_detailed(Some("a=b&detailed=true&c=d")));
    assert!(wants_detailed(Some("detailed=true=x")));
    assert!(wants_detailed(Some("&&detailed=true")));
}

#[test]
fn anything_else_asks_for_the_short_report() {
    assert!(!wants_detailed(None));
    assert!(!wants_detailed(Some("")));
    assert!(!wants_detailed(Some("detailed")));
    assert!(!wants_detailed(Some("detailed=")));
    assert!(!wants_detailed(Some("detailed=false")));
    assert!(!wants_detailed(Some("detailed=TRUE")));
    assert!(!wants_detailed(Some("detailed=truex")));
    assert!(!wants_detailed(Some("detailed=tru")));
    assert!(!wants_detailed(Some("xdetailed=true")));
    assert!(!wants_detailed(Some("a=detailed=true")));
    assert!(!wants_detailed(Some("detailed=false&detailed=true")));
    assert!(!wants_detailed(Some("detailed==true")));
}

#[test]
fn the_service_rates_itself_by_its_database() {
    assert_eq!(overall_status(true), HealthStatus::Healthy);
    assert_eq!(overall_status(false), HealthStatus::Degraded);
    assert_eq!(HealthStatus::Healthy.label(), "ok");
    assert_eq!(HealthStatus::Degraded.label(), "degraded");
    assert_eq!(HealthStatus::Healthy.status_code(), 200);
    assert_eq!(HealthStatus::Degraded.status_code(), 503);
}
