use ruview_swarm::navigation_lab::http::{authorized_head, request_run, route_request, Route};
use ruview_swarm::navigation_lab::scenario::{Scenario, Validation};

#[test]
fn rejects_rebinding_and_cross_origin() {
    assert!(authorized_head(
        "GET / HTTP/1.1\r\nHost: 127.0.0.1:8777\r\n\r\n"
    ));
    assert!(!authorized_head(
        "GET / HTTP/1.1\r\nHost: attacker.example\r\n\r\n"
    ));
    assert!(!authorized_head(
        "GET / HTTP/1.1\r\nHost: localhost:8777\r\nOrigin: https://attacker.example\r\n\r\n"
    ));
    assert!(!authorized_head(
        "GET / HTTP/1.1\r\nHost: localhost:8777\r\nHost: localhost:8777\r\n\r\n"
    ));
    assert!(!authorized_head(
        "GET / HTTP/1.1\r\nHost: localhost:8777\r\nContent-Length: 10\r\n\r\n"
    ));
}

#[test]
fn bounded_typed_query() {
    assert_eq!(
        request_run("/api/run?scenario=inspection&seed=42"),
        Some((Scenario::Inspection, 42))
    );
    for bad in [
        "/api/run?scenario=bad&seed=42",
        "/api/run?scenario=inspection&seed=-1",
        "/api/run?scenario=inspection&seed=4294967296",
        "/api/run?scenario=inspection&seed=1&seed=2",
        "/api/run?scenario=inspection&seed=1&file=/etc/passwd",
    ] {
        assert!(request_run(bad).is_none());
    }
}

#[test]
fn header_names_ignore_case_and_values_are_trimmed() {
    assert!(authorized_head(
        "GET / HTTP/1.1\r\nhOsT:   localhost:8777  \r\nORIGIN: http://127.0.0.1:8777\r\ncontent-length: 0\r\n\r\n"
    ));
    assert!(!authorized_head(
        "GET / HTTP/1.1\r\nHost: localhost:8777\r\nTransfer-Encoding: chunked\r\n\r\n"
    ));
    assert!(!authorized_head("GET / HTTP/1.1\r\nHost localhost:8777\r\n\r\n"));
    assert!(!authorized_head("GET / HTTP/1.1\r\n\r\n"));
    assert!(!authorized_head(""));
}

#[test]
fn lines_after_the_blank_line_are_not_headers() {
    assert!(authorized_head(
        "GET / HTTP/1.1\r\nHost: localhost:8777\r\n\r\nHost: attacker.example\r\n"
    ));
    assert!(authorized_head("GET / HTTP/1.1\nHost: 127.0.0.1:8777\n\n"));
}

#[test]
fn run_query_fields_may_come_in_either_order() {
    assert_eq!(
        request_run("/api/run?seed=7&scenario=link"),
        Some((Scenario::LinkLoss, 7))
    );
    assert_eq!(
        request_run("/api/run?scenario=unknown&seed=+4294967295"),
        Some((Scenario::Unknown, 4_294_967_295))
    );
    assert_eq!(request_run("/api/run?scenario=stale&seed=0"), Some((Scenario::StaleSensor, 0)));
    assert_eq!(request_run("/api/run?scenario=stale&seed="), None);
    assert_eq!(request_run("/api/run?scenario=stale&seed=+"), None);
    assert_eq!(request_run("/api/run?scenario=stale"), None);
    assert_eq!(request_run("/api/run?scenario=stale&scenario=link"), None);
    assert_eq!(request_run("/api/run?"), None);
    assert_eq!(request_run("/api/runs?scenario=stale&seed=1"), None);
    assert_eq!(request_run("/api/run?Scenario=stale&seed=1"), None);
}

#[test]
fn scenario_names_round_trip() {
    for s in [
        Scenario::Inspection,
        Scenario::Blocked,
        Scenario::StaleSensor,
        Scenario::LinkLoss,
        Scenario::Unknown,
    ] {
        assert_eq!(Scenario::parse(s.name()), Some(s));
    }
    assert_eq!(Scenario::StaleSensor.name(), "stale");
    assert_eq!(Scenario::parse("Inspection"), None);
    assert_eq!(Scenario::parse(""), None);
}

#[test]
fn validation_passes_only_without_violations_and_with_the_expected_end() {
    let clean = Validation { collisions: 0, geofence: 0, dynamics: 0, expected: true };
    assert!(clean.passed());
    assert!(!Validation { collisions: 1, ..clean }.passed());
    assert!(!Validation { geofence: 2, ..clean }.passed());
    assert!(!Validation { dynamics: 3, ..clean }.passed());
    assert!(!Validation { expected: false, ..clean }.passed());
}

#[test]
fn requests_are_routed_by_method_path_and_origin() {
    let head = |line: &str| format!("{line}\r\nHost: localhost:8777\r\n\r\n");
    assert_eq!(route_request(&head("GET / HTTP/1.1")), Route::Page);
    assert_eq!(route_request(&head("GET /app.js HTTP/1.1")), Route::Script);
    assert_eq!(route_request(&head("GET /style.css HTTP/1.1")), Route::Stylesheet);
    assert_eq!(route_request(&head("GET /api/evaluate HTTP/1.1")), Route::Evaluation);
    assert_eq!(route_request(&head("GET /health HTTP/1.1")), Route::Health);
    assert_eq!(
        route_request(&head("GET /api/run?scenario=blocked&seed=3 HTTP/1.1")),
        Route::Run(Scenario::Blocked, 3)
    );
    assert_eq!(
        route_request(&head("GET /api/run?scenario=blocked HTTP/1.1")),
        Route::BadRunRequest
    );
    assert_eq!(route_request(&head("GET /etc/passwd HTTP/1.1")), Route::NotFound);
    assert_eq!(route_request(&head("POST / HTTP/1.1")), Route::MethodNotAllowed);
    assert_eq!(route_request(&head("GET / HTTP/1.0")), Route::MethodNotAllowed);
    assert_eq!(route_request(&head("GET  /   HTTP/1.1 ")), Route::Page);
    assert_eq!(
        route_request("GET / HTTP/1.1\r\nHost: attacker.example\r\n\r\n"),
        Route::Forbidden
    );
    assert_eq!(Route::Forbidden.status(), "403 Forbidden");
    assert_eq!(Route::NotFound.status(), "404 Not Found");
    assert_eq!(Route::BadRunRequest.status(), "400 Bad Request");
    assert_eq!(Route::MethodNotAllowed.status(), "405 Method Not Allowed");
    assert_eq!(Route::Health.status(), "200 OK");
}
