use poll_metrics::collector::{make_labels, record_poll_outcome, register_custom_metrics,
    track_status_code, PollOutcome};
use poll_metrics::exposition::{compose_scrape_body, u64_to_dec};
use poll_metrics::registry::{LabelValues, MetricRegistry, RegistryError};

const URL: &str = "https://www.boredapi.com/api/activity";

fn labels_for(url: &str) -> LabelValues {
    make_labels(url.to_string())
}

fn counts(reg: &MetricRegistry, url: &str) -> (u64, u64, u64) {
    let labels = labels_for(url);
    (
        reg.read_counter(&"http_request_code_200".to_string(), &labels),
        reg.read_counter(&"http_request_code_400".to_string(), &labels),
        reg.read_counter(&"http_request_code_500".to_string(), &labels),
    )
}

#[test]
fn success_statuses_hit_only_success_bucket() {
    for status in [200usize, 201, 250, 299] {
        let mut reg = register_custom_metrics();
        track_status_code(&mut reg, URL.to_string(), status);
        assert_eq!(counts(&reg, URL), (1, 0, 0), "status {}", status);
    }
}

#[test]
fn client_error_statuses_hit_only_client_error_bucket() {
    for status in [400usize, 404, 451, 499] {
        let mut reg = register_custom_metrics();
        track_status_code(&mut reg, URL.to_string(), status);
        assert_eq!(counts(&reg, URL), (0, 1, 0), "status {}", status);
    }
}

#[test]
fn server_error_statuses_hit_only_server_error_bucket() {
    for status in [500usize, 503, 555, 599] {
        let mut reg = register_custom_metrics();
        track_status_code(&mut reg, URL.to_string(), status);
        assert_eq!(counts(&reg, URL), (0, 0, 1), "status {}", status);
    }
}

#[test]
fn unclassified_statuses_change_no_counter() {
    for status in [0usize, 99, 100, 150, 199, 300, 301, 399, 600, 700, 10000] {
        let mut reg = register_custom_metrics();
        track_status_code(&mut reg, URL.to_string(), status);
        assert_eq!(counts(&reg, URL), (0, 0, 0), "status {}", status);
    }
}

#[test]
fn repeated_successes_accumulate_to_exactly_n() {
    let mut reg = register_custom_metrics();
    for _ in 0..5 {
        track_status_code(&mut reg, URL.to_string(), 200);
    }
    assert_eq!(counts(&reg, URL), (5, 0, 0));
}

#[test]
fn scrapes_interleaved_with_increments_lose_nothing() {
    let mut reg = register_custom_metrics();
    for i in 0..7 {
        let before = reg.render_text();
        track_status_code(&mut reg, URL.to_string(), 200);
        let after = reg.render_text();
        // A scrape is a pure read: it must not disturb the count, and once
        // the increment has settled the next scrape reflects the new total.
        assert_eq!(
            reg.read_counter(&"http_request_code_200".to_string(), &labels_for(URL)),
            i + 1
        );
        assert_ne!(before, after);
    }
    let body = reg.render_text();
    assert!(body.contains(
        "http_request_code_200{url=\"https://www.boredapi.com/api/activity\",\
         http_ver=\"HTTP/1.1\",method=\"GET\"} 7\n"
    ));
}

#[test]
fn poll_scenario_success_client_error_transport_server_error() {
    let mut reg = register_custom_metrics();
    record_poll_outcome(&mut reg, URL.to_string(), PollOutcome::Status(200));
    record_poll_outcome(&mut reg, URL.to_string(), PollOutcome::Status(404));
    record_poll_outcome(&mut reg, URL.to_string(), PollOutcome::TransportFailure);
    record_poll_outcome(&mut reg, URL.to_string(), PollOutcome::Status(503));
    assert_eq!(counts(&reg, URL), (1, 1, 1));
    let body = reg.render_text();
    let labels = "{url=\"https://www.boredapi.com/api/activity\",http_ver=\"HTTP/1.1\",method=\"GET\"}";
    assert!(body.contains(&format!("http_request_code_200{} 1\n", labels)));
    assert!(body.contains(&format!("http_request_code_400{} 1\n", labels)));
    assert!(body.contains(&format!("http_request_code_500{} 1\n", labels)));
}

#[test]
fn transport_failure_changes_nothing() {
    let mut reg = register_custom_metrics();
    let before = reg.render_text();
    record_poll_outcome(&mut reg, URL.to_string(), PollOutcome::TransportFailure);
    assert_eq!(before, reg.render_text());
    assert_eq!(counts(&reg, URL), (0, 0, 0));
}

#[test]
fn duplicate_family_registration_fails() {
    let mut reg = MetricRegistry::new();
    assert_eq!(reg.register("jobs_done".to_string(), "jobs done".to_string()), Ok(()));
    assert_eq!(
        reg.register("jobs_done".to_string(), "another help".to_string()),
        Err(RegistryError::DuplicateFamily)
    );
    // The failed attempt changed nothing: a fresh name still registers.
    assert_eq!(reg.register("jobs_left".to_string(), "jobs left".to_string()), Ok(()));
}

#[test]
fn fresh_registry_renders_headers_and_no_samples() {
    let reg = register_custom_metrics();
    let expected = "\
# HELP http_request_code_200 http request returns code 200\n\
# TYPE http_request_code_200 counter\n\
# HELP http_request_code_400 http request returns code 400\n\
# TYPE http_request_code_400 counter\n\
# HELP http_request_code_500 http request returns code 500\n\
# TYPE http_request_code_500 counter\n";
    assert_eq!(reg.render_text(), expected);
}

#[test]
fn one_success_renders_exactly_one_sample_line() {
    let mut reg = register_custom_metrics();
    track_status_code(&mut reg, "http://a".to_string(), 204);
    let expected = "\
# HELP http_request_code_200 http request returns code 200\n\
# TYPE http_request_code_200 counter\n\
http_request_code_200{url=\"http://a\",http_ver=\"HTTP/1.1\",method=\"GET\"} 1\n\
# HELP http_request_code_400 http request returns code 400\n\
# TYPE http_request_code_400 counter\n\
# HELP http_request_code_500 http request returns code 500\n\
# TYPE http_request_code_500 counter\n";
    assert_eq!(reg.render_text(), expected);
}

#[test]
fn distinct_urls_get_distinct_counters() {
    let mut reg = register_custom_metrics();
    track_status_code(&mut reg, "http://a".to_string(), 200);
    track_status_code(&mut reg, "http://b".to_string(), 200);
    track_status_code(&mut reg, "http://a".to_string(), 200);
    assert_eq!(counts(&reg, "http://a").0, 2);
    assert_eq!(counts(&reg, "http://b").0, 1);
}

#[test]
fn same_labels_share_one_counter_not_two_samples() {
    let mut reg = register_custom_metrics();
    track_status_code(&mut reg, "http://a".to_string(), 200);
    track_status_code(&mut reg, "http://a".to_string(), 200);
    let body = reg.render_text();
    let line = "http_request_code_200{url=\"http://a\",http_ver=\"HTTP/1.1\",method=\"GET\"}";
    assert_eq!(body.matches(line).count(), 1);
    assert!(body.contains(&format!("{} 2\n", line)));
}

#[test]
fn unknown_name_or_labels_read_as_zero() {
    let mut reg = register_custom_metrics();
    track_status_code(&mut reg, URL.to_string(), 200);
    assert_eq!(reg.read_counter(&"no_such_family".to_string(), &labels_for(URL)), 0);
    assert_eq!(reg.read_counter(&"http_request_code_200".to_string(), &labels_for("http://x")), 0);
}

#[test]
fn increment_creates_then_counts() {
    let mut reg = MetricRegistry::new();
    reg.register("hits".to_string(), "hits seen".to_string()).unwrap();
    let name = "hits".to_string();
    reg.increment(&name, labels_for("http://a"));
    reg.increment(&name, labels_for("http://a"));
    reg.increment(&name, labels_for("http://b"));
    assert_eq!(reg.read_counter(&name, &labels_for("http://a")), 2);
    assert_eq!(reg.read_counter(&name, &labels_for("http://b")), 1);
}

#[test]
fn decimal_rendering_is_exact() {
    assert_eq!(u64_to_dec(0), "0");
    assert_eq!(u64_to_dec(7), "7");
    assert_eq!(u64_to_dec(10), "10");
    assert_eq!(u64_to_dec(409), "409");
    assert_eq!(u64_to_dec(1234567890), "1234567890");
    assert_eq!(u64_to_dec(u64::MAX), "18446744073709551615");
}

#[test]
fn scrape_body_concatenates_both_halves() {
    assert_eq!(
        compose_scrape_body("custom\n".to_string(), &"default\n".to_string()),
        "custom\ndefault\n"
    );
    assert_eq!(compose_scrape_body(String::new(), &"d".to_string()), "d");
    assert_eq!(compose_scrape_body("c".to_string(), &String::new()), "c");
}
