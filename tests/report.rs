use website_status_checker::report::{save_results_to_json, status_line, WebsiteStatus};

fn ok(url: &str, code: u16) -> WebsiteStatus {
    WebsiteStatus { url: url.to_string(), action_status: Ok(code), response_time_us: 152_345, timestamp_ms: 1_700_000_000_123 }
}

fn failed(url: &str, err: &str) -> WebsiteStatus {
    WebsiteStatus { url: url.to_string(), action_status: Err(err.to_string()), response_time_us: 3_000_007, timestamp_ms: 1_700_000_001_005 }
}

#[test]
fn empty_report_is_empty_array() {
    assert_eq!(save_results_to_json(&[]), "[]");
}

#[test]
fn report_exact_text() {
    let json = save_results_to_json(&[ok("https://ok.test", 200), failed("https://fail.test", "timed out")]);
    assert_eq!(
        json,
        "[{\"url\":\"https://ok.test\", \"status\":200, \"response_time\":\"152.345ms\", \"timestamp\":\"1700000000.123\"},\
{\"url\":\"https://fail.test\", \"status\":\"timed out\", \"response_time\":\"3000.007ms\", \"timestamp\":\"1700000001.005\"}]"
    );
}

#[test]
fn report_status_types() {
    let json = save_results_to_json(&[ok("https://ok.test", 200), failed("https://fail.test", "error sending request")]);
    let v: serde_json::Value = serde_json::from_str(&json).unwrap();
    let items = v.as_array().unwrap();
    assert_eq!(items.len(), 2);
    let by_url = |u: &str| items.iter().find(|o| o["url"] == u).unwrap().clone();
    assert_eq!(by_url("https://ok.test")["status"], serde_json::Value::from(200));
    assert_eq!(by_url("https://fail.test")["status"], serde_json::Value::from("error sending request"));
}

#[test]
fn report_round_trips_through_a_json_parser() {
    let results = vec![
        ok("https://a.test/?q=\"x\"", 301),
        failed("https://b.test", "bad \\ path\nline two\t\u{1}"),
        ok("https://c.test/ü", 404),
    ];
    let json = save_results_to_json(&results);
    let v: serde_json::Value = serde_json::from_str(&json).unwrap();
    let items = v.as_array().unwrap();
    assert_eq!(items.len(), results.len());
    for (item, r) in items.iter().zip(results.iter()) {
        let obj = item.as_object().unwrap();
        assert_eq!(obj.len(), 4);
        assert_eq!(obj["url"].as_str().unwrap(), r.url);
        match &r.action_status {
            Ok(code) => assert_eq!(obj["status"].as_u64().unwrap(), *code as u64),
            Err(e) => assert_eq!(obj["status"].as_str().unwrap(), e),
        }
        assert!(obj["response_time"].is_string());
        assert!(obj["timestamp"].is_string());
    }
}

#[test]
fn report_escapes_quotes_and_controls() {
    let json = save_results_to_json(&[failed("u", "a\"b\\c\u{1f}")]);
    assert!(json.contains("\"status\":\"a\\\"b\\\\c\\u001f\""));
}

#[test]
fn status_lines() {
    assert_eq!(status_line(&ok("https://ok.test", 200)), "[https://ok.test] 200 (152.345ms)");
    assert_eq!(status_line(&failed("https://fail.test", "timed out")), "[https://fail.test] ERROR: timed out (3000.007ms)");
    let quick = WebsiteStatus { url: "x".into(), action_status: Ok(0), response_time_us: 5, timestamp_ms: 0 };
    assert_eq!(status_line(&quick), "[x] 0 (0.005ms)");
}
