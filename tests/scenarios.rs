use website_status_checker::dispatch::{plan_chunks, Collector, RunConfig};
use website_status_checker::report::{save_results_to_json, WebsiteStatus};
use website_status_checker::retry::ProbeState;
use website_status_checker::url_list::parse_url_list;

/// Runs a whole check sequentially with a stub prober in place of HTTP.
fn run_with_stub(text: &str, config: &RunConfig, stub: &dyn Fn(&str) -> Result<u16, String>) -> (Vec<WebsiteStatus>, usize) {
    let urls = parse_url_list(text);
    let plan = plan_chunks(&urls, config.workers);
    let mut collector = Collector::new(&urls);
    for chunk in &plan {
        for url in chunk {
            let policy = config.retry;
            let mut state = policy.start();
            let outcome = loop {
                match state {
                    ProbeState::Attempting(n) => state = policy.advance(n, stub(url)),
                    ProbeState::Succeeded(code) => break Ok(code),
                    ProbeState::ExhaustedFailed(e) => break Err(e),
                }
            };
            let status = WebsiteStatus { url: url.clone(), action_status: outcome, response_time_us: 10, timestamp_ms: 20 };
            assert!(collector.accept(status).is_ok());
        }
    }
    assert!(collector.is_complete());
    (collector.into_results(), plan.len())
}

#[test]
fn ok_and_failing_sites_with_no_retries() {
    let config = RunConfig::new(4, 3000, 0).unwrap();
    let stub = |url: &str| if url == "https://ok.test" { Ok(200) } else { Err("connection refused".to_string()) };
    let (results, _) = run_with_stub("https://ok.test\nhttps://fail.test\n", &config, &stub);
    let json = save_results_to_json(&results);
    let v: serde_json::Value = serde_json::from_str(&json).unwrap();
    let items = v.as_array().unwrap();
    assert_eq!(items.len(), 2);
    let ok = items.iter().find(|o| o["url"] == "https://ok.test").unwrap();
    let fail = items.iter().find(|o| o["url"] == "https://fail.test").unwrap();
    assert_eq!(ok["status"], serde_json::Value::from(200));
    assert_eq!(fail["status"], serde_json::Value::from("connection refused"));
}

#[test]
fn empty_input_gives_empty_report() {
    let config = RunConfig::new(4, 3000, 0).unwrap();
    let (results, workers_used) = run_with_stub("", &config, &|_| panic!("no probe expected"));
    assert!(results.is_empty());
    assert_eq!(workers_used, 0);
    assert_eq!(save_results_to_json(&results), "[]");
}
