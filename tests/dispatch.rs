use website_status_checker::dispatch::{plan_chunks, Collector, RunConfig};
use website_status_checker::report::WebsiteStatus;

fn urls(n: usize) -> Vec<String> {
    (0..n).map(|i| format!("https://site{}.test", i)).collect()
}

fn status(url: &str) -> WebsiteStatus {
    WebsiteStatus { url: url.to_string(), action_status: Ok(200), response_time_us: 1, timestamp_ms: 2 }
}

#[test]
fn plan_splits_into_ceiling_chunks() {
    let list = urls(10);
    let plan = plan_chunks(&list, 4);
    let sizes: Vec<usize> = plan.iter().map(|c| c.len()).collect();
    assert_eq!(sizes, vec![3, 3, 3, 1]);
    let joined: Vec<String> = plan.concat();
    assert_eq!(joined, list);
}

#[test]
fn plan_with_more_workers_than_urls() {
    let plan = plan_chunks(&urls(3), 5);
    assert_eq!(plan.len(), 3);
    assert!(plan.iter().all(|c| c.len() == 1));
}

#[test]
fn plan_of_empty_list_has_no_chunks() {
    assert!(plan_chunks(&Vec::new(), 4).is_empty());
}

#[test]
fn plan_with_one_worker() {
    let plan = plan_chunks(&urls(7), 1);
    assert_eq!(plan, vec![urls(7)]);
}

#[test]
fn dispatch_returns_one_result_per_url_in_any_order() {
    let mut list = urls(9);
    list.push("https://site0.test".to_string());
    for workers in 1..=12 {
        let plan = plan_chunks(&list, workers);
        assert!(plan.len() <= workers);
        let mut collector = Collector::new(&list);
        // Deliver the chunks' results interleaved, last chunk first.
        let longest = plan.iter().map(|c| c.len()).max().unwrap_or(0);
        for i in 0..longest {
            for chunk in plan.iter().rev() {
                if let Some(u) = chunk.get(i) {
                    assert!(collector.accept(status(u)).is_ok());
                }
            }
        }
        assert!(collector.is_complete());
        let results = collector.into_results();
        assert_eq!(results.len(), list.len());
        let mut got: Vec<String> = results.iter().map(|r| r.url.clone()).collect();
        let mut want = list.clone();
        got.sort();
        want.sort();
        assert_eq!(got, want);
    }
}

#[test]
fn collector_hands_back_unrequested_results() {
    let list = vec!["https://a.test".to_string()];
    let mut collector = Collector::new(&list);
    assert!(!collector.is_complete());
    assert_eq!(collector.accept(status("https://b.test")), Err(status("https://b.test")));
    assert!(collector.accept(status("https://a.test")).is_ok());
    assert!(collector.is_complete());
    assert!(collector.accept(status("https://a.test")).is_err());
    assert_eq!(collector.into_results().len(), 1);
}

#[test]
fn empty_run_is_complete_at_once() {
    let collector = Collector::new(&Vec::new());
    assert!(collector.is_complete());
    assert!(collector.into_results().is_empty());
}

#[test]
fn run_config_rejects_zero_workers_or_timeout() {
    assert!(RunConfig::new(0, 3000, 0).is_none());
    assert!(RunConfig::new(4, 0, 0).is_none());
    let cfg = RunConfig::new(4, 3000, 2).unwrap();
    assert_eq!(cfg.workers, 4);
    assert_eq!(cfg.timeout_ms, 3000);
    assert_eq!(cfg.retry.max_retries, 2);
    assert_eq!(cfg.retry.delay_ms, 100);
}
