use crewride::stats::{ProviderStats, StatsCollector};
use std::sync::{Arc, Mutex};

#[test]
fn test_stats_collector_new() {
    let collector = StatsCollector::new();
    let stats = collector.get_stats();

    assert_eq!(stats.overall.total_requests, 0);
    assert_eq!(stats.overall.total_tokens_input, 0);
    assert_eq!(stats.overall.total_tokens_output, 0);
    assert_eq!(stats.overall.total_errors, 0);
    assert!(stats.by_provider.is_empty());
    assert!(stats.by_model.is_empty());
}

#[test]
fn test_record_request() {
    let mut collector = StatsCollector::new();

    collector.record_request("openai", "gpt-4");
    collector.record_request("openai", "gpt-4");
    collector.record_request("anthropic", "sonnet-3");

    let stats = collector.get_stats();

    assert_eq!(stats.overall.total_requests, 3);
    assert_eq!(stats.by_provider.get("openai").unwrap().requests, 2);
    assert_eq!(stats.by_provider.get("anthropic").unwrap().requests, 1);
    assert_eq!(stats.by_model.get("gpt-4").unwrap().requests, 2);
    assert_eq!(stats.by_model.get("sonnet-3").unwrap().requests, 1);
}

#[test]
fn test_record_tokens() {
    let mut collector = StatsCollector::new();

    collector.record_tokens("openai", "gpt-4", 100, 50);
    collector.record_tokens("openai", "gpt-4", 200, 100);

    let stats = collector.get_stats();

    assert_eq!(stats.overall.total_tokens_input, 300);
    assert_eq!(stats.overall.total_tokens_output, 150);
    assert_eq!(stats.by_provider.get("openai").unwrap().tokens_input, 300);
    assert_eq!(stats.by_provider.get("openai").unwrap().tokens_output, 150);
    assert_eq!(stats.by_model.get("gpt-4").unwrap().tokens_input, 300);
    assert_eq!(stats.by_model.get("gpt-4").unwrap().tokens_output, 150);
}

#[test]
fn test_record_error() {
    let mut collector = StatsCollector::new();

    collector.record_error("openai", "gpt-4");
    collector.record_error("anthropic", "sonnet-3");

    let stats = collector.get_stats();

    assert_eq!(stats.overall.total_errors, 2);
    assert_eq!(stats.by_provider.get("openai").unwrap().errors, 1);
    assert_eq!(stats.by_provider.get("anthropic").unwrap().errors, 1);
}

#[test]
fn test_get_provider_stats() {
    let mut collector = StatsCollector::new();

    collector.record_request("openai", "gpt-4");
    collector.record_request("openai", "gpt-3.5");
    collector.record_tokens("openai", "gpt-4", 100, 50);

    let openai_stats = collector.get_provider_stats("openai");
    assert!(openai_stats.is_some());
    let stats = openai_stats.unwrap();
    assert_eq!(stats.requests, 2);
    assert_eq!(stats.tokens_input, 100);

    let unknown_stats = collector.get_provider_stats("unknown");
    assert!(unknown_stats.is_none());
}

#[test]
fn test_concurrent_requests() {
    let collector = Arc::new(Mutex::new(StatsCollector::new()));
    let runtime = tokio::runtime::Builder::new_multi_thread().worker_threads(4).build().unwrap();

    runtime.block_on(async {
        let handles: Vec<_> = (0..10)
            .map(|_| {
                let collector = collector.clone();
                tokio::task::spawn(async move {
                    for _ in 0..100 {
                        collector.lock().unwrap().record_request("provider", "model");
                    }
                })
            })
            .collect();

        for handle in handles {
            handle.await.unwrap();
        }
    });

    let stats = collector.lock().unwrap().get_stats();
    assert_eq!(stats.overall.total_requests, 1000);
}

#[test]
fn groups_keep_first_seen_order_and_totals_add_up() {
    let mut collector = StatsCollector::new();
    collector.record_request("b", "m2");
    collector.record_request("a", "m1");
    collector.record_tokens("b", "m1", 5, 7);
    collector.record_error("a", "m2");

    let stats = collector.get_stats();
    assert_eq!(stats.by_provider.len(), 2);
    assert_eq!(stats.by_provider.entry(0).0, "b");
    assert_eq!(stats.by_provider.entry(1).0, "a");
    assert_eq!(stats.by_model.entry(0).0, "m2");
    assert_eq!(stats.by_model.entry(1).0, "m1");
    assert_eq!(
        *stats.by_provider.get("b").unwrap(),
        ProviderStats { requests: 1, tokens_input: 5, tokens_output: 7, errors: 0 }
    );
    assert_eq!(
        *stats.by_provider.get("a").unwrap(),
        ProviderStats { requests: 1, tokens_input: 0, tokens_output: 0, errors: 1 }
    );
    assert_eq!(stats.overall.total_requests, 2);
    assert_eq!(stats.overall.total_tokens_input, 5);
    assert_eq!(stats.overall.total_tokens_output, 7);
    assert_eq!(stats.overall.total_errors, 1);
}

#[test]
fn token_counters_wrap_at_two_to_the_64() {
    let mut collector = StatsCollector::new();
    collector.record_tokens("p", "m", u64::MAX, 1);
    collector.record_tokens("p", "m", 2, 0);
    let stats = collector.get_stats();
    assert_eq!(stats.overall.total_tokens_input, 1);
    assert_eq!(stats.by_provider.get("p").unwrap().tokens_input, 1);
    assert_eq!(stats.by_model.get("m").unwrap().tokens_output, 1);
}
