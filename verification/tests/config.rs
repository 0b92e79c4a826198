use tracing_axiom::config::{
    check_redirect, init_plan, init_plan_at, leftover_senders, ConfigFault, AXIOM_DATASET_HEADER,
    COLLECT_TARGET_MAX, INTERNAL_TARGET, TIMEOUT_CONNECT_SECS, TIMEOUT_READ_SECS,
    TIMEOUT_REQ_SECS,
};
use tracing_axiom::{Config, DatasetIds};

fn config<'a>(datasets: DatasetIds<'a>) -> Config<'a> {
    Config {
        api_key: "test-key",
        base_url: "http://127.0.0.1:8080",
        datasets,
        evt_que_len: 8,
        met_que_len: 8,
        service_name: "test-service",
        collect_target: 4,
        collect_timeout_ns: 30_000_000_000,
        sender_pool_size: 1,
    }
}

fn events() -> DatasetIds<'static> {
    DatasetIds::Events { dataset_id: "test" }
}

fn metrics() -> DatasetIds<'static> {
    DatasetIds::Metrics { dataset_id: "test" }
}

fn fault(cfg: Config) -> Option<ConfigFault> {
    init_plan(cfg).err()
}

#[test]
fn all_datasets_can_use_distinct_metric_dataset() {
    let plan = init_plan(config(DatasetIds::All {
        event_dataset_id: "test",
        metric_dataset_id: "metrics-test",
    }))
    .ok()
    .unwrap();
    assert_eq!(plan.bearer, "Bearer test-key");
    let events = plan.events.unwrap();
    assert_eq!(events.url, "http://127.0.0.1:8080/v1/ingest/test");
    assert!(events.axiom_dataset.is_none());
    let metrics = plan.metrics.unwrap();
    assert_eq!(metrics.url, "http://127.0.0.1:8080/v1/metrics");
    assert_eq!(metrics.axiom_dataset.as_deref(), Some("metrics-test"));
}

#[test]
fn metrics_only_closes_event_sender() {
    let plan = init_plan(config(metrics())).ok().unwrap();
    assert!(plan.events.is_none());
    assert_eq!(plan.metrics.unwrap().axiom_dataset.as_deref(), Some("test"));
}

#[test]
fn events_only_closes_metric_sender() {
    let plan = init_plan(config(events())).ok().unwrap();
    assert!(plan.metrics.is_none());
    assert_eq!(plan.events.unwrap().url, "http://127.0.0.1:8080/v1/ingest/test");
}

#[test]
fn paths_are_appended_to_the_base() {
    let mut cfg =
        config(DatasetIds::All { event_dataset_id: "test", metric_dataset_id: "metrics-test" });
    for (base, prefix) in [
        ("https://us-east-1.aws.edge.axiom.co", "https://us-east-1.aws.edge.axiom.co"),
        ("https://us-east-1.aws.edge.axiom.co/", "https://us-east-1.aws.edge.axiom.co"),
        ("https://example.com/a/b", "https://example.com/a/b"),
        ("https://example.com/a/b/", "https://example.com/a/b"),
        ("https://example.com/a/b/ ", "https://example.com/a/b"),
        (" https://example.com/a/b\n", "https://example.com/a/b"),
    ] {
        cfg.base_url = base;
        let plan = init_plan(cfg).ok().unwrap();
        assert_eq!(plan.events.unwrap().url, format!("{}/v1/ingest/test", prefix));
        assert_eq!(plan.metrics.unwrap().url, format!("{}/v1/metrics", prefix));
    }
}

#[test]
fn base_that_takes_no_path_is_refused() {
    let mut cfg = config(events());
    for base in ["", "/", "data:", "mailto:nobody"] {
        cfg.base_url = base;
        assert_eq!(fault(cfg), Some(ConfigFault::EventUrl));
    }
}

#[test]
fn dataset_of_events_may_name_a_url_of_its_own() {
    let plan = init_plan(config(DatasetIds::Events { dataset_id: "../x y" })).ok().unwrap();
    assert_eq!(plan.events.unwrap().url, "http://127.0.0.1:8080/v1/x%20y");
}

#[test]
fn faults_are_found_in_order() {
    let mut cfg = config(events());
    cfg.evt_que_len = 0;
    cfg.met_que_len = 0;
    assert_eq!(fault(cfg), Some(ConfigFault::EvtQueLen));
    cfg.evt_que_len = 1;
    cfg.collect_target = 0;
    assert_eq!(fault(cfg), Some(ConfigFault::MetQueLen));
    cfg.met_que_len = 1;
    cfg.sender_pool_size = 0;
    assert_eq!(fault(cfg), Some(ConfigFault::CollectTargetZero));
    cfg.collect_target = COLLECT_TARGET_MAX + 1;
    assert_eq!(fault(cfg), Some(ConfigFault::CollectTargetTooLarge));
    cfg.collect_target = COLLECT_TARGET_MAX;
    cfg.api_key = "a\nb";
    assert_eq!(fault(cfg), Some(ConfigFault::SenderPoolSize));
    cfg.sender_pool_size = 1;
    cfg.base_url = "nowhere";
    assert_eq!(fault(cfg), Some(ConfigFault::ApiKey));
    cfg.api_key = "a\tb \u{e9}";
    assert_eq!(fault(cfg), Some(ConfigFault::EventUrl));
    cfg.datasets = DatasetIds::Metrics { dataset_id: "\u{7f}" };
    assert_eq!(fault(cfg), Some(ConfigFault::MetricUrl));
    cfg.base_url = "mailto:nobody";
    assert_eq!(fault(cfg), Some(ConfigFault::MetricUrl));
    cfg.base_url = "http://localhost";
    assert_eq!(fault(cfg), Some(ConfigFault::MetricDataset));
    cfg.datasets = DatasetIds::Metrics { dataset_id: "ok" };
    assert_eq!(fault(cfg), None);
}

#[test]
fn faults_say_what_is_wrong() {
    let all = [
        (ConfigFault::EvtQueLen, "evt_que_len must be > 0"),
        (ConfigFault::MetQueLen, "met_que_len must be > 0"),
        (ConfigFault::CollectTargetZero, "collect_target must be > 0"),
        (ConfigFault::CollectTargetTooLarge, "collect_target must be <= 10_000"),
        (ConfigFault::SenderPoolSize, "sender_pool_size must be > 0"),
        (ConfigFault::ApiKey, "api_key must be a valid header value"),
        (ConfigFault::EventUrl, "base_url must take the event ingest path"),
        (ConfigFault::MetricUrl, "base_url must take the metrics path"),
        (ConfigFault::MetricDataset, "metric dataset must be a valid header value"),
    ];
    for (fault, message) in all {
        assert_eq!(fault.message(), message);
    }
}

#[test]
fn plan_takes_the_urls_it_is_given() {
    let datasets =
        DatasetIds::All { event_dataset_id: "e", metric_dataset_id: "m" };
    let plan = init_plan_at(config(datasets), Some("u".to_string()), Some("v".to_string()))
        .ok()
        .unwrap();
    assert_eq!(plan.events.unwrap().url, "u");
    assert_eq!(plan.metrics.unwrap().url, "v");
    let fault = init_plan_at(config(datasets), Some("u".to_string()), None).err();
    assert_eq!(fault, Some(ConfigFault::MetricUrl));
    let fault = init_plan_at(config(datasets), None, None).err();
    assert_eq!(fault, Some(ConfigFault::EventUrl));
}

#[test]
fn only_redirects_that_lose_the_body_are_refused() {
    let lossy = check_redirect(302, "https://example.com/login").unwrap();
    assert_eq!(
        lossy.message(),
        "lossy HTTP 302 redirect to https://example.com/login would cut off our body"
    );
    assert!(check_redirect(303, "https://example.com/").is_some());
    for status in [300u16, 301, 304, 307, 308] {
        assert!(check_redirect(status, "https://example.com/").is_none());
    }
}

#[test]
fn last_sender_leaves_nobody_behind() {
    assert_eq!(leftover_senders(1), None);
    assert_eq!(leftover_senders(3), Some(2));
}

#[test]
fn datasets_are_told_apart() {
    assert_eq!(events().event_dataset_id(), Some("test"));
    assert_eq!(events().metric_dataset_id(), None);
    assert_eq!(metrics().event_dataset_id(), None);
    assert_eq!(metrics().metric_dataset_id(), Some("test"));
    let all = DatasetIds::All { event_dataset_id: "e", metric_dataset_id: "m" };
    assert_eq!(all.event_dataset_id(), Some("e"));
    assert_eq!(all.metric_dataset_id(), Some("m"));
}

#[test]
fn fixed_settings() {
    assert_eq!(AXIOM_DATASET_HEADER, "X-Axiom-Dataset");
    assert_eq!(INTERNAL_TARGET, "tracing_axiom::internal");
    assert_eq!((TIMEOUT_REQ_SECS, TIMEOUT_CONNECT_SECS, TIMEOUT_READ_SECS), (300, 30, 120));
}
