use dd_delivery::batch::{
    archives_default_batch, metrics_default_batch, AdmitDecision, BatchAccumulator,
};
use dd_delivery::datetime::{partition_key_for_millis, rfc3339_millis};
use dd_delivery::metrics::{
    endpoint_for_kind, namespaced_name, healthcheck_passes, plan_for_payload, BuildError,
    DatadogMetricsConfig, DatadogMetricsEndpoint, GenericSinkMetrics, Metric, MetricValueKind,
    PayloadPlan, Region, MAXIMUM_SERIES_PAYLOAD_COMPRESSED_SIZE, MAXIMUM_SERIES_PAYLOAD_SIZE,
};
use dd_delivery::retry::{
    backoff_millis, classify_http_status, classify_transport_event, dispose_attempt,
    metrics_default_request, AttemptDisposition, Concurrency, ConcurrencyPermits, RateLimiter,
    RequestConfig, RetryOutcome, RetryPolicy, RetryState, TransportEvent,
};

#[test]
fn config_generate_config() {
    let config = DatadogMetricsConfig::from_api_key("api-key".to_owned());
    assert_eq!(config.api_key, "api-key");
    assert!(config.default_namespace.is_none());
    assert!(config.endpoint.is_none());
    assert!(config.region.is_none());
    assert!(config.site.is_none());
}

#[test]
fn content_types_per_endpoint() {
    assert_eq!(
        DatadogMetricsEndpoint::Series.content_type(),
        "application/json"
    );
    assert_eq!(
        DatadogMetricsEndpoint::Distribution.content_type(),
        "application/json"
    );
    assert_eq!(
        DatadogMetricsEndpoint::Sketch.content_type(),
        "application/x-protobuf"
    );
}

#[test]
fn endpoint_routing_by_metric_kind() {
    assert_eq!(
        endpoint_for_kind(MetricValueKind::Counter),
        DatadogMetricsEndpoint::Series
    );
    assert_eq!(
        endpoint_for_kind(MetricValueKind::Gauge),
        DatadogMetricsEndpoint::Series
    );
    assert_eq!(
        endpoint_for_kind(MetricValueKind::Rate),
        DatadogMetricsEndpoint::Series
    );
    assert_eq!(
        endpoint_for_kind(MetricValueKind::Distribution),
        DatadogMetricsEndpoint::Distribution
    );
    assert_eq!(
        endpoint_for_kind(MetricValueKind::Sketch),
        DatadogMetricsEndpoint::Sketch
    );
}

#[test]
fn site_follows_region_and_override() {
    let us = DatadogMetricsConfig::from_api_key("k".to_owned());
    assert_eq!(us.get_site(), "datadoghq.com");

    let mut eu = DatadogMetricsConfig::from_api_key("k".to_owned());
    eu.region = Some(Region::Eu);
    assert_eq!(eu.get_site(), "datadoghq.eu");

    let mut custom = DatadogMetricsConfig::from_api_key("k".to_owned());
    custom.site = Some("dd.example.com".to_owned());
    custom.region = Some(Region::Eu);
    assert_eq!(custom.get_site(), "dd.example.com");
}

#[test]
fn metric_endpoints_resolve() {
    let config = DatadogMetricsConfig::from_api_key("k".to_owned());
    assert_eq!(
        config.metric_endpoint_url(DatadogMetricsEndpoint::Series),
        "https://0-1-0-vector.agent.datadoghq.com/api/v1/series"
    );
    assert_eq!(
        config.metric_endpoint_url(DatadogMetricsEndpoint::Distribution),
        "https://0-1-0-vector.agent.datadoghq.com/api/v1/distribution_points"
    );
    assert_eq!(
        config.metric_endpoint_url(DatadogMetricsEndpoint::Sketch),
        "https://0-1-0-vector.agent.datadoghq.com/api/beta/sketches"
    );

    let endpoints = config.generate_metric_endpoints().expect("uris must parse");
    assert_eq!(endpoints.len(), 3);
    assert_eq!(endpoints[0].0, DatadogMetricsEndpoint::Series);
    assert_eq!(
        endpoints[0].1,
        "https://0-1-0-vector.agent.datadoghq.com/api/v1/series"
            .parse::<http::Uri>()
            .unwrap()
    );
    assert_eq!(endpoints[1].0, DatadogMetricsEndpoint::Distribution);
    assert_eq!(endpoints[2].0, DatadogMetricsEndpoint::Sketch);
}

#[test]
fn metric_endpoints_report_the_unparsable_url() {
    let mut config = DatadogMetricsConfig::from_api_key("k".to_owned());
    config.endpoint = Some("ht tp://bad host".to_owned());
    match config.generate_metric_endpoints() {
        Err(BuildError::InvalidHost { host }) => {
            // the first URL the http crate refuses: the series endpoint
            assert_eq!(host, "ht tp://bad host/api/v1/series");
        }
        Ok(_) => panic!("an unparsable endpoint must fail the build"),
    }
}

#[test]
fn healthcheck_request_layout() {
    let config = DatadogMetricsConfig::from_api_key("the-key".to_owned());
    let hc = config.build_healthcheck();
    assert_eq!(hc.uri, "https://api.datadoghq.com/api/v1/validate");
    assert_eq!(hc.api_key_header, "DD-API-KEY");
    assert_eq!(hc.api_key, "the-key");
    assert!(healthcheck_passes(200));
    assert!(healthcheck_passes(204));
    assert!(!healthcheck_passes(301));
    assert!(!healthcheck_passes(403));
}

#[test]
fn namespaced_metric_names() {
    let m = Metric {
        name: "requests".to_owned(),
        namespace: Some("app".to_owned()),
        timestamp_millis: 0,
        kind: MetricValueKind::Counter,
        tags: Vec::new(),
    };
    assert_eq!(namespaced_name(&m, &None), "app.requests");
    assert_eq!(namespaced_name(&m, &Some("dflt".to_owned())), "app.requests");

    let bare = Metric {
        name: "requests".to_owned(),
        namespace: None,
        timestamp_millis: 0,
        kind: MetricValueKind::Counter,
        tags: Vec::new(),
    };
    assert_eq!(namespaced_name(&bare, &Some("dflt".to_owned())), "dflt.requests");
    assert_eq!(namespaced_name(&bare, &None), "requests");

    let held = GenericSinkMetrics::new(vec![m, bare]);
    assert_eq!(held.0.len(), 2);
}

#[test]
fn payload_size_governance() {
    // within both ceilings
    assert_eq!(plan_for_payload(10, 1000, 500), PayloadPlan::Accept);
    assert_eq!(
        plan_for_payload(
            10,
            MAXIMUM_SERIES_PAYLOAD_SIZE,
            MAXIMUM_SERIES_PAYLOAD_COMPRESSED_SIZE
        ),
        PayloadPlan::Accept
    );
    // an oversized multi-event batch splits in half and retries
    assert_eq!(
        plan_for_payload(10, MAXIMUM_SERIES_PAYLOAD_SIZE + 1, 0),
        PayloadPlan::SplitAndRetry(5)
    );
    assert_eq!(
        plan_for_payload(3, 0, MAXIMUM_SERIES_PAYLOAD_COMPRESSED_SIZE + 1),
        PayloadPlan::SplitAndRetry(1)
    );
    // an oversized singleton is rejected, not split further
    assert_eq!(
        plan_for_payload(1, 0, MAXIMUM_SERIES_PAYLOAD_COMPRESSED_SIZE + 1),
        PayloadPlan::RejectSingleton
    );
}

#[test]
fn batch_accumulator_respects_bounds() {
    let mut settings = archives_default_batch();
    assert_eq!(settings.max_events, 25_000);
    assert_eq!(settings.max_bytes, 100_000_000);
    assert_eq!(settings.timeout_secs, 900);
    settings.max_events = 2;
    settings.max_bytes = 10;

    let mut acc = BatchAccumulator::new(settings);
    assert_eq!(acc.plan_admit(4), AdmitDecision::Admit);
    acc.accept_event(4);
    assert_eq!(acc.plan_admit(6), AdmitDecision::Admit);
    acc.accept_event(6);
    // count and bytes are both full now
    assert_eq!(acc.plan_admit(1), AdmitDecision::FlushFirst);
    assert!(acc.count <= 2 && acc.bytes <= 10);
    // an event over the byte ceiling goes out alone
    assert_eq!(acc.plan_admit(11), AdmitDecision::Singleton);
    assert_eq!(acc.flush(), Some((2, 10)));
    assert_eq!(acc.flush(), None);

    let metrics_defaults = metrics_default_batch();
    assert_eq!(metrics_defaults.max_events, 100_000);
    assert_eq!(metrics_defaults.timeout_secs, 2);
}

#[test]
fn retry_classification() {
    assert_eq!(classify_http_status(200), RetryOutcome::Success);
    assert_eq!(classify_http_status(204), RetryOutcome::Success);
    for status in [408u16, 429, 500, 502, 503, 504] {
        assert_eq!(classify_http_status(status), RetryOutcome::RetryableFailure);
    }
    for status in [301u16, 400, 401, 403, 404, 413, 501] {
        assert_eq!(classify_http_status(status), RetryOutcome::FatalFailure);
    }
    assert_eq!(
        classify_transport_event(TransportEvent::ConnectionError),
        RetryOutcome::RetryableFailure
    );
    assert_eq!(
        classify_transport_event(TransportEvent::Timeout),
        RetryOutcome::RetryableFailure
    );
    assert_eq!(
        classify_transport_event(TransportEvent::Status(403)),
        RetryOutcome::FatalFailure
    );
}

#[test]
fn backoff_doubles_and_caps() {
    assert_eq!(backoff_millis(0), 1000);
    assert_eq!(backoff_millis(1), 2000);
    assert_eq!(backoff_millis(2), 4000);
    assert_eq!(backoff_millis(3), 8000);
    assert_eq!(backoff_millis(4), 16000);
    assert_eq!(backoff_millis(5), 30000);
    assert_eq!(backoff_millis(12), 30000);
}

#[test]
fn retry_budget_is_bounded() {
    let policy = RetryPolicy {
        max_attempts: 2,
        max_duration_millis: 1500,
    };
    let mut state = RetryState::new();
    assert!(state.record_attempt(&policy, 1000));
    // a second attempt that would blow the time budget is refused
    assert!(!state.record_attempt(&policy, 1000));
    assert!(state.record_attempt(&policy, 500));
    // the attempt budget is now spent
    assert!(!state.record_attempt(&policy, 1));
    assert!(state.attempts <= policy.max_attempts);
    assert!(state.elapsed_millis <= policy.max_duration_millis);
}

#[test]
fn rfc3339_rendering_is_exact() {
    assert_eq!(rfc3339_millis(1629734427879), "2021-08-23T16:00:27.879Z");
    // leap-day boundary
    assert_eq!(rfc3339_millis(1583020799999), "2020-02-29T23:59:59.999Z");
    assert_eq!(rfc3339_millis(0), "1970-01-01T00:00:00.000Z");
}

#[test]
fn partition_key_rendering_is_exact() {
    assert_eq!(partition_key_for_millis(1629734427879), "/dt=20210823/hour=16/");
    assert_eq!(partition_key_for_millis(0), "/dt=19700101/hour=00/");
}

#[test]
fn attempt_disposition_follows_policy() {
    let policy = RetryPolicy {
        max_attempts: 2,
        max_duration_millis: 60_000,
    };
    let mut state = RetryState::new();

    // success delivers without touching the budget
    assert_eq!(
        dispose_attempt(&mut state, &policy, TransportEvent::Status(200), None),
        AttemptDisposition::Deliver
    );
    assert_eq!(state.attempts, 0);

    // a fatal status rejects at once
    assert_eq!(
        dispose_attempt(&mut state, &policy, TransportEvent::Status(403), None),
        AttemptDisposition::Reject
    );
    assert_eq!(state.attempts, 0);

    // a 429 with a server-given pause overrides the backoff
    assert_eq!(
        dispose_attempt(
            &mut state,
            &policy,
            TransportEvent::Status(429),
            Some(1234)
        ),
        AttemptDisposition::RetryAfter(1234)
    );
    assert_eq!(state.attempts, 1);
    assert_eq!(state.elapsed_millis, 1234);

    // a retryable failure without a header waits a jittered backoff
    match dispose_attempt(&mut state, &policy, TransportEvent::Timeout, None) {
        AttemptDisposition::RetryAfter(d) => {
            // second attempt: two seconds, within the 25% jitter band
            assert!(1500 <= d && d <= 2500);
        }
        other => panic!("expected a retry, got {:?}", other),
    }
    assert_eq!(state.attempts, 2);

    // the attempt budget is now spent
    assert_eq!(
        dispose_attempt(&mut state, &policy, TransportEvent::Status(503), Some(1)),
        AttemptDisposition::Reject
    );
    assert!(state.attempts <= policy.max_attempts);
    assert!(state.elapsed_millis <= policy.max_duration_millis);
}

#[test]
fn request_settings_resolve_through_defaults() {
    let settings = RequestConfig::unspecified().unwrap_with(&metrics_default_request());
    assert_eq!(settings.concurrency, Concurrency::Unlimited);
    assert_eq!(settings.retry_attempts, 5);
    assert_eq!(settings.timeout_secs, 60);
    assert_eq!(settings.rate_limit_duration_secs, 1);
    assert_eq!(settings.rate_limit_num, 5);
    assert_eq!(settings.retry_max_duration_secs, 3600);
    assert_eq!(settings.retry_initial_backoff_secs, 1);

    let mut user = RequestConfig::unspecified();
    user.concurrency = Some(Concurrency::Fixed(7));
    user.rate_limit_num = Some(99);
    let settings = user.unwrap_with(&metrics_default_request());
    assert_eq!(settings.concurrency, Concurrency::Fixed(7));
    assert_eq!(settings.rate_limit_num, 99);
    assert_eq!(settings.retry_attempts, 5);
}

#[test]
fn rate_limiter_caps_each_window() {
    let mut limiter = RateLimiter::new(2, 1000, 0);
    assert!(limiter.try_dispatch(10));
    assert!(limiter.try_dispatch(20));
    // the window is full
    assert!(!limiter.try_dispatch(30));
    assert!(limiter.dispatched <= limiter.limit);
    // a fresh window opens after the duration
    assert!(limiter.try_dispatch(1000));
    assert!(limiter.try_dispatch(1500));
    assert!(!limiter.try_dispatch(1999));
    assert!(limiter.try_dispatch(2000));
}

#[test]
fn concurrency_permits_bound_in_flight() {
    let mut permits = ConcurrencyPermits::new(Concurrency::Fixed(2));
    assert!(permits.try_acquire());
    assert!(permits.try_acquire());
    assert!(!permits.try_acquire());
    assert_eq!(permits.in_flight, 2);
    permits.release();
    assert!(permits.try_acquire());
    assert!(!permits.try_acquire());

    let mut unbounded = ConcurrencyPermits::new(Concurrency::Unlimited);
    for _ in 0..100 {
        assert!(unbounded.try_acquire());
    }
    assert_eq!(unbounded.in_flight, 100);
}
