use soldr::authority::{find_host_header, request_authority, ResolveError};
use soldr::delivery::{
    classify, conclude, forward_headers, ingest, map_origin, route, timed_out, Conclusion, Outcome, Route,
    RouteError,
};
use soldr::ledger::{backoff_delay, Ledger, LedgerError};
use soldr::origin::{Origin, OriginCache, OriginEntry};
use soldr::state::RequestState;

fn origin(uri: &str, threshold: Option<u32>) -> Origin {
    Origin {
        uri: uri.to_string(),
        timeout: 100,
        alert_threshold: threshold,
        alert_email: Some("ops@a.example".to_string()),
        smtp_host: None,
        smtp_port: None,
        smtp_username: None,
        smtp_password: None,
        smtp_tls: false,
    }
}

fn cache_with(domain: &str, o: Origin) -> OriginCache {
    let mut cache = OriginCache::new();
    cache.insert(domain.to_string(), o);
    cache
}

fn ingest_get(ledger: &mut Ledger, uri: &str, headers: Vec<(String, String)>) -> u64 {
    ingest(ledger, "GET".to_string(), uri.to_string(), headers, None, 10).unwrap()
}

fn host(h: &str) -> Vec<(String, String)> {
    vec![("host".to_string(), h.to_string())]
}

fn failed(status: u16) -> Outcome {
    Outcome::Response { status, body: Some(b"error".to_vec()) }
}

#[test]
fn ingest_assigns_increasing_ids_and_enqueues() {
    let mut ledger = Ledger::new();
    let a = ingest_get(&mut ledger, "/a", host("a.example"));
    let b = ingest_get(&mut ledger, "/b", host("a.example"));
    assert_eq!(a, 1);
    assert_eq!(b, 2);
    let rec = ledger.request(a).unwrap();
    assert_eq!(rec.state, RequestState::Enqueued);
    assert_eq!(rec.uri, "/a");
    assert_eq!(rec.created_at, 10);
    assert_eq!(rec.next_retry_at, None);
    assert!(rec.attempts.is_empty());
    assert_eq!(ledger.len(), 2);
}

#[test]
fn success_completes_with_one_attempt() {
    let mut ledger = Ledger::new();
    let cache = cache_with("a.example", origin("https://backend", Some(1)));
    let id = ingest_get(&mut ledger, "/hook", host("a.example"));
    let o = match route(&mut ledger, &cache, id).unwrap() {
        Route::Forward(o) => o,
        Route::Skipped => panic!("expected a forward"),
    };
    assert_eq!(o.uri, "https://backend");
    let c = conclude(&mut ledger, id, &o, Outcome::Response { status: 204, body: None }, 20).unwrap();
    assert_eq!(c, Conclusion { state: RequestState::Completed, alert: false });
    let rec = ledger.request(id).unwrap();
    assert_eq!(rec.state, RequestState::Completed);
    assert_eq!(rec.attempts.len(), 1);
    assert_eq!(rec.attempts[0].status, 204);
    assert_eq!(rec.attempts[0].request_id, id);
    assert_eq!(rec.next_retry_at, None);
}

#[test]
fn timeout_records_504_and_schedules_retry() {
    let mut ledger = Ledger::new();
    let o = origin("https://backend", None);
    let id = ingest_get(&mut ledger, "/hook", host("a.example"));
    let c = conclude(&mut ledger, id, &o, failed(504), 1000).unwrap();
    assert_eq!(c, Conclusion { state: RequestState::Timeout, alert: false });
    let rec = ledger.request(id).unwrap();
    assert_eq!(rec.state, RequestState::Timeout);
    assert_eq!(rec.attempts.len(), 1);
    assert_eq!(rec.attempts[0].status, 504);
    assert_eq!(rec.next_retry_at, Some(1000 + 2000));
}

#[test]
fn non_success_fails_and_schedules_retry() {
    let mut ledger = Ledger::new();
    let o = origin("https://backend", None);
    let id = ingest_get(&mut ledger, "/hook", host("a.example"));
    let c = conclude(&mut ledger, id, &o, failed(404), 0).unwrap();
    assert_eq!(c, Conclusion { state: RequestState::Failed, alert: false });
    assert_eq!(ledger.request(id).unwrap().state, RequestState::Failed);
    assert_eq!(ledger.request(id).unwrap().next_retry_at, Some(2000));
}

#[test]
fn transport_error_panics_retries_and_always_alerts() {
    let mut ledger = Ledger::new();
    let id = ingest_get(&mut ledger, "/hook", host("a.example"));
    for threshold in [None, Some(5)] {
        let o = origin("https://backend", threshold);
        let c = conclude(&mut ledger, id, &o, Outcome::TransportError, 50).unwrap();
        assert_eq!(c, Conclusion { state: RequestState::Panic, alert: true });
    }
    let rec = ledger.request(id).unwrap();
    assert_eq!(rec.state, RequestState::Panic);
    assert!(rec.attempts.is_empty());
    assert_eq!(rec.next_retry_at, Some(50 + 1000));
}

#[test]
fn three_failures_alert_once_on_the_third() {
    let mut ledger = Ledger::new();
    let cache = cache_with("a.example", origin("https://backend", Some(3)));
    let id = ingest_get(&mut ledger, "/hook", host("a.example"));
    let mut alerts = Vec::new();
    for n in 1..=3usize {
        let o = match route(&mut ledger, &cache, id).unwrap() {
            Route::Forward(o) => o,
            Route::Skipped => panic!("expected a forward"),
        };
        assert_eq!(o.timeout, 100);
        let c = conclude(&mut ledger, id, &o, failed(500), 0).unwrap();
        assert_eq!(c.state, RequestState::Failed);
        assert_eq!(ledger.request(id).unwrap().state, RequestState::Failed);
        assert_eq!(ledger.request(id).unwrap().attempts.len(), n);
        if c.alert {
            alerts.push(n);
        }
    }
    assert_eq!(alerts, vec![3]);
}

#[test]
fn alert_keeps_firing_once_threshold_is_reached() {
    let mut ledger = Ledger::new();
    let o = origin("https://backend", Some(1));
    let id = ingest_get(&mut ledger, "/hook", host("a.example"));
    assert!(conclude(&mut ledger, id, &o, failed(500), 0).unwrap().alert);
    assert!(conclude(&mut ledger, id, &o, failed(504), 0).unwrap().alert);
}

#[test]
fn unconfigured_domain_is_skipped_without_attempts() {
    let mut ledger = Ledger::new();
    let cache = cache_with("a.example", origin("https://backend", Some(3)));
    let id = ingest_get(&mut ledger, "/hook", host("b.example"));
    assert!(matches!(route(&mut ledger, &cache, id), Ok(Route::Skipped)));
    let rec = ledger.request(id).unwrap();
    assert_eq!(rec.state, RequestState::Skipped);
    assert!(rec.attempts.is_empty());
    assert!(ledger.sweep(u64::MAX).is_empty());
}

#[test]
fn retry_sweep_reresolves_the_origin() {
    let mut ledger = Ledger::new();
    let mut cache = cache_with("a.example", origin("https://old-backend", None));
    let id = ingest_get(&mut ledger, "/hook", host("a.example"));
    let o = match route(&mut ledger, &cache, id).unwrap() {
        Route::Forward(o) => o,
        Route::Skipped => panic!("expected a forward"),
    };
    assert_eq!(o.uri, "https://old-backend");
    conclude(&mut ledger, id, &o, failed(500), 100).unwrap();
    assert!(ledger.sweep(100 + 1999).is_empty());
    cache.insert("a.example".to_string(), origin("https://new-backend", None));
    assert_eq!(ledger.sweep(100 + 2000), vec![id]);
    assert_eq!(ledger.request(id).unwrap().state, RequestState::Enqueued);
    assert_eq!(ledger.request(id).unwrap().next_retry_at, None);
    assert!(ledger.sweep(u64::MAX).is_empty());
    match route(&mut ledger, &cache, id).unwrap() {
        Route::Forward(o) => assert_eq!(o.uri, "https://new-backend"),
        Route::Skipped => panic!("expected a forward"),
    }
}

#[test]
fn sweep_skips_completed_requests() {
    let mut ledger = Ledger::new();
    let o = origin("https://backend", None);
    let a = ingest_get(&mut ledger, "/a", host("a.example"));
    let b = ingest_get(&mut ledger, "/b", host("a.example"));
    conclude(&mut ledger, a, &o, failed(200), 0).unwrap();
    conclude(&mut ledger, b, &o, Outcome::TransportError, 0).unwrap();
    assert_eq!(ledger.sweep(1000), vec![b]);
}

#[test]
fn unknown_request_is_reported() {
    let mut ledger = Ledger::new();
    let cache = OriginCache::new();
    let o = origin("https://backend", None);
    assert_eq!(conclude(&mut ledger, 1, &o, failed(500), 0).unwrap_err(), LedgerError::UnknownRequest);
    assert_eq!(route(&mut ledger, &cache, 0).unwrap_err(), RouteError::UnknownRequest);
    assert_eq!(ledger.set_state(3, RequestState::Completed), Err(LedgerError::UnknownRequest));
    assert_eq!(ledger.threshold_reached(1, 1), Err(LedgerError::UnknownRequest));
}

#[test]
fn resolution_failure_leaves_the_request_enqueued() {
    let mut ledger = Ledger::new();
    let cache = cache_with("a.example", origin("https://backend", None));
    let id = ingest_get(&mut ledger, "/hook", vec![]);
    assert_eq!(route(&mut ledger, &cache, id).unwrap_err(), RouteError::Resolve(ResolveError::MissingHost));
    assert_eq!(ledger.request(id).unwrap().state, RequestState::Enqueued);
}

#[test]
fn authority_comes_from_the_uri_first() {
    let headers = host("b.example");
    assert_eq!(request_authority(&"https://a.example/x".to_string(), &headers), Ok("a.example".to_string()));
    assert_eq!(request_authority(&"http://a.example:8080/x?y=1".to_string(), &headers), Ok("a.example:8080".to_string()));
    assert_eq!(request_authority(&"/x".to_string(), &headers), Ok("b.example".to_string()));
}

#[test]
fn authority_errors() {
    assert_eq!(request_authority(&"not a uri".to_string(), &vec![]), Err(ResolveError::InvalidUri));
    assert_eq!(request_authority(&"/x".to_string(), &vec![]), Err(ResolveError::MissingHost));
    assert_eq!(request_authority(&"/x".to_string(), &host("bad host")), Err(ResolveError::InvalidHost));
}

#[test]
fn first_host_header_wins() {
    let headers = vec![
        ("Host".to_string(), "upper.example".to_string()),
        ("accept".to_string(), "*/*".to_string()),
        ("host".to_string(), "first.example".to_string()),
        ("host".to_string(), "second.example".to_string()),
    ];
    assert_eq!(find_host_header(&headers), Some(&"first.example".to_string()));
    assert_eq!(find_host_header(&vec![]), None);
}

#[test]
fn uri_authority_selects_origin() {
    let mut ledger = Ledger::new();
    let cache = cache_with("a.example", origin("https://backend", None));
    let id = ingest_get(&mut ledger, "https://a.example/hook", vec![]);
    assert_eq!(map_origin(&ledger, &cache, id).unwrap().unwrap().uri, "https://backend");
}

#[test]
fn classification_of_statuses() {
    assert_eq!(classify(200), RequestState::Completed);
    assert_eq!(classify(299), RequestState::Completed);
    assert_eq!(classify(300), RequestState::Failed);
    assert_eq!(classify(199), RequestState::Failed);
    assert_eq!(classify(504), RequestState::Timeout);
    assert_eq!(classify(500), RequestState::Failed);
}

#[test]
fn backoff_doubles_up_to_the_cap() {
    assert_eq!(backoff_delay(0), 1000);
    assert_eq!(backoff_delay(1), 2000);
    assert_eq!(backoff_delay(3), 8000);
    assert_eq!(backoff_delay(11), 2048000);
    assert_eq!(backoff_delay(12), 3600000);
    assert_eq!(backoff_delay(usize::MAX), 3600000);
}

#[test]
fn retry_time_saturates() {
    let mut ledger = Ledger::new();
    let id = ingest_get(&mut ledger, "/a", host("a.example"));
    ledger.schedule_retry(id, RequestState::Failed, u64::MAX - 10).unwrap();
    assert_eq!(ledger.request(id).unwrap().next_retry_at, Some(u64::MAX));
}

#[test]
fn cache_latest_mapping_wins_and_refresh_replaces() {
    let mut cache = OriginCache::new();
    assert!(cache.resolve(&"a.example".to_string()).is_none());
    cache.insert("a.example".to_string(), origin("https://one", None));
    cache.insert("b.example".to_string(), origin("https://two", None));
    cache.insert("a.example".to_string(), origin("https://three", None));
    assert_eq!(cache.resolve(&"a.example".to_string()).unwrap().uri, "https://three");
    assert_eq!(cache.resolve(&"b.example".to_string()).unwrap().uri, "https://two");
    cache.refresh(vec![OriginEntry { domain: "c.example".to_string(), origin: origin("https://four", None) }]);
    assert!(cache.resolve(&"a.example".to_string()).is_none());
    assert_eq!(cache.resolve(&"c.example".to_string()).unwrap().uri, "https://four");
}

#[test]
fn attempts_get_distinct_ids_across_requests() {
    let mut ledger = Ledger::new();
    let a = ingest_get(&mut ledger, "/a", host("a.example"));
    let b = ingest_get(&mut ledger, "/b", host("a.example"));
    assert_eq!(ledger.append_attempt(a, 500, None, 1), Ok(1));
    assert_eq!(ledger.append_attempt(b, 500, None, 2), Ok(2));
    assert_eq!(ledger.append_attempt(a, 200, None, 3), Ok(3));
    assert_eq!(ledger.threshold_reached(a, 2), Ok(true));
    assert_eq!(ledger.threshold_reached(b, 2), Ok(false));
}

#[test]
fn state_predicates() {
    assert!(RequestState::Failed.is_retryable());
    assert!(RequestState::Panic.is_retryable());
    assert!(!RequestState::Skipped.is_retryable());
    assert!(RequestState::Completed.is_terminal());
    assert!(!RequestState::Timeout.is_terminal());
}

#[test]
fn unparseable_origin_uri_stops_resolution() {
    let mut ledger = Ledger::new();
    let cache = cache_with("a.example", origin("not a uri", Some(1)));
    let id = ingest_get(&mut ledger, "/hook", host("a.example"));
    assert_eq!(map_origin(&ledger, &cache, id).unwrap_err(), RouteError::InvalidOriginUri);
    assert_eq!(route(&mut ledger, &cache, id).unwrap_err(), RouteError::InvalidOriginUri);
    let rec = ledger.request(id).unwrap();
    assert_eq!(rec.state, RequestState::Enqueued);
    assert!(rec.attempts.is_empty());
    assert_eq!(rec.next_retry_at, None);
}

#[test]
fn cache_insert_replaces_in_place() {
    let mut cache = OriginCache::new();
    cache.insert("a.example".to_string(), origin("https://one", None));
    cache.insert("b.example".to_string(), origin("https://two", None));
    cache.insert("a.example".to_string(), origin("https://three", None));
    cache.insert("a.example".to_string(), origin("https://four", None));
    assert_eq!(cache.len(), 2);
    assert_eq!(cache.resolve(&"a.example".to_string()).unwrap().uri, "https://four");
    assert_eq!(cache.resolve(&"b.example".to_string()).unwrap().uri, "https://two");
}

#[test]
fn forwarded_headers_drop_host_only() {
    let headers = vec![
        ("host".to_string(), "a.example".to_string()),
        ("content-type".to_string(), "application/json".to_string()),
        ("Host".to_string(), "kept.example".to_string()),
        ("x-id".to_string(), "1".to_string()),
        ("x-id".to_string(), "2".to_string()),
    ];
    let out = forward_headers(&headers);
    assert_eq!(out, headers[1..].to_vec());
    assert!(forward_headers(&vec![]).is_empty());
}

#[test]
fn timeout_outcome_is_recorded_as_504() {
    assert!(matches!(timed_out(), Outcome::Response { status: 504, body: None }));
    let mut ledger = Ledger::new();
    let o = origin("https://backend", Some(1));
    let id = ingest_get(&mut ledger, "/hook", host("a.example"));
    let c = conclude(&mut ledger, id, &o, timed_out(), 7).unwrap();
    assert_eq!(c, Conclusion { state: RequestState::Timeout, alert: true });
    assert_eq!(ledger.request(id).unwrap().attempts[0].status, 504);
    assert!(ledger.request(id).unwrap().next_retry_at.unwrap() > 7);
}

#[test]
fn response_body_is_capped() {
    let mut ledger = Ledger::new();
    let o = origin("https://backend", None);
    let id = ingest_get(&mut ledger, "/hook", host("a.example"));
    let big = vec![7u8; 70000];
    conclude(&mut ledger, id, &o, Outcome::Response { status: 500, body: Some(big) }, 0).unwrap();
    assert_eq!(ledger.request(id).unwrap().attempts[0].body.as_ref().unwrap().len(), 65536);
}
