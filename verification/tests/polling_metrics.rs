use maid::polling_metrics::{is_metrics_request, respond, PollingMetrics, METRIC_NAME};

#[test]
fn omits_sample_before_a_successful_poll() {
    let rendered = PollingMetrics::new().render();

    assert!(rendered.contains(&format!("# TYPE {METRIC_NAME} gauge")));
    assert!(!rendered.lines().any(|line| line.starts_with(METRIC_NAME)));
}

#[test]
fn renders_the_last_successful_poll_timestamp() {
    let mut metrics = PollingMetrics::new();
    metrics.record_success(42);

    assert!(metrics.render().contains(&format!("{METRIC_NAME} 42\n")));
}

#[test]
fn answers_only_requests_for_metrics() {
    let mut metrics = PollingMetrics::new();
    metrics.record_success(1);
    let body = metrics.render();

    assert!(is_metrics_request(&b"GET /metrics HTTP/1.1\r\n".to_vec()));
    assert!(!is_metrics_request(&b"GET /metrics".to_vec()));
    assert!(!is_metrics_request(&b"POST /metrics HTTP/1.1".to_vec()));
    assert_eq!(
        respond(&b"GET /metrics HTTP/1.1\r\n".to_vec(), &metrics),
        format!(
            "HTTP/1.1 200 OK\r\nContent-Type: text/plain; version=0.0.4; charset=utf-8\r\n\
             Content-Length: {}\r\nConnection: close\r\n\r\n{body}",
            body.len()
        )
    );
    assert_eq!(
        respond(&b"GET / HTTP/1.1\r\n".to_vec(), &metrics),
        "HTTP/1.1 404 Not Found\r\nContent-Type: text/plain; version=0.0.4; charset=utf-8\r\n\
         Content-Length: 10\r\nConnection: close\r\n\r\nnot found\n"
    );
}

#[test]
fn there_is_one_sample_after_a_success_and_it_is_the_last() {
    let mut metrics = PollingMetrics::new();
    metrics.record_success(42);
    metrics.record_success(43);
    let rendered = metrics.render();
    let samples: Vec<&str> = rendered
        .lines()
        .filter(|line| line.starts_with(METRIC_NAME))
        .collect();

    assert_eq!(samples, [format!("{METRIC_NAME} 43")]);
}
