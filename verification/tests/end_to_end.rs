use influx_loadgen::data::generate_batch;
use influx_loadgen::error::UploadError;
use influx_loadgen::logging::log_filter;
use influx_loadgen::payload::encode_payload;
use influx_loadgen::payload::CompressionLevel;
use influx_loadgen::pipeline::Phase;
use influx_loadgen::pipeline::Pipeline;
use influx_loadgen::request::build_request;
use influx_loadgen::request::Endpoint;
use influx_loadgen::request::UploadRequest;
use influx_loadgen::retry::on_attempt;
use influx_loadgen::retry::AttemptOutcome;
use influx_loadgen::retry::RetryPolicy;
use influx_loadgen::retry::RetryState;
use influx_loadgen::retry::RetryStep;

fn endpoint() -> Endpoint {
    Endpoint {
        url: "http://localhost:8086/".to_string(),
        org: "org".to_string(),
        bucket: "bucket".to_string(),
        token: "token".to_string(),
    }
}

fn prepare(lines: usize, level: Option<CompressionLevel>) -> Result<UploadRequest, UploadError> {
    let floats: Vec<String> = (0..lines).map(|i| format!("{}", 1.0 / (i as f64 + 2.0))).collect();
    let text = generate_batch(lines, &floats).map_err(UploadError::Generation)?;
    let payload = encode_payload(text.into_bytes(), level)?;
    build_request(&endpoint(), payload)
}

/// Sends a request to an endpoint that answers with `answers` in turn.
fn send(answers: &[u16]) -> (Result<(), UploadError>, usize) {
    let policy = RetryPolicy::standard();
    let mut state = RetryState::new();
    let mut sent = 0;
    loop {
        let code = answers[sent.min(answers.len() - 1)];
        sent += 1;
        match on_attempt(&policy, &mut state, AttemptOutcome::Status { code }) {
            RetryStep::Done => return (Ok(()), sent),
            RetryStep::RetryAfter { .. } => {}
            RetryStep::GiveUp { error } => return (Err(error), sent),
        }
    }
}

fn header<'a>(request: &'a UploadRequest, name: &str) -> &'a str {
    let found: Vec<&(String, String)> =
        request.headers.iter().filter(|(n, _)| n.eq_ignore_ascii_case(name)).collect();
    assert_eq!(found.len(), 1);
    &found[0].1
}

#[test]
fn one_batch_of_three_lines_sent_uncompressed() {
    let mut pipeline = Pipeline::new(4, Some(1)).unwrap();
    assert_eq!(pipeline.issue(), Some(0));
    assert_eq!(pipeline.issue(), None);
    let request = prepare(3, None).unwrap();
    assert_eq!(request.url, "http://localhost:8086/api/v2/write");
    assert_eq!(header(&request, "Content-Encoding"), "identity");
    assert_eq!(header(&request, "Authorization"), "Token token");
    assert_eq!(header(&request, "Accept"), "application/json");
    assert_eq!(header(&request, "Content-Type"), "text/plain; charset=utf-8");
    let body = String::from_utf8(request.body.clone()).unwrap();
    let lines: Vec<&str> = body.split_inclusive('\n').collect();
    assert_eq!(lines.len(), 3);
    for line in lines {
        assert!(line.starts_with("table,tag="));
        assert!(line.ends_with('\n'));
        assert_eq!(line.matches(' ').count(), 2);
        assert_eq!(line.matches(',').count(), 5);
    }
    let (sent, attempts) = send(&[200]);
    assert_eq!(attempts, 1);
    assert_eq!(pipeline.complete(0, sent), Some(vec![0]));
    assert_eq!(pipeline.phase(), Phase::Completed);
    assert!(pipeline.failure().is_none());
}

#[test]
fn five_batches_with_a_limit_of_three_are_reported_in_order() {
    let mut pipeline = Pipeline::new(3, Some(5)).unwrap();
    let finish_order = [1usize, 2, 0, 4, 3];
    let mut reported = Vec::new();
    let mut at_work = Vec::new();
    for index in finish_order {
        while let Some(started) = pipeline.issue() {
            at_work.push(started);
        }
        assert!(at_work.len() <= 3);
        assert!(at_work.contains(&index));
        at_work.retain(|i| *i != index);
        let (sent, _) = send(&[503, 429, 204]);
        reported.extend(pipeline.complete(index, sent).unwrap());
    }
    assert_eq!(reported, vec![0, 1, 2, 3, 4]);
    assert_eq!(pipeline.phase(), Phase::Completed);
}

#[test]
fn fatal_third_batch_of_five_ends_the_run_with_its_error() {
    let mut pipeline = Pipeline::new(3, Some(5)).unwrap();
    let mut reported = Vec::new();
    for _ in 0..3 {
        pipeline.issue().unwrap();
    }
    reported.extend(pipeline.complete(0, send(&[200]).0).unwrap());
    assert_eq!(pipeline.issue(), Some(3));
    let (sent, attempts) = send(&[404]);
    assert_eq!(attempts, 1);
    reported.extend(pipeline.complete(2, sent).unwrap());
    assert_eq!(pipeline.failure(), Some(&UploadError::Status { code: 404 }));
    assert_eq!(pipeline.issue(), None);
    reported.extend(pipeline.complete(1, send(&[200]).0).unwrap());
    reported.extend(pipeline.complete(3, send(&[200]).0).unwrap());
    assert_eq!(reported, vec![0]);
    assert_eq!(pipeline.phase(), Phase::Aborted);
    assert_eq!(pipeline.failure(), Some(&UploadError::Status { code: 404 }));
    assert_eq!(pipeline.issue(), None);
}

#[test]
fn bad_configuration_fails_the_first_batch() {
    let mut pipeline = Pipeline::new(2, None).unwrap();
    assert_eq!(pipeline.issue(), Some(0));
    let floats = vec!["0.5".to_string()];
    let text = generate_batch(1, &floats).unwrap();
    let payload = encode_payload(text.into_bytes(), Some(CompressionLevel::Best)).unwrap();
    let mut nowhere = endpoint();
    nowhere.url = "localhost".to_string();
    let built = build_request(&nowhere, payload).map(|_| ());
    assert!(built.is_err());
    assert_eq!(pipeline.complete(0, built), Some(vec![]));
    assert_eq!(pipeline.phase(), Phase::Aborted);
}

#[test]
fn log_filter_follows_the_verbosity() {
    assert_eq!(log_filter(None, 0, "loadgen"), "warn");
    assert_eq!(log_filter(None, 1, "loadgen"), "info");
    assert_eq!(log_filter(None, 2, "loadgen"), "info,loadgen=debug");
    assert_eq!(log_filter(None, 3, "loadgen"), "debug");
    assert_eq!(log_filter(None, 4, "loadgen"), "trace");
    assert_eq!(log_filter(None, 255, "loadgen"), "trace");
}

#[test]
fn log_filter_given_wins_over_the_verbosity() {
    assert_eq!(log_filter(Some("hyper=off,debug".to_string()), 0, "loadgen"), "hyper=off,debug");
    assert_eq!(log_filter(Some(String::new()), 3, "loadgen"), "");
}
