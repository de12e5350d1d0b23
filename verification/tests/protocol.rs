use rbgg::errors::BggError;
use rbgg::errors::InvalidBGGType;
use rbgg::executor::normalize_body;
use rbgg::executor::run_protocol;
use rbgg::executor::settle;
use rbgg::executor::should_retry;
use rbgg::executor::ParseOutcome;
use rbgg::executor::Reply;
use rbgg::executor::RetryState;
use rbgg::executor::RunOutcome;
use serde_json::Value;

#[test]
fn two_deferrals_then_completion() {
    let body = Value::String("done".to_string());
    let replies = vec![
        Reply::Answer(202, ParseOutcome::Parsed(Value::Null)),
        Reply::Answer(202, ParseOutcome::Parsed(Value::Null)),
        Reply::Answer(200, ParseOutcome::Parsed(body.clone())),
    ];
    let (outcome, suspensions) = run_protocol(replies);
    assert_eq!(suspensions, 2);
    match outcome {
        RunOutcome::Done(v) => assert_eq!(v, body),
        _ => panic!("the third reply settles the call"),
    }
}

#[test]
fn conversion_and_transport_errors_are_distinct() {
    let (outcome, suspensions) = run_protocol(vec![Reply::Answer(200, ParseOutcome::Malformed)]);
    assert_eq!(suspensions, 0);
    assert!(matches!(outcome, RunOutcome::Failed(BggError::Conversion)));

    let (outcome, suspensions) = run_protocol(vec![Reply::ConnectionLost]);
    assert_eq!(suspensions, 0);
    assert!(matches!(outcome, RunOutcome::Failed(BggError::Transport)));
}

#[test]
fn all_deferrals_leaves_the_call_pending() {
    let replies = vec![
        Reply::Answer(202, ParseOutcome::Parsed(Value::Null)),
        Reply::Answer(202, ParseOutcome::Parsed(Value::Null)),
        Reply::Answer(202, ParseOutcome::Parsed(Value::Null)),
    ];
    let (outcome, suspensions) = run_protocol(replies);
    assert_eq!(suspensions, 3);
    assert!(matches!(outcome, RunOutcome::Pending));
}

#[test]
fn error_statuses_still_complete() {
    // a 404 is not retried; its body still goes to the normalizer
    let body = Value::String("oops".to_string());
    let (outcome, suspensions) = run_protocol(vec![Reply::Answer(
        404,
        ParseOutcome::Parsed(body.clone()),
    )]);
    assert_eq!(suspensions, 0);
    match outcome {
        RunOutcome::Done(v) => assert_eq!(v, body),
        _ => panic!("any non-202 status completes the call"),
    }
}

#[test]
fn retry_decision() {
    assert!(should_retry(202));
    assert!(!should_retry(200));
    assert!(!should_retry(404));
    assert!(!should_retry(500));

    let mut st = RetryState::new();
    assert_eq!(st.suspensions, 0);
    assert!(st.on_response(202));
    assert_eq!(st.suspensions, 1);
    assert!(!st.on_response(200));
    assert_eq!(st.suspensions, 1);
}

#[test]
fn settle_maps_outcomes() {
    let v = Value::String("x".to_string());
    assert_eq!(settle(ParseOutcome::Parsed(v.clone())).unwrap(), v);
    assert!(matches!(settle(ParseOutcome::Malformed), Err(BggError::Conversion)));
}

#[test]
fn normalizer_output() {
    let v = normalize_body("<a>hello</a>").expect("the normalizer accepts well-formed input");
    assert_eq!(v["a"], Value::String("hello".to_string()));

    // the normalizer in use accepts any body; stray text becomes a string
    let v = normalize_body("not xml at all").expect("the normalizer accepts any body");
    assert_eq!(v, Value::String("not xml at all".to_string()));
}

#[test]
fn invalid_type_message() {
    let e = InvalidBGGType::new("foo", "bad");
    assert_eq!(e.describe(), "InvalidBGGType: { type: foo, message: bad }");
}
