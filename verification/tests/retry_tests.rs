use audio_pipeline::retry::ErrorHandler;
use audio_pipeline::retry::RetryDecision;

fn err(msg: &str) -> Result<String, String> {
    Err(String::from(msg))
}

fn ok(msg: &str) -> Result<String, String> {
    Ok(String::from(msg))
}

#[test]
fn failing_twice_then_succeeding_counts_two_retries_and_one_success() {
    let mut handler = ErrorHandler::new(5, 100);
    let context = String::from("transcribe segment");
    let attempts = vec![err("timeout"), err("timeout"), ok("hello"), err("unused"), err("unused")];
    let result = handler.safe_execute(&attempts, &context);
    assert_eq!(result, Ok(String::from("hello")));
    assert_eq!(handler.counters.count_for(&context), 2);
    assert_eq!(handler.counters.total_retries, 2);
    assert_eq!(handler.counters.total_successes, 1);
    assert_eq!(handler.counters.total_failures, 0);
}

#[test]
fn always_failing_exhausts_retries_with_a_composite_error() {
    let mut handler = ErrorHandler::new(3, 100);
    let context = String::from("upload");
    let attempts = vec![err("first"), err("second"), err("last")];
    let result = handler.safe_execute(&attempts, &context);
    assert_eq!(result, Err(String::from("upload: last")));
    assert_eq!(handler.counters.count_for(&context), 3);
    assert_eq!(handler.counters.total_retries, 3);
    assert_eq!(handler.counters.total_successes, 0);
    assert_eq!(handler.counters.total_failures, 1);
}

#[test]
fn immediate_success_counts_nothing_but_the_success() {
    let mut handler = ErrorHandler::new(2, 50);
    let context = String::from("probe");
    let attempts = vec![ok("fine"), err("unused")];
    let result = handler.safe_execute(&attempts, &context);
    assert_eq!(result, Ok(String::from("fine")));
    assert_eq!(handler.counters.count_for(&context), 0);
    assert_eq!(handler.counters.total_retries, 0);
    assert_eq!(handler.counters.total_successes, 1);
}

#[test]
fn backoff_grows_linearly() {
    let handler = ErrorHandler::new(5, 100);
    assert_eq!(handler.backoff_delay_ms(1), 100);
    assert_eq!(handler.backoff_delay_ms(2), 200);
    assert_eq!(handler.backoff_delay_ms(3), 300);
}

#[test]
fn on_failure_retries_until_the_limit() {
    let mut handler = ErrorHandler::new(2, 100);
    let context = String::from("call");
    match handler.on_failure(&context, 1) {
        RetryDecision::Retry { delay_ms } => assert_eq!(delay_ms, 100),
        RetryDecision::GiveUp => panic!("should retry after the first failure"),
    }
    match handler.on_failure(&context, 2) {
        RetryDecision::GiveUp => {}
        RetryDecision::Retry { .. } => panic!("should give up at the limit"),
    }
    assert_eq!(handler.counters.count_for(&context), 2);
    assert_eq!(handler.counters.total_failures, 1);
}

#[test]
fn contexts_are_counted_separately() {
    let mut handler = ErrorHandler::new(3, 10);
    let a = String::from("a");
    let b = String::from("b");
    let attempts = vec![err("x"), ok("y"), err("unused")];
    let _ = handler.safe_execute(&attempts, &a);
    let attempts = vec![err("x"), err("x"), ok("z")];
    let _ = handler.safe_execute(&attempts, &b);
    assert_eq!(handler.counters.count_for(&a), 1);
    assert_eq!(handler.counters.count_for(&b), 2);
    assert_eq!(handler.counters.total_retries, 3);
    assert_eq!(handler.counters.total_successes, 2);
}
