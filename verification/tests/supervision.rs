use worker_core::model::JobError;
use worker_core::model::MAX_LOG_SIZE;
use worker_core::outcome::interpret_result;
use worker_core::supervisor::SupervisorState;
use worker_core::supervisor::screen_line;
use worker_core::supervisor::timeout_canceled_by;
use worker_core::supervisor::timeout_exceeded;
use worker_core::supervisor::timeout_reason;
use worker_core::zombie::should_restart;
use worker_core::zombie::zombie_cutoff_ms;

const OVERFLOW_MSG: &str = "Too many logs lines. Limit is 50000 chars. Killing job.";

#[test]
fn short_lines_pass_the_screen() {
    let (text, stop) = screen_line("hello".to_string());
    assert_eq!(text, "hello");
    assert!(!stop);
    let exactly_cap = "x".repeat(MAX_LOG_SIZE);
    let (text, stop) = screen_line(exactly_cap.clone());
    assert_eq!(text, exactly_cap);
    assert!(!stop);
}

#[test]
fn oversized_line_is_replaced() {
    let big = "x".repeat(MAX_LOG_SIZE + 1);
    let (text, stop) = screen_line(big);
    assert_eq!(text, "Line is too big");
    assert!(stop);
}

#[test]
fn lines_accumulate_with_newlines() {
    let mut st = SupervisorState::begin("header".to_string(), "{}".to_string());
    st.on_line(&"one".to_string());
    st.on_line(&"two".to_string());
    assert!(!st.done);
    let (logs, last) = st.into_parts();
    assert_eq!(logs, "header\none\ntwo");
    assert_eq!(last, "two");
}

#[test]
fn log_overflow_terminates() {
    // a child emitting 60,000 one-character lines crosses the cap;
    // the run ends with the terminal message at the end of the log
    let mut st = SupervisorState::begin(String::new(), "{}".to_string());
    let mut fed = 0u32;
    for _ in 0..60000 {
        if st.done {
            break;
        }
        st.on_line(&"x".to_string());
        fed += 1;
    }
    assert!(st.done);
    assert!(fed < 60000);
    let (logs, _) = st.into_parts();
    assert!(logs.ends_with(OVERFLOW_MSG));
    assert!(logs.chars().count() <= 2 * MAX_LOG_SIZE + 1 + OVERFLOW_MSG.len());
}

#[test]
fn flush_hands_out_the_new_text_once() {
    let mut st = SupervisorState::begin("old".to_string(), "{}".to_string());
    assert_eq!(st.tick_flush(), "");
    st.on_line(&"fresh".to_string());
    assert_eq!(st.tick_flush(), "\nfresh");
    assert_eq!(st.tick_flush(), "");
}

#[test]
fn external_cancel_ends_the_run() {
    let mut st = SupervisorState::begin(String::new(), "{}".to_string());
    st.observe_cancel(false);
    assert!(!st.done);
    st.observe_cancel(true);
    assert!(st.done);
    // once over, it stays over
    st.observe_cancel(false);
    assert!(st.done);
}

#[test]
fn timeout_decision() {
    // a job started at 0 with a 2 s timeout times out only past 3 s
    assert!(!timeout_exceeded(Some(0), 2999, 2));
    assert!(timeout_exceeded(Some(0), 3000, 2));
    assert!(!timeout_exceeded(None, 1_000_000, 2));
    assert_eq!(timeout_canceled_by(), "timeout");
    assert_eq!(timeout_reason(2), "duration > 2");
    assert_eq!(timeout_reason(3600), "duration > 3600");
}

#[test]
fn successful_result_is_the_last_line() {
    let mut logs = "whatever".to_string();
    let r = interpret_result(&Ok(true), &"42".to_string(), &mut logs);
    assert_eq!(r, Ok("42".to_string()));
    assert_eq!(logs, "whatever");
}

#[test]
fn unparsable_last_line_fails() {
    let mut logs = String::new();
    let r = interpret_result(&Ok(true), &"not json!!".to_string(), &mut logs);
    match r {
        Err(JobError::ExecutionErr(m)) => {
            assert!(m.starts_with("result not json!! is not parsable.\n err: "));
        }
        other => panic!("expected an execution error, got {:?}", other),
    }
}

#[test]
fn failed_exit_carries_last_five_lines() {
    let mut logs = "a\nb\nc\nd\ne\nf\ng".to_string();
    let r = interpret_result(&Ok(false), &"{}".to_string(), &mut logs);
    match r {
        Err(JobError::ExecutionErr(m)) => {
            assert_eq!(
                m,
                "Error during execution of the script\nlast 5 logs lines:\nc\nd\ne\nf\ng"
            );
        }
        other => panic!("expected an execution error, got {:?}", other),
    }
    assert_eq!(logs, "a\nb\nc\nd\ne\nf\ng\n\n--- ERROR ---\n");
}

#[test]
fn short_log_is_reported_whole() {
    let mut logs = "a\nb".to_string();
    let r = interpret_result(&Ok(false), &"{}".to_string(), &mut logs);
    match r {
        Err(JobError::ExecutionErr(m)) => {
            assert_eq!(m, "Error during execution of the script\nlast 5 logs lines:\na\nb");
        }
        other => panic!("expected an execution error, got {:?}", other),
    }
}

#[test]
fn earlier_failure_is_wrapped() {
    let mut logs = "kept".to_string();
    let r = interpret_result(
        &Err(JobError::InternalErr("job not started".to_string())),
        &"{}".to_string(),
        &mut logs,
    );
    match r {
        Err(JobError::ExecutionErr(m)) => {
            assert_eq!(m, "error before termination: job not started");
        }
        other => panic!("expected an execution error, got {:?}", other),
    }
    assert_eq!(logs, "kept");
}

#[test]
fn zombie_rule() {
    // with a 10 s timeout the cutoff is 50 s before now
    let now = 1_000_000i64;
    assert_eq!(zombie_cutoff_ms(now, 10), 950_000);
    assert!(should_restart(Some(949_999), true, now, 10));
    assert!(!should_restart(Some(950_000), true, now, 10));
    assert!(!should_restart(Some(949_999), false, now, 10));
    assert!(!should_restart(None, true, now, 10));
}
