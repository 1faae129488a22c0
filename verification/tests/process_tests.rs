use latex_preview::process::{poll_decision, PollDecision, COMPILE_TIMEOUT_SECS, PROCESS_POLL_INTERVAL_MS};

#[test]
fn test_poll_collects_child_that_exits_in_time() {
    assert_eq!(poll_decision(500, 1000, true), PollDecision::Collect);
}

#[test]
fn test_poll_waits_while_child_runs_in_time() {
    assert_eq!(poll_decision(500, 1000, false), PollDecision::WaitMore);
}

#[test]
fn test_poll_kills_after_timeout() {
    // a command engineered to outlive a 1-second timeout is killed at
    // the first poll past the deadline, never waited on further
    assert_eq!(poll_decision(1000, 1000, false), PollDecision::KillAndReport);
    assert_eq!(poll_decision(1100, 1000, false), PollDecision::KillAndReport);
    assert_eq!(poll_decision(5000, 1000, false), PollDecision::KillAndReport);
    assert_eq!(poll_decision(5000, 1000, true), PollDecision::KillAndReport);
}

#[test]
fn test_poll_margin_within_twice_timeout() {
    // with a 1-second timeout and the fixed interval, the kill lands
    // on a tick below twice the timeout
    let timeout_ms: u64 = 1000;
    let mut elapsed: u64 = 0;
    while poll_decision(elapsed, timeout_ms, false) == PollDecision::WaitMore {
        elapsed += PROCESS_POLL_INTERVAL_MS;
    }
    assert_eq!(poll_decision(elapsed, timeout_ms, false), PollDecision::KillAndReport);
    assert!(elapsed < 2 * timeout_ms);
}

#[test]
fn test_compile_timeout_is_thirty_seconds() {
    assert_eq!(COMPILE_TIMEOUT_SECS, 30);
}

/// Follows the verified poll policy on a real child process: spawn,
/// observe, and do what `poll_decision` says until it ends the loop.
fn run_bounded(program: &str, args: &[&str], timeout_ms: u64) -> (bool, u64) {
    let runtime = tokio::runtime::Runtime::new().expect("runtime");
    runtime.block_on(async {
        let start = std::time::Instant::now();
        let mut child = tokio::process::Command::new(program)
            .args(args)
            .spawn()
            .expect("spawn");
        loop {
            let elapsed_ms = start.elapsed().as_millis() as u64;
            let exited = child.try_wait().expect("try_wait").is_some();
            match poll_decision(elapsed_ms, timeout_ms, exited) {
                PollDecision::Collect => {
                    return (false, start.elapsed().as_millis() as u64);
                }
                PollDecision::KillAndReport => {
                    let _ = child.kill().await;
                    let _ = child.wait().await;
                    return (true, start.elapsed().as_millis() as u64);
                }
                PollDecision::WaitMore => {
                    tokio::time::sleep(std::time::Duration::from_millis(
                        PROCESS_POLL_INTERVAL_MS,
                    ))
                    .await;
                }
            }
        }
    })
}

#[test]
fn test_overlong_command_is_killed_within_margin() {
    // a command engineered to run five times longer than the
    // 1-second timeout is terminated, within twice the timeout
    let (timed_out, elapsed_ms) = run_bounded("sleep", &["5"], 1000);
    assert!(timed_out);
    assert!(elapsed_ms < 2000);
}

#[test]
fn test_prompt_command_is_collected() {
    let (timed_out, _) = run_bounded("true", &[], 1000);
    assert!(!timed_out);
}
