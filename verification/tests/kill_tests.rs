use process_manager::kill::{
    await_exit, confirm_step, dispatch_outcome, force_kill_process_by_id, graceful_outcome,
    is_still_present, kill_error_message, observe_process, parse_process_id, send_kill_signal,
    try_kill_process_by_id, KillError, KillRequest, KillTicket, WaitStep, CONFIRM_POLL_MS,
    CONFIRM_TIMEOUT_MS,
};

fn own_pid() -> u32 {
    sysinfo::get_current_pid().unwrap().as_u32()
}

fn pause(millis: u64) {
    let rt = tokio::runtime::Builder::new_current_thread()
        .enable_time()
        .build()
        .unwrap();
    rt.block_on(async { tokio::time::sleep(std::time::Duration::from_millis(millis)).await });
}

fn message(r: Result<bool, KillError>, id: &str) -> Result<bool, String> {
    r.map_err(|e| kill_error_message(&e, id, KillRequest::Graceful))
}

#[test]
fn test_try_kill_process_by_id() {
    // Test process ID verification
    let verification_result = message(try_kill_process_by_id("invalid_process"), "invalid_process");
    assert!(verification_result.is_err());
    assert!(verification_result
        .unwrap_err()
        .contains("Invalid process ID (invalid_process) format:"));
}

#[test]
fn test_force_kill_process_by_id() {
    // Test process ID verification
    let verification_result = message(try_kill_process_by_id("invalid_process"), "invalid_process");
    assert!(verification_result.is_err());
    assert!(verification_result
        .unwrap_err()
        .contains("Invalid process ID (invalid_process) format:"));
}

#[test]
fn a_process_that_has_gone_is_confirmed_at_once() {
    let ticket = KillTicket { pid: 2147483646, start_time: 1 };
    let slept = std::cell::Cell::new(0u64);
    assert_eq!(await_exit(&ticket, |ms| slept.set(slept.get() + ms)), Ok(()));
    assert_eq!(slept.get(), 0);
}

#[test]
fn a_process_of_another_start_time_counts_as_gone() {
    let me = own_pid();
    let start = observe_process(me).unwrap();
    let ticket = KillTicket { pid: me, start_time: start + 1 };
    assert_eq!(await_exit(&ticket, pause), Ok(()));
}

#[test]
fn a_process_that_stays_is_given_up_on() {
    let me = own_pid();
    let start = observe_process(me).unwrap();
    let ticket = KillTicket { pid: me, start_time: start };
    assert!(is_still_present(&ticket, observe_process(me)));
    let slept = std::cell::Cell::new(0u64);
    let r = await_exit(&ticket, |ms| slept.set(slept.get() + ms));
    assert_eq!(r, Err(KillError::TimedOut));
    assert_eq!(slept.get(), 3000);
}

#[test]
fn an_identifier_is_read_as_a_number() {
    assert_eq!(parse_process_id("1234"), Ok(1234));
    assert_eq!(parse_process_id("0"), Ok(0));
    assert_eq!(parse_process_id("2147483647"), Ok(2147483647));
    assert_eq!(
        parse_process_id(&process_manager::format::decimal_string(4194304)),
        Ok(4194304)
    );
    assert!(matches!(parse_process_id(""), Err(KillError::InvalidId { .. })));
    assert!(matches!(parse_process_id("12a"), Err(KillError::InvalidId { .. })));
    assert!(matches!(parse_process_id(" 12"), Err(KillError::InvalidId { .. })));
    assert!(matches!(
        parse_process_id("99999999999999999999999"),
        Err(KillError::InvalidId { .. })
    ));
}

#[test]
fn a_malformed_identifier_is_refused() {
    assert!(matches!(
        try_kill_process_by_id("invalid_process"),
        Err(KillError::InvalidId { .. })
    ));
    assert!(matches!(
        force_kill_process_by_id("invalid_process", pause),
        Err(KillError::InvalidId { .. })
    ));
    assert!(matches!(
        send_kill_signal("12 34"),
        Err(KillError::InvalidId { .. })
    ));
}

#[test]
fn a_process_that_is_not_there_is_not_found() {
    let id = "2147483646";
    assert_eq!(try_kill_process_by_id(id), Err(KillError::NotFound));
    assert_eq!(force_kill_process_by_id(id, pause), Err(KillError::NotFound));
    assert_eq!(observe_process(2147483646), None);
}

#[test]
fn the_answer_of_the_host_decides_a_graceful_request() {
    assert_eq!(graceful_outcome(None), Err(KillError::NotFound));
    assert_eq!(graceful_outcome(Some(None)), Err(KillError::SignalUnsupported));
    assert_eq!(graceful_outcome(Some(Some(true))), Ok(true));
    assert_eq!(graceful_outcome(Some(Some(false))), Ok(false));
}

#[test]
fn the_answer_of_the_host_decides_a_dispatch() {
    assert_eq!(dispatch_outcome(7, None), Err(KillError::NotFound));
    assert_eq!(dispatch_outcome(7, Some((100, false))), Err(KillError::DispatchFailed));
    assert_eq!(
        dispatch_outcome(7, Some((100, true))),
        Ok(KillTicket { pid: 7, start_time: 100 })
    );
}

#[test]
fn another_start_time_is_another_process() {
    let ticket = KillTicket { pid: 7, start_time: 100 };
    assert!(is_still_present(&ticket, Some(100)));
    assert!(!is_still_present(&ticket, Some(101)));
    assert!(!is_still_present(&ticket, None));
}

#[test]
fn the_wait_is_bounded() {
    assert_eq!(CONFIRM_POLL_MS, 200);
    assert_eq!(CONFIRM_TIMEOUT_MS, 3000);
    assert_eq!(confirm_step(0, false), WaitStep::Confirmed);
    assert_eq!(confirm_step(3000, false), WaitStep::Confirmed);
    assert_eq!(confirm_step(0, true), WaitStep::Sleep { millis: 200 });
    assert_eq!(confirm_step(2800, true), WaitStep::Sleep { millis: 200 });
    assert_eq!(confirm_step(2900, true), WaitStep::Sleep { millis: 100 });
    assert_eq!(confirm_step(3000, true), WaitStep::TimedOut);
    assert_eq!(confirm_step(u64::MAX, true), WaitStep::TimedOut);

    let mut waited = 0;
    let mut looks = 0;
    loop {
        looks += 1;
        match confirm_step(waited, true) {
            WaitStep::Sleep { millis } => waited += millis,
            step => {
                assert_eq!(step, WaitStep::TimedOut);
                break;
            }
        }
    }
    assert_eq!(looks, 16);
    assert_eq!(waited, 3000);
}

#[test]
fn each_error_has_its_words() {
    let invalid = KillError::InvalidId { detail: String::from("invalid digit found in string") };
    assert_eq!(
        kill_error_message(&invalid, "x1", KillRequest::Graceful),
        "Invalid process ID (x1) format: invalid digit found in string"
    );
    assert_eq!(
        kill_error_message(&invalid, "x1", KillRequest::Forceful),
        "Invalid process ID (x1) format: invalid digit found in string"
    );
    assert_eq!(
        kill_error_message(&KillError::NotFound, "42", KillRequest::Graceful),
        "Process with Pid 42 not found."
    );
    assert_eq!(
        kill_error_message(&KillError::NotFound, "42", KillRequest::Forceful),
        "Process with ID 42 not found."
    );
    assert_eq!(
        kill_error_message(&KillError::SignalUnsupported, "42", KillRequest::Graceful),
        "Graceful termination of process 42 failed. SIGTERM not supported."
    );
    assert_eq!(
        kill_error_message(&KillError::DispatchFailed, "42", KillRequest::Forceful),
        "Failed to send KILL signal to process 42."
    );
    assert_eq!(
        kill_error_message(&KillError::TimedOut, "42", KillRequest::Forceful),
        "Timed out waiting for process 42 to terminate."
    );
}
