//! Tests of the invocation engine driven by a scripted fake transport.

use modal_rust::engine::invoke;
use modal_rust::engine::step;
use modal_rust::engine::EngineAction;
use modal_rust::engine::EngineEvent;
use modal_rust::engine::EngineState;
use modal_rust::engine::InvocationError;
use modal_rust::engine::ResultEnvelope;

fn success_envelope(data: Vec<u8>) -> ResultEnvelope {
    ResultEnvelope { data: Some(data), data_blob_id: None, exception: String::new(), exitcode: 0 }
}

/// Drives one invocation: the submission answers with `pipelined` echoed
/// inputs, an enqueue (if any) accepts `accepted` inputs, and each poll is
/// answered by the next entry of `poll_script`.  Returns the terminal
/// outcome and the counts of enqueue and poll requests made.
fn drive(
    function_id: &str,
    args: Vec<u8>,
    pipelined: usize,
    accepted: usize,
    mut poll_script: Vec<Option<ResultEnvelope>>,
    blob_url: &str,
    blob_bytes: Vec<u8>,
) -> (Result<Vec<u8>, InvocationError>, u32, u32) {
    poll_script.reverse();
    let (mut state, mut action) = invoke(function_id.to_string(), args);
    let mut enqueues = 0u32;
    let mut polls = 0u32;
    loop {
        let event = match action {
            EngineAction::Submit { .. } => {
                EngineEvent::Submitted { call_id: "call-1".to_string(), pipelined }
            }
            EngineAction::PutInputs { call_id, .. } => {
                assert_eq!(call_id, "call-1");
                enqueues += 1;
                EngineEvent::InputsPut { accepted }
            }
            EngineAction::Poll { call_id, .. } => {
                assert_eq!(call_id, "call-1");
                polls += 1;
                EngineEvent::Polled { output: poll_script.pop().unwrap_or(None) }
            }
            EngineAction::ResolveBlob { .. } => {
                EngineEvent::BlobResolved { url: blob_url.to_string() }
            }
            EngineAction::FetchUrl { url } => {
                assert_eq!(url, blob_url);
                EngineEvent::Fetched { data: blob_bytes.clone() }
            }
            EngineAction::Finish => break,
        };
        let (s, a) = step(state, event);
        state = s;
        action = a;
    }
    match state {
        EngineState::Done { outcome } => (outcome, enqueues, polls),
        _ => panic!("finished in a non-terminal state"),
    }
}

#[test]
fn submit_carries_the_single_input_item() {
    let (_, action) = invoke("f-9".to_string(), vec![4, 5]);
    match action {
        EngineAction::Submit { function_id, input } => {
            assert_eq!(function_id, "f-9");
            assert_eq!(input.idx, 0);
            assert_eq!(input.args, vec![4, 5]);
            assert!(!input.final_input);
        }
        _ => panic!("first action must be the submission"),
    }
}

#[test]
fn success_after_exactly_n_plus_one_polls() {
    let n: usize = 3;
    let mut script: Vec<Option<ResultEnvelope>> = vec![None; n];
    script.push(Some(success_envelope(vec![9, 9])));
    let (outcome, enqueues, polls) = drive("f", vec![1], 1, 0, script, "", vec![]);
    assert_eq!(outcome.unwrap(), vec![9, 9]);
    assert_eq!(enqueues, 0);
    assert_eq!(polls, n as u32 + 1);
}

#[test]
fn immediate_success_after_one_poll() {
    let script = vec![Some(success_envelope(vec![7]))];
    let (outcome, _, polls) = drive("f", vec![1], 1, 0, script, "", vec![]);
    assert_eq!(outcome.unwrap(), vec![7]);
    assert_eq!(polls, 1);
}

#[test]
fn timeout_after_sixty_empty_polls() {
    let script: Vec<Option<ResultEnvelope>> = Vec::new();
    let (outcome, _, polls) = drive("f", vec![1], 1, 0, script, "", vec![]);
    assert!(matches!(outcome, Err(InvocationError::Timeout)));
    assert_eq!(polls, 60);
}

#[test]
fn success_on_the_sixtieth_poll_is_still_in_time() {
    let n: usize = 59;
    let mut script: Vec<Option<ResultEnvelope>> = vec![None; n];
    script.push(Some(success_envelope(vec![1])));
    let (outcome, _, polls) = drive("f", vec![1], 1, 0, script, "", vec![]);
    assert_eq!(outcome.unwrap(), vec![1]);
    assert_eq!(polls, 60);
}

#[test]
fn blob_fallback_returns_fetched_bytes() {
    let envelope = ResultEnvelope {
        data: None,
        data_blob_id: Some("blob-7".to_string()),
        exception: String::new(),
        exitcode: 0,
    };
    let script = vec![Some(envelope)];
    let (outcome, _, polls) =
        drive("f", vec![1], 1, 0, script, "https://blobs.example/dl/7", vec![42, 43]);
    assert_eq!(outcome.unwrap(), vec![42, 43]);
    assert_eq!(polls, 1);
}

#[test]
fn blob_resolve_receives_the_blob_id() {
    let (state, _) = invoke("f".to_string(), vec![]);
    let (state, _) = step(
        state,
        EngineEvent::Submitted { call_id: "c".to_string(), pipelined: 1 },
    );
    let envelope = ResultEnvelope {
        data: None,
        data_blob_id: Some("blob-7".to_string()),
        exception: String::new(),
        exitcode: 0,
    };
    let (_, action) = step(state, EngineEvent::Polled { output: Some(envelope) });
    match action {
        EngineAction::ResolveBlob { blob_id } => assert_eq!(blob_id, "blob-7"),
        _ => panic!("expected the blob-metadata lookup"),
    }
}

#[test]
fn remote_exception_carries_the_text() {
    let envelope = ResultEnvelope {
        data: None,
        data_blob_id: None,
        exception: "division by zero".to_string(),
        exitcode: 0,
    };
    let script = vec![Some(envelope)];
    let (outcome, _, _) = drive("f", vec![1], 1, 0, script, "", vec![]);
    match outcome {
        Err(InvocationError::RemoteException(text)) => assert_eq!(text, "division by zero"),
        _ => panic!("expected the remote-exception error"),
    }
}

#[test]
fn remote_exit_code_carries_the_code() {
    let envelope = ResultEnvelope {
        data: None,
        data_blob_id: None,
        exception: String::new(),
        exitcode: 137,
    };
    let script = vec![Some(envelope)];
    let (outcome, _, _) = drive("f", vec![1], 1, 0, script, "", vec![]);
    match outcome {
        Err(InvocationError::RemoteExitCode(code)) => assert_eq!(code, 137),
        _ => panic!("expected the remote-exit-code error"),
    }
}

#[test]
fn exception_beats_exit_code() {
    let envelope = ResultEnvelope {
        data: None,
        data_blob_id: None,
        exception: "boom".to_string(),
        exitcode: 5,
    };
    let script = vec![Some(envelope)];
    let (outcome, _, _) = drive("f", vec![1], 1, 0, script, "", vec![]);
    assert!(matches!(outcome, Err(InvocationError::RemoteException(_))));
}

#[test]
fn indeterminate_envelope_counts_as_an_empty_poll() {
    let envelope = ResultEnvelope {
        data: None,
        data_blob_id: None,
        exception: String::new(),
        exitcode: 0,
    };
    let script = vec![Some(envelope), Some(success_envelope(vec![1]))];
    let (outcome, _, polls) = drive("f", vec![1], 1, 0, script, "", vec![]);
    assert_eq!(outcome.unwrap(), vec![1]);
    assert_eq!(polls, 2);
}

#[test]
fn empty_echo_issues_exactly_one_enqueue() {
    let script = vec![Some(success_envelope(vec![8]))];
    let (outcome, enqueues, polls) = drive("f", vec![1], 0, 1, script, "", vec![]);
    assert_eq!(outcome.unwrap(), vec![8]);
    assert_eq!(enqueues, 1);
    assert_eq!(polls, 1);
}

#[test]
fn queue_full_fails_without_ever_polling() {
    let script: Vec<Option<ResultEnvelope>> = Vec::new();
    let (outcome, enqueues, polls) = drive("f", vec![1], 0, 0, script, "", vec![]);
    assert!(matches!(outcome, Err(InvocationError::QueueFull)));
    assert_eq!(enqueues, 1);
    assert_eq!(polls, 0);
}

#[test]
fn enqueue_resends_the_same_input_item() {
    let (state, _) = invoke("f-2".to_string(), vec![6, 7]);
    let (_, action) = step(
        state,
        EngineEvent::Submitted { call_id: "c-2".to_string(), pipelined: 0 },
    );
    match action {
        EngineAction::PutInputs { function_id, call_id, input } => {
            assert_eq!(function_id, "f-2");
            assert_eq!(call_id, "c-2");
            assert_eq!(input.idx, 0);
            assert_eq!(input.args, vec![6, 7]);
        }
        _ => panic!("expected the explicit enqueue"),
    }
}
