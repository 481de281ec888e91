use commandservice::ingest::ingest_step;
use commandservice::ingest::RETRY_DELAY_MS;
use commandservice::FlowState;
use commandservice::Identity;
use commandservice::IngestAction;
use commandservice::IngestEvent;
use commandservice::LookupOutcome;
use commandservice::ProcessorError;

fn arrival() -> IngestEvent {
    IngestEvent::MessageArrived {
        channel_id: "chan-1".to_string(),
        text: "!ping now".to_string(),
    }
}

fn found() -> LookupOutcome {
    LookupOutcome::Found { user: Identity { channel_id: "chan-1".to_string() } }
}

#[test]
fn a_message_first_asks_for_an_identity_lookup() {
    let (state, action) = ingest_step(FlowState::Waiting, arrival());
    assert!(matches!(state, FlowState::AwaitingFirstLookup { .. }));
    match action {
        IngestAction::LookupIdentity { channel_id } => assert_eq!(channel_id, "chan-1"),
        _ => panic!("expected a lookup"),
    }
}

#[test]
fn identity_unresolved_twice_drops_the_message_without_dispatch() {
    let (state, action) = ingest_step(FlowState::Waiting, arrival());
    assert!(!matches!(action, IngestAction::Dispatch { .. }));

    let (state, action) = ingest_step(
        state,
        IngestEvent::LookupDone { outcome: LookupOutcome::NotFound },
    );
    match action {
        IngestAction::Sleep { millis } => assert_eq!(millis, RETRY_DELAY_MS),
        _ => panic!("expected the retry delay"),
    }
    assert!(matches!(state, FlowState::Sleeping { .. }));

    let (state, action) = ingest_step(state, IngestEvent::SleepDone);
    assert!(matches!(action, IngestAction::LookupIdentity { .. }));
    assert!(matches!(state, FlowState::AwaitingSecondLookup { .. }));

    let (state, action) = ingest_step(
        state,
        IngestEvent::LookupDone { outcome: LookupOutcome::NotFound },
    );
    assert!(matches!(action, IngestAction::LogDebug));
    assert!(matches!(state, FlowState::Waiting));
}

#[test]
fn other_lookup_failures_are_treated_as_not_found() {
    let (state, _) = ingest_step(FlowState::Waiting, arrival());
    let (state, action) = ingest_step(
        state,
        IngestEvent::LookupDone { outcome: LookupOutcome::Failed },
    );
    assert!(matches!(action, IngestAction::Sleep { .. }));
    let (state, _) = ingest_step(state, IngestEvent::SleepDone);
    let (state, action) = ingest_step(
        state,
        IngestEvent::LookupDone { outcome: LookupOutcome::Failed },
    );
    assert!(matches!(action, IngestAction::LogDebug));
    assert!(matches!(state, FlowState::Waiting));
}

#[test]
fn an_identity_found_on_retry_still_dispatches() {
    let (state, _) = ingest_step(FlowState::Waiting, arrival());
    let (state, _) = ingest_step(
        state,
        IngestEvent::LookupDone { outcome: LookupOutcome::NotFound },
    );
    let (state, _) = ingest_step(state, IngestEvent::SleepDone);
    let (state, action) = ingest_step(state, IngestEvent::LookupDone { outcome: found() });
    assert!(matches!(state, FlowState::Dispatching));
    match action {
        IngestAction::Dispatch { message } => {
            assert_eq!(message.command_name, "ping");
            assert_eq!(message.message, "!ping now");
            assert!(message.has_command_info);
            assert_eq!(message.user.channel_id, "chan-1");
        }
        _ => panic!("expected a dispatch"),
    }
}

#[test]
fn text_without_command_syntax_is_discarded_silently() {
    let (state, _) = ingest_step(
        FlowState::Waiting,
        IngestEvent::MessageArrived {
            channel_id: "chan-1".to_string(),
            text: "hello there".to_string(),
        },
    );
    let (state, action) = ingest_step(state, IngestEvent::LookupDone { outcome: found() });
    assert!(matches!(state, FlowState::Waiting));
    assert!(matches!(action, IngestAction::Continue));
}

#[test]
fn dispatch_outcomes_are_classified_for_logging() {
    let (state, action) = ingest_step(
        FlowState::Dispatching,
        IngestEvent::DispatchDone { result: Ok(()) },
    );
    assert!(matches!(state, FlowState::Waiting));
    assert!(matches!(action, IngestAction::Continue));

    let (_, action) = ingest_step(
        FlowState::Dispatching,
        IngestEvent::DispatchDone {
            result: Err(ProcessorError::CommandNotFound { command: "ping".to_string() }),
        },
    );
    assert!(matches!(action, IngestAction::LogDebug));

    let (_, action) = ingest_step(
        FlowState::Dispatching,
        IngestEvent::DispatchDone {
            result: Err(ProcessorError::CommandExecutionFailed {
                command: "ping".to_string(),
                library: "plugin.so".to_string(),
                message: "!ping".to_string(),
            }),
        },
    );
    assert!(matches!(action, IngestAction::LogError));
}
