//! The message-ingestion decision machine.
//!
//! The embedder runs one long-lived loop over the chat stream: it performs
//! the outside work — pulling a record, querying the directory service,
//! sleeping, invoking dispatch — and feeds each completion back here as an
//! event.  This machine holds every decision of that loop: when to resolve
//! an identity, when to wait and retry, when to drop a message, when to
//! dispatch it, and how to classify a dispatch outcome.
//!
//! The retry policy: a lookup answered "not found" is retried exactly once,
//! after a fixed short delay — identity provisioning is assumed to lag
//! message delivery by at most one such interval — and any other lookup
//! failure is treated the same way.  A message still unresolved after the
//! retry is dropped with a debug log; one whose text does not match command
//! syntax is discarded silently; a dispatch answering CommandNotFound is
//! demoted to a debug log; any other dispatch error is logged at error
//! severity.  Nothing stops the loop.

use vstd::prelude::*;
use crate::errors::ProcessorError;
use crate::message::is_command_text;
use crate::message::spec_command_name;
use crate::message::Identity;
use crate::message::Message;

verus! {

/// How long to wait before the single identity-lookup retry, in
/// milliseconds.
pub const RETRY_DELAY_MS: u64 = 100;

/// What the directory service answered for one channel id.  Any failure
/// classification other than "not found" is carried as Failed and treated
/// as not-found for retry purposes.
pub enum LookupOutcome {
    Found { user: Identity },
    NotFound,
    Failed,
}

/// Where one inbound message stands in its flow.
pub enum FlowState {
    Waiting,
    AwaitingFirstLookup { channel_id: String, text: String },
    Sleeping { channel_id: String, text: String },
    AwaitingSecondLookup { channel_id: String, text: String },
    Dispatching,
}

/// A completion of outside work, fed back by the embedder.
pub enum IngestEvent {
    MessageArrived { channel_id: String, text: String },
    LookupDone { outcome: LookupOutcome },
    SleepDone,
    DispatchDone { result: Result<(), ProcessorError> },
}

/// The next piece of outside work the embedder must perform.
pub enum IngestAction {
    LookupIdentity { channel_id: String },
    Sleep { millis: u64 },
    Dispatch { message: Message },
    LogDebug,
    LogError,
    Continue,
}

/// What a resolved message leads to: dispatch when its text matches command
/// syntax, a silent discard — no dispatch, no log — when it does not.
pub open spec fn dispatch_or_skip(
    user: Identity,
    text: String,
    post: FlowState,
    action: IngestAction,
) -> bool {
    if is_command_text(text@) {
        &&& post == FlowState::Dispatching
        &&& action matches IngestAction::Dispatch { message } && message.user == user
            && message.message@ == text@ && message.has_command_info && message.command_name@
            == spec_command_name(text@)
    } else {
        post == FlowState::Waiting && action == IngestAction::Continue
    }
}

/// The machine's transition relation: from a state and an event to the next
/// state and the action owed.  An event that does not belong to the state
/// resets the flow and asks nothing of the embedder.
pub open spec fn step_rel(
    pre: FlowState,
    event: IngestEvent,
    post: FlowState,
    action: IngestAction,
) -> bool {
    match (pre, event) {
        (FlowState::Waiting, IngestEvent::MessageArrived { channel_id, text }) => {
            &&& post matches FlowState::AwaitingFirstLookup { channel_id: c, text: t } && c@
                == channel_id@ && t@ == text@
            &&& action matches IngestAction::LookupIdentity { channel_id: c } && c@ == channel_id@
        },
        (
            FlowState::AwaitingFirstLookup { channel_id, text },
            IngestEvent::LookupDone { outcome },
        ) => {
            match outcome {
                LookupOutcome::Found { user } => dispatch_or_skip(user, text, post, action),
                _ => {
                    &&& post matches FlowState::Sleeping { channel_id: c, text: t } && c@
                        == channel_id@ && t@ == text@
                    &&& action matches IngestAction::Sleep { millis } && millis == RETRY_DELAY_MS
                },
            }
        },
        (FlowState::Sleeping { channel_id, text }, IngestEvent::SleepDone) => {
            &&& post matches FlowState::AwaitingSecondLookup { channel_id: c, text: t } && c@
                == channel_id@ && t@ == text@
            &&& action matches IngestAction::LookupIdentity { channel_id: c } && c@ == channel_id@
        },
        (
            FlowState::AwaitingSecondLookup { channel_id, text },
            IngestEvent::LookupDone { outcome },
        ) => {
            match outcome {
                LookupOutcome::Found { user } => dispatch_or_skip(user, text, post, action),
                _ => post == FlowState::Waiting && action == IngestAction::LogDebug,
            }
        },
        (FlowState::Dispatching, IngestEvent::DispatchDone { result }) => {
            match result {
                Ok(_) => post == FlowState::Waiting && action == IngestAction::Continue,
                Err(ProcessorError::CommandNotFound { .. }) => post == FlowState::Waiting && action
                    == IngestAction::LogDebug,
                Err(_) => post == FlowState::Waiting && action == IngestAction::LogError,
            }
        },
        _ => post == FlowState::Waiting && action == IngestAction::Continue,
    }
}

/// Build the message a resolved sender's text leads to, and decide between
/// dispatching it and discarding it silently.
fn resolved_step(user: Identity, text: String) -> (r: (FlowState, IngestAction))
    ensures
        dispatch_or_skip(user, text, r.0, r.1),
{
    let m = Message::new(user, text);
    if m.has_command_info {
        (FlowState::Dispatching, IngestAction::Dispatch { message: m })
    } else {
        (FlowState::Waiting, IngestAction::Continue)
    }
}

/// One step of the ingestion loop: consume the event, move to the next
/// state, and name the outside work the embedder owes.
pub fn ingest_step(state: FlowState, event: IngestEvent) -> (r: (FlowState, IngestAction))
    ensures
        step_rel(state, event, r.0, r.1),
{
    match (state, event) {
        (FlowState::Waiting, IngestEvent::MessageArrived { channel_id, text }) => {
            let target = channel_id.clone();
            (
                FlowState::AwaitingFirstLookup { channel_id, text },
                IngestAction::LookupIdentity { channel_id: target },
            )
        },
        (
            FlowState::AwaitingFirstLookup { channel_id, text },
            IngestEvent::LookupDone { outcome },
        ) => {
            match outcome {
                LookupOutcome::Found { user } => resolved_step(user, text),
                _ => (
                    FlowState::Sleeping { channel_id, text },
                    IngestAction::Sleep { millis: RETRY_DELAY_MS },
                ),
            }
        },
        (FlowState::Sleeping { channel_id, text }, IngestEvent::SleepDone) => {
            let target = channel_id.clone();
            (
                FlowState::AwaitingSecondLookup { channel_id, text },
                IngestAction::LookupIdentity { channel_id: target },
            )
        },
        (
            FlowState::AwaitingSecondLookup { channel_id, text },
            IngestEvent::LookupDone { outcome },
        ) => {
            match outcome {
                LookupOutcome::Found { user } => resolved_step(user, text),
                _ => (FlowState::Waiting, IngestAction::LogDebug),
            }
        },
        (FlowState::Dispatching, IngestEvent::DispatchDone { result }) => {
            match result {
                Ok(_) => (FlowState::Waiting, IngestAction::Continue),
                Err(e) => {
                    match e {
                        ProcessorError::CommandNotFound { .. } => (
                            FlowState::Waiting,
                            IngestAction::LogDebug,
                        ),
                        _ => (FlowState::Waiting, IngestAction::LogError),
                    }
                },
            }
        },
        _ => (FlowState::Waiting, IngestAction::Continue),
    }
}

} // verus!
