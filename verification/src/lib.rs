//! Plugin-extensible command dispatcher for a live-chat bot.
//!
//! The core verified here: the plugin ABI version gate, the per-library
//! command registry with its alias model, the dispatch path over the global
//! table, the best-effort unload protocol, the message-ingestion decision
//! machine with its identity-resolution retry policy, and the read-only
//! introspection surface.
//!
//! Native library handling, the chat stream, and the remote transport are
//! left to an embedder; this crate works on the plain values those hand it.

use vstd::prelude::*;

pub mod abi;
pub mod errors;
pub mod ingest;
pub mod laws;
pub mod message;
pub mod processor;
pub mod registry;
pub mod server;

pub use abi::PluginDescriptor;
pub use errors::ProcessorError;
pub use ingest::FlowState;
pub use ingest::IngestAction;
pub use ingest::IngestEvent;
pub use ingest::LookupOutcome;
pub use message::Identity;
pub use message::Message;
pub use processor::CommandProcessor;
pub use processor::Invocation;
pub use processor::LibrarySlot;
pub use processor::UnloadOutcome;
pub use registry::CommandProxy;
pub use registry::CommandRegistrar;
pub use server::CommandInfo;
pub use server::CommandList;
pub use server::CommandServiceServer;

verus! {

/// Version strings the host was built with; a plugin must match both exactly
/// before any of its exported symbols are trusted.
pub struct HostVersions {
    pub runtime_version: String,
    pub core_version: String,
}

/// Equality of two string slices by their character sequences.
pub fn str_eq(a: &str, b: &str) -> (r: bool)
    ensures
        r == (a@ == b@),
{
    a.to_owned() == b.to_owned()
}

} // verus!
