//! The plugin ABI contract and its version gate.
//!
//! A plugin exports a fixed-layout descriptor naming the compiler/runtime it
//! was built with and the host-interface version it was built against.  Both
//! must equal the host's own build-time values, by exact string comparison,
//! before any other exported symbol of the plugin may be trusted: plugin
//! code depends on the exact in-memory layout of shared types and on the
//! calling convention, so a semantic range check would be unsafe.

use vstd::prelude::*;
use crate::errors::ProcessorError;
use crate::str_eq;
use crate::HostVersions;

verus! {

/// The plain values of a plugin's exported descriptor, as read once at load
/// time: its compiler/runtime version string and its host-interface version
/// string.  The registration entry point the descriptor also carries stays
/// with the embedder; it is only ever invoked once this check admits the
/// plugin.
pub struct PluginDescriptor {
    pub rustc_version: String,
    pub core_version: String,
}

/// Both version strings of the descriptor equal the host's own.
pub open spec fn abi_matches(host: HostVersions, decl: PluginDescriptor) -> bool {
    decl.rustc_version@ == host.runtime_version@ && decl.core_version@ == host.core_version@
}

/// What a rejected plugin is answered: a mismatched compiler/runtime
/// version is classified first; a plugin right on that count but wrong on
/// the host-interface version is classified second.  Either way the error
/// names the library, the value the host expected, and the value the
/// plugin declared.
pub open spec fn gate_error_for(
    host: HostVersions,
    decl: PluginDescriptor,
    library_name: Seq<char>,
    e: ProcessorError,
) -> bool {
    if decl.rustc_version@ != host.runtime_version@ {
        e matches ProcessorError::LibraryRustCVersionMismatch {
            library_name: l,
            rustc_version: expected,
            actual_rustc_version: actual,
        } && l@ == library_name && expected@ == host.runtime_version@ && actual@
            == decl.rustc_version@
    } else {
        e matches ProcessorError::LibraryCoreVersionMismatch {
            library_name: l,
            core_version: expected,
            actual_core_version: actual,
        } && l@ == library_name && expected@ == host.core_version@ && actual@
            == decl.core_version@
    }
}

/// The version gate: Ok exactly when both strings match, and otherwise
/// the classified mismatch, naming the library and both the expected and
/// the actual value.
pub fn check_abi(library_name: &str, host: &HostVersions, decl: &PluginDescriptor) -> (r: Result<
    (),
    ProcessorError,
>)
    ensures
        r is Ok <==> abi_matches(*host, *decl),
        r matches Err(e) ==> gate_error_for(*host, *decl, library_name@, e),
{
    if !str_eq(decl.rustc_version.as_str(), host.runtime_version.as_str()) {
        return Err(
            ProcessorError::LibraryRustCVersionMismatch {
                library_name: library_name.to_owned(),
                rustc_version: host.runtime_version.clone(),
                actual_rustc_version: decl.rustc_version.clone(),
            },
        );
    }
    if !str_eq(decl.core_version.as_str(), host.core_version.as_str()) {
        return Err(
            ProcessorError::LibraryCoreVersionMismatch {
                library_name: library_name.to_owned(),
                core_version: host.core_version.clone(),
                actual_core_version: decl.core_version.clone(),
            },
        );
    }
    Ok(())
}

} // verus!
