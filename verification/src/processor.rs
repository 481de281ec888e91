//! The global table of loaded libraries, the dispatch path, and the
//! best-effort unload protocol.
//!
//! The table maps library file names to their registries, in load order.
//! Dispatch searches the registries in that order and serves the first entry
//! bearing the requested name, so when two libraries register the same
//! name, the earlier-loaded library wins, every time.
//!
//! Native code must stay mapped exactly as long as something can call into
//! it.  Each slot therefore counts the holders of its library beyond the
//! table itself — one per invocation in flight — and `unload` reclaims a
//! library only when that count is zero, leaving the commands of a library
//! still in use fully reachable.

use vstd::prelude::*;
use vstd::pervasive::VecAdditionalExecFns;
use crate::abi::abi_matches;
use crate::abi::check_abi;
use crate::abi::gate_error_for;
use crate::abi::PluginDescriptor;
use crate::errors::ProcessorError;
use crate::message::Message;
use crate::registry::lookup;
use crate::registry::CommandProxy;
use crate::registry::CommandRegistrar;
use crate::str_eq;
use crate::HostVersions;

verus! {

/// One loaded library: its registry, and the count of holders of the native
/// mapping beyond the table — the invocations currently in flight.
pub struct LibrarySlot {
    pub registrar: CommandRegistrar,
    pub holds: u64,
}

/// The process-wide dispatcher state: the host's own version strings and
/// the table of loaded libraries, in load order.
pub struct CommandProcessor {
    pub host: HostVersions,
    pub libraries: Vec<LibrarySlot>,
}

/// A dispatch in flight: the implementation handle to invoke and the values
/// a failure report needs.  Holding one keeps the owning library loaded;
/// `finish_call` gives the hold back.
pub struct Invocation {
    pub command: u64,
    pub command_name: String,
    pub library: String,
    pub raw_message: String,
}

/// What an unload attempt did to the table.  A failure to close the native
/// mapping afterwards is the embedder's to log; the commands are gone from
/// the table either way.
#[derive(Clone, Copy, PartialEq, Eq, Structural, Debug)]
pub enum UnloadOutcome {
    NotLoaded,
    StillInUse,
    Removed,
}

/// Library file names are unique in the table, and every registry is
/// well-formed.
pub open spec fn libs_wf(libs: Seq<LibrarySlot>) -> bool {
    &&& forall|i: int, j: int|
        #![trigger libs[i], libs[j]]
        0 <= i < j < libs.len() ==> libs[i].registrar.library_name@
            != libs[j].registrar.library_name@
    &&& forall|i: int| 0 <= i < libs.len() ==> (#[trigger] libs[i]).registrar.wf()
}

/// Position of the slot for the named library at or after `i`, or -1.
pub open spec fn lib_index_from(libs: Seq<LibrarySlot>, lib_name: Seq<char>, i: int) -> int
    decreases libs.len() - i,
{
    if i < 0 || i >= libs.len() {
        -1
    } else if libs[i].registrar.library_name@ == lib_name {
        i
    } else {
        lib_index_from(libs, lib_name, i + 1)
    }
}

/// Position of the slot for the named library, or -1 when none is loaded.
pub open spec fn lib_index(libs: Seq<LibrarySlot>, lib_name: Seq<char>) -> int {
    lib_index_from(libs, lib_name, 0)
}

/// First library at or after `i` whose registry serves `name`, with the
/// entry it serves.
pub open spec fn resolve_from(libs: Seq<LibrarySlot>, name: Seq<char>, i: int) -> Option<
    (int, CommandProxy),
>
    decreases libs.len() - i,
{
    if i < 0 || i >= libs.len() {
        None
    } else {
        match lookup(libs[i].registrar.commands@, name) {
            Some(e) => Some((i, e)),
            None => resolve_from(libs, name, i + 1),
        }
    }
}

/// The entry dispatch serves for `name`: the first match in load order.
pub open spec fn resolve(libs: Seq<LibrarySlot>, name: Seq<char>) -> Option<(int, CommandProxy)> {
    resolve_from(libs, name, 0)
}

/// A search that passes only libraries of other names gives the same answer
/// wherever it starts within the passed-over range.
pub proof fn lemma_lib_index_skip(libs: Seq<LibrarySlot>, lib_name: Seq<char>, i: int, k: int)
    requires
        0 <= i <= k <= libs.len(),
        forall|j: int| i <= j < k ==> (#[trigger] libs[j]).registrar.library_name@ != lib_name,
    ensures
        lib_index_from(libs, lib_name, i) == lib_index_from(libs, lib_name, k),
    decreases k - i,
{
    if i < k {
        lemma_lib_index_skip(libs, lib_name, i + 1, k);
    }
}

/// A dispatch search that passes only libraries without the name gives the
/// same answer wherever it starts within the passed-over range.
pub proof fn lemma_resolve_skip(libs: Seq<LibrarySlot>, name: Seq<char>, i: int, k: int)
    requires
        0 <= i <= k <= libs.len(),
        forall|j: int|
            i <= j < k ==> lookup((#[trigger] libs[j]).registrar.commands@, name) is None,
    ensures
        resolve_from(libs, name, i) == resolve_from(libs, name, k),
    decreases k - i,
{
    if i < k {
        lemma_resolve_skip(libs, name, i + 1, k);
    }
}

/// Resolution reads nothing but the registries: two tables whose slots hold
/// the same registries resolve every name alike, whatever holds are out.
pub proof fn lemma_resolve_same_registrars(
    a: Seq<LibrarySlot>,
    b: Seq<LibrarySlot>,
    name: Seq<char>,
    i: int,
)
    requires
        a.len() == b.len(),
        forall|j: int| 0 <= j < a.len() ==> (#[trigger] b[j]).registrar == a[j].registrar,
        0 <= i,
    ensures
        resolve_from(a, name, i) == resolve_from(b, name, i),
    decreases a.len() - i,
{
    if i < a.len() {
        lemma_resolve_same_registrars(a, b, name, i + 1);
    }
}

/// Well-formedness too reads nothing but the registries.
pub proof fn lemma_same_registrars_wf(a: Seq<LibrarySlot>, b: Seq<LibrarySlot>)
    requires
        a.len() == b.len(),
        forall|j: int| 0 <= j < a.len() ==> (#[trigger] b[j]).registrar == a[j].registrar,
        libs_wf(a),
    ensures
        libs_wf(b),
{
}

impl CommandProcessor {
    pub open spec fn wf(self) -> bool {
        libs_wf(self.libraries@)
    }

    /// A dispatcher with an empty table, bound to the host's own version
    /// strings.
    pub fn new(host: HostVersions) -> (r: CommandProcessor)
        ensures
            r.host == host,
            r.libraries@ == Seq::<LibrarySlot>::empty(),
            r.wf(),
    {
        CommandProcessor { host, libraries: Vec::new() }
    }

    /// The load-time ABI gate: admit a candidate plugin's descriptor, or
    /// classify the mismatch.  On success the caller receives the empty
    /// registrar to drive the plugin's registration entry point with; a
    /// rejected plugin never receives a registrar, so none of its commands
    /// can become reachable.
    pub fn begin_load(&self, library_name: &str, descriptor: &PluginDescriptor) -> (r: Result<
        CommandRegistrar,
        ProcessorError,
    >)
        ensures
            r is Ok <==> abi_matches(self.host, *descriptor),
            r matches Ok(reg) ==> reg.library_name@ == library_name@ && reg.commands@
                == Seq::<CommandProxy>::empty() && reg.wf(),
            r matches Err(e) ==> gate_error_for(self.host, *descriptor, library_name@, e),
    {
        match check_abi(library_name, &self.host, descriptor) {
            Ok(()) => Ok(CommandRegistrar::new(library_name.to_owned())),
            Err(e) => Err(e),
        }
    }

    /// Publish a populated registry in the table under its library's file
    /// name, overwriting any prior entry of that name; a fresh load starts
    /// with no holders beyond the table.
    pub fn finish_load(&mut self, registrar: CommandRegistrar)
        requires
            old(self).wf(),
            registrar.wf(),
        ensures
            final(self).host == old(self).host,
            final(self).wf(),
            ({
                let i = lib_index(old(self).libraries@, registrar.library_name@);
                if i >= 0 {
                    final(self).libraries@ == old(self).libraries@.update(
                        i,
                        (LibrarySlot { registrar, holds: 0u64 }),
                    )
                } else {
                    final(self).libraries@ == old(self).libraries@.push(
                        (LibrarySlot { registrar, holds: 0u64 }),
                    )
                }
            }),
    {
        let ghost libs0 = self.libraries@;
        let ghost lname = registrar.library_name@;
        let mut l: usize = 0;
        while l < self.libraries.len()
            invariant
                *self == *old(self),
                old(self).wf(),
                libs0 == self.libraries@,
                0 <= l <= libs0.len(),
                lname == registrar.library_name@,
                registrar.wf(),
                forall|j: int|
                    0 <= j < l ==> (#[trigger] libs0[j]).registrar.library_name@ != lname,
            decreases libs0.len() - l,
        {
            if str_eq(self.libraries[l].registrar.library_name.as_str(),
                registrar.library_name.as_str()) {
                proof {
                    lemma_lib_index_skip(libs0, lname, 0, l as int);
                }
                self.libraries.set(l, LibrarySlot { registrar, holds: 0u64 });
                proof {
                    let s1 = self.libraries@;
                    assert forall|a: int, b: int|
                        #![trigger s1[a], s1[b]]
                        0 <= a < b < s1.len() implies s1[a].registrar.library_name@
                        != s1[b].registrar.library_name@ by {
                        if a != l as int {
                            assert(s1[a] == libs0[a]);
                        }
                        if b != l as int {
                            assert(s1[b] == libs0[b]);
                        }
                        assert(libs0[l as int].registrar.library_name@ == lname);
                    }
                    assert forall|a: int| 0 <= a < s1.len() implies (#[trigger] s1[a]).registrar.wf()
                        by {
                        if a != l as int {
                            assert(s1[a] == libs0[a]);
                        }
                    }
                }
                return;
            }
            l = l + 1;
        }
        proof {
            lemma_lib_index_skip(libs0, lname, 0, libs0.len() as int);
        }
        self.libraries.push(LibrarySlot { registrar, holds: 0u64 });
        proof {
            let s1 = self.libraries@;
            assert forall|a: int, b: int|
                #![trigger s1[a], s1[b]]
                0 <= a < b < s1.len() implies s1[a].registrar.library_name@
                != s1[b].registrar.library_name@ by {
                if b < libs0.len() {
                    assert(s1[a] == libs0[a] && s1[b] == libs0[b]);
                } else {
                    assert(s1[a] == libs0[a]);
                }
            }
            assert forall|a: int| 0 <= a < s1.len() implies (#[trigger] s1[a]).registrar.wf() by {
                if a < libs0.len() {
                    assert(s1[a] == libs0[a]);
                }
            }
        }
    }

    /// The dispatch path, up to the foreign call: find the entry serving
    /// the message's command name — the first match in load order — take a
    /// hold on its library, and hand back everything the embedder needs to
    /// invoke the implementation and report a failure.  A name no registry
    /// serves is classified CommandNotFound, and nothing is invoked or
    /// changed.
    pub fn call(&mut self, message: &Message) -> (r: Result<Invocation, ProcessorError>)
        requires
            old(self).wf(),
            resolve(old(self).libraries@, message.command_name@) matches Some(p)
                ==> old(self).libraries@[p.0].holds < u64::MAX,
        ensures
            final(self).host == old(self).host,
            final(self).wf(),
            resolve(old(self).libraries@, message.command_name@) is None ==> (r matches Err(e)
                && e matches ProcessorError::CommandNotFound { command } && command@
                == message.command_name@ && *final(self) == *old(self)),
            resolve(old(self).libraries@, message.command_name@) matches Some(p)
                ==> (r matches Ok(inv)
                && inv.command == p.1.command && inv.command_name == message.command_name
                && inv.library == p.1.library && inv.raw_message == message.message
                && final(self).libraries@ == old(self).libraries@.update(
                p.0,
                (LibrarySlot {
                    registrar: old(self).libraries@[p.0].registrar,
                    holds: (old(self).libraries@[p.0].holds + 1) as u64,
                }),
            )),
    {
        let ghost libs0 = self.libraries@;
        let ghost cmd = message.command_name@;
        let mut l: usize = 0;
        while l < self.libraries.len()
            invariant
                *self == *old(self),
                old(self).wf(),
                resolve(libs0, cmd) matches Some(p) ==> libs0[p.0].holds < u64::MAX,
                libs0 == self.libraries@,
                0 <= l <= libs0.len(),
                cmd == message.command_name@,
                forall|j: int|
                    0 <= j < l ==> lookup((#[trigger] libs0[j]).registrar.commands@, cmd) is None,
            decreases libs0.len() - l,
        {
            match self.libraries[l].registrar.index_of(message.command_name.as_str()) {
                Some(ci) => {
                    proof {
                        lemma_resolve_skip(libs0, cmd, 0, l as int);
                        assert(resolve(libs0, cmd) == Some(
                            (l as int, libs0[l as int].registrar.commands@[ci as int]),
                        ));
                    }
                    let invocation = Invocation {
                        command: self.libraries[l].registrar.commands[ci].command,
                        command_name: message.command_name.clone(),
                        library: self.libraries[l].registrar.commands[ci].library.clone(),
                        raw_message: message.message.clone(),
                    };
                    let mut slot = self.libraries.remove(l);
                    slot.holds = slot.holds + 1;
                    self.libraries.insert(l, slot);
                    proof {
                        assert(self.libraries@ =~= libs0.update(
                            l as int,
                            (LibrarySlot {
                                registrar: libs0[l as int].registrar,
                                holds: (libs0[l as int].holds + 1) as u64,
                            }),
                        ));
                        lemma_same_registrars_wf(libs0, self.libraries@);
                    }
                    return Ok(invocation);
                },
                None => {},
            }
            l = l + 1;
        }
        proof {
            lemma_resolve_skip(libs0, cmd, 0, libs0.len() as int);
        }
        Err(ProcessorError::CommandNotFound { command: message.command_name.clone() })
    }

    /// Give back the hold an invocation took on its library, and classify
    /// the outcome the embedder observed: a failed execution is reported as
    /// CommandExecutionFailed, naming the command, its owning library, and
    /// the raw message text; the underlying cause is the embedder's to log.
    pub fn finish_call(&mut self, invocation: Invocation, succeeded: bool) -> (r: Result<
        (),
        ProcessorError,
    >)
        requires
            old(self).wf(),
        ensures
            final(self).host == old(self).host,
            final(self).wf(),
            ({
                let i = lib_index(old(self).libraries@, invocation.library@);
                if i >= 0 && old(self).libraries@[i].holds > 0 {
                    final(self).libraries@ == old(self).libraries@.update(
                        i,
                        (LibrarySlot {
                            registrar: old(self).libraries@[i].registrar,
                            holds: (old(self).libraries@[i].holds - 1) as u64,
                        }),
                    )
                } else {
                    final(self).libraries@ == old(self).libraries@
                }
            }),
            succeeded <==> r is Ok,
            r matches Err(e) ==> (e matches ProcessorError::CommandExecutionFailed {
                command,
                library,
                message,
            } && command == invocation.command_name && library == invocation.library && message
                == invocation.raw_message),
    {
        let ghost libs0 = self.libraries@;
        let ghost lname = invocation.library@;
        let mut l: usize = 0;
        while l < self.libraries.len()
            invariant
                *self == *old(self),
                old(self).wf(),
                libs0 == self.libraries@,
                0 <= l <= libs0.len(),
                lname == invocation.library@,
                forall|j: int|
                    0 <= j < l ==> (#[trigger] libs0[j]).registrar.library_name@ != lname,
            decreases libs0.len() - l,
        {
            if str_eq(self.libraries[l].registrar.library_name.as_str(),
                invocation.library.as_str()) {
                proof {
                    lemma_lib_index_skip(libs0, lname, 0, l as int);
                }
                if self.libraries[l].holds > 0 {
                    let mut slot = self.libraries.remove(l);
                    slot.holds = slot.holds - 1;
                    self.libraries.insert(l, slot);
                    proof {
                        assert(self.libraries@ =~= libs0.update(
                            l as int,
                            (LibrarySlot {
                                registrar: libs0[l as int].registrar,
                                holds: (libs0[l as int].holds - 1) as u64,
                            }),
                        ));
                        lemma_same_registrars_wf(libs0, self.libraries@);
                    }
                }
                return if succeeded {
                    Ok(())
                } else {
                    Err(
                        ProcessorError::CommandExecutionFailed {
                            command: invocation.command_name,
                            library: invocation.library,
                            message: invocation.raw_message,
                        },
                    )
                };
            }
            l = l + 1;
        }
        proof {
            lemma_lib_index_skip(libs0, lname, 0, libs0.len() as int);
        }
        if succeeded {
            Ok(())
        } else {
            Err(
                ProcessorError::CommandExecutionFailed {
                    command: invocation.command_name,
                    library: invocation.library,
                    message: invocation.raw_message,
                },
            )
        }
    }

    /// Best-effort reclamation of a loaded library.  A library that is not
    /// in the table reports NotLoaded.  One with an invocation in flight —
    /// a holder of the native mapping beyond the table — is left exactly as
    /// it was, its commands fully usable, and reports StillInUse.  Only a
    /// library nothing else holds is removed, all its commands with it;
    /// the embedder may then close the native mapping, and a failure there
    /// is logged, not answered, the commands staying gone either way.
    pub fn unload(&mut self, library_name: &str) -> (r: UnloadOutcome)
        requires
            old(self).wf(),
        ensures
            final(self).host == old(self).host,
            final(self).wf(),
            ({
                let i = lib_index(old(self).libraries@, library_name@);
                &&& (i < 0 ==> r == UnloadOutcome::NotLoaded && *final(self) == *old(self))
                &&& (i >= 0 && old(self).libraries@[i].holds > 0 ==> r == UnloadOutcome::StillInUse
                    && *final(self) == *old(self))
                &&& (i >= 0 && old(self).libraries@[i].holds == 0 ==> r == UnloadOutcome::Removed
                    && final(self).libraries@ == old(self).libraries@.remove(i))
            }),
    {
        let ghost libs0 = self.libraries@;
        let mut l: usize = 0;
        while l < self.libraries.len()
            invariant
                *self == *old(self),
                old(self).wf(),
                libs0 == self.libraries@,
                0 <= l <= libs0.len(),
                forall|j: int|
                    0 <= j < l ==> (#[trigger] libs0[j]).registrar.library_name@ != library_name@,
            decreases libs0.len() - l,
        {
            if str_eq(self.libraries[l].registrar.library_name.as_str(), library_name) {
                proof {
                    lemma_lib_index_skip(libs0, library_name@, 0, l as int);
                }
                if self.libraries[l].holds > 0 {
                    return UnloadOutcome::StillInUse;
                }
                self.libraries.remove(l);
                proof {
                    let s1 = self.libraries@;
                    assert forall|a: int, b: int|
                        #![trigger s1[a], s1[b]]
                        0 <= a < b < s1.len() implies s1[a].registrar.library_name@
                        != s1[b].registrar.library_name@ by {
                        assert(s1[a] == if a < l as int {
                            libs0[a]
                        } else {
                            libs0[a + 1]
                        });
                        assert(s1[b] == if b < l as int {
                            libs0[b]
                        } else {
                            libs0[b + 1]
                        });
                    }
                    assert forall|a: int| 0 <= a < s1.len() implies (#[trigger] s1[a]).registrar.wf()
                        by {
                        assert(s1[a] == if a < l as int {
                            libs0[a]
                        } else {
                            libs0[a + 1]
                        });
                    }
                }
                return UnloadOutcome::Removed;
            }
            l = l + 1;
        }
        proof {
            lemma_lib_index_skip(libs0, library_name@, 0, libs0.len() as int);
        }
        UnloadOutcome::NotLoaded
    }
}

} // verus!
