//! The laws the dispatcher obeys, stated and proved over the models its
//! contracts speak of.

use vstd::prelude::*;
use crate::ingest::dispatch_or_skip;
use crate::ingest::step_rel;
use crate::ingest::FlowState;
use crate::ingest::IngestAction;
use crate::ingest::IngestEvent;
use crate::ingest::LookupOutcome;
use crate::ingest::RETRY_DELAY_MS;
use crate::message::is_command_text;
use crate::message::Identity;
use crate::processor::lemma_resolve_same_registrars;
use crate::processor::lemma_resolve_skip;
use crate::processor::libs_wf;
use crate::processor::resolve;
use crate::processor::resolve_from;
use crate::processor::LibrarySlot;
use crate::registry::lookup;
use crate::registry::CommandProxy;
use crate::server::all_infos;
use crate::server::lib_infos;
use crate::server::model_of;

verus! {

/// A search is answered no later than any library that serves the name.
proof fn lemma_resolve_some_from(libs: Seq<LibrarySlot>, name: Seq<char>, j: int, i: int)
    requires
        0 <= j <= i < libs.len(),
        lookup(libs[i].registrar.commands@, name) is Some,
    ensures
        resolve_from(libs, name, j) is Some,
    decreases i - j,
{
    if j < i {
        if lookup(libs[j].registrar.commands@, name) is None {
            lemma_resolve_some_from(libs, name, j + 1, i);
        }
    }
}

/// A command some loaded library serves is reachable: dispatch resolves its
/// name.  When no earlier-loaded library also serves the name, dispatch
/// resolves it to exactly that library's entry.
pub proof fn lemma_registered_commands_reachable(
    libs: Seq<LibrarySlot>,
    i: int,
    name: Seq<char>,
)
    requires
        0 <= i < libs.len(),
        lookup(libs[i].registrar.commands@, name) is Some,
    ensures
        resolve(libs, name) is Some,
        (forall|j: int|
            0 <= j < i ==> lookup((#[trigger] libs[j]).registrar.commands@, name) is None) ==> (
        resolve(libs, name) matches Some(p) && p.0 == i && lookup(
            libs[i].registrar.commands@,
            name,
        ) == Some(p.1)),
{
    lemma_resolve_some_from(libs, name, 0, i);
    if forall|j: int|
        0 <= j < i ==> lookup((#[trigger] libs[j]).registrar.commands@, name) is None {
        lemma_resolve_skip(libs, name, 0, i);
    }
}

/// Unloading an idle library removes its commands from dispatch: a name
/// that no other library serves resolves to nothing once the library's slot
/// is gone.
pub proof fn lemma_unload_removes_commands(libs: Seq<LibrarySlot>, i: int, name: Seq<char>)
    requires
        0 <= i < libs.len(),
        forall|j: int|
            0 <= j < libs.len() && j != i ==> lookup(
                (#[trigger] libs[j]).registrar.commands@,
                name,
            ) is None,
    ensures
        resolve(libs.remove(i), name) is None,
{
    let s = libs.remove(i);
    assert forall|k: int| 0 <= k < s.len() implies lookup(
        (#[trigger] s[k]).registrar.commands@,
        name,
    ) is None by {
        if k < i {
            assert(s[k] == libs[k]);
        } else {
            assert(s[k] == libs[k + 1]);
        }
    }
    lemma_resolve_skip(s, name, 0, s.len() as int);
}

/// Dispatch resolution is a function of the loaded registries and the name
/// alone: two table states whose slots hold the same registries — however
/// many invocations are in flight — resolve every name alike.  Repeated
/// calls of one name in one table state therefore reach the same entry,
/// every time, even where two libraries both register it.
pub proof fn lemma_resolution_stable(a: Seq<LibrarySlot>, b: Seq<LibrarySlot>, name: Seq<char>)
    requires
        a.len() == b.len(),
        forall|j: int| 0 <= j < a.len() ==> (#[trigger] b[j]).registrar == a[j].registrar,
    ensures
        resolve(a, name) == resolve(b, name),
{
    lemma_resolve_same_registrars(a, b, name, 0);
}

/// Every record of one registry's listing belongs to that library and is
/// the record of one of its non-alias entries.
proof fn lemma_lib_infos_fields(lib: Seq<char>, cmds: Seq<CommandProxy>, i: int)
    requires
        0 <= i <= cmds.len(),
    ensures
        forall|k: int|
            0 <= k < lib_infos(lib, cmds, i).len() ==> ((#[trigger] lib_infos(lib, cmds, i)[k]).library
                == lib && exists|j: int|
                i <= j < cmds.len() && !(#[trigger] cmds[j]).is_alias && lib_infos(lib, cmds, i)[k]
                    == model_of(lib, cmds[j])),
    decreases cmds.len() - i,
{
    if i < cmds.len() {
        lemma_lib_infos_fields(lib, cmds, i + 1);
        let s = lib_infos(lib, cmds, i);
        let t = lib_infos(lib, cmds, i + 1);
        if !cmds[i].is_alias {
            assert(s == seq![model_of(lib, cmds[i])] + t);
            assert forall|k: int| 0 <= k < s.len() implies ((#[trigger] s[k]).library == lib
                && exists|j: int|
                i <= j < cmds.len() && !(#[trigger] cmds[j]).is_alias && s[k] == model_of(
                    lib,
                    cmds[j],
                )) by {
                if k == 0 {
                    assert(s[0] == model_of(lib, cmds[i]));
                    assert(!cmds[i].is_alias && s[k] == model_of(lib, cmds[i]));
                } else {
                    assert(s[k] == t[k - 1]);
                    let j0 = choose|j: int|
                        i + 1 <= j < cmds.len() && !(#[trigger] cmds[j]).is_alias && t[k - 1]
                            == model_of(lib, cmds[j]);
                    assert(!cmds[j0].is_alias && s[k] == model_of(lib, cmds[j0]));
                }
            }
        }
    }
}

/// Every non-alias entry of a registry appears in its listing.
proof fn lemma_lib_infos_complete(lib: Seq<char>, cmds: Seq<CommandProxy>, i: int)
    requires
        0 <= i <= cmds.len(),
    ensures
        forall|j: int|
            i <= j < cmds.len() && !(#[trigger] cmds[j]).is_alias ==> lib_infos(
                lib,
                cmds,
                i,
            ).contains(model_of(lib, cmds[j])),
    decreases cmds.len() - i,
{
    if i < cmds.len() {
        lemma_lib_infos_complete(lib, cmds, i + 1);
        let s = lib_infos(lib, cmds, i);
        let t = lib_infos(lib, cmds, i + 1);
        assert forall|j: int| i <= j < cmds.len() && !(#[trigger] cmds[j]).is_alias implies s
            .contains(model_of(lib, cmds[j])) by {
            if !cmds[i].is_alias {
                assert(s == seq![model_of(lib, cmds[i])] + t);
                if j == i {
                    assert(s[0] == model_of(lib, cmds[i]));
                } else {
                    assert(t.contains(model_of(lib, cmds[j])));
                    let k0 = choose|k: int| 0 <= k < t.len() && t[k] == model_of(lib, cmds[j]);
                    assert(s[k0 + 1] == model_of(lib, cmds[j]));
                }
            } else {
                assert(s == t);
            }
        }
    }
}

/// With unique entry names, no two records of one registry's listing share
/// a name.
proof fn lemma_lib_infos_unique(lib: Seq<char>, cmds: Seq<CommandProxy>, i: int)
    requires
        0 <= i <= cmds.len(),
        forall|a: int, b: int|
            #![trigger cmds[a], cmds[b]]
            0 <= a < b < cmds.len() ==> cmds[a].name@ != cmds[b].name@,
    ensures
        forall|k1: int, k2: int|
            #![trigger lib_infos(lib, cmds, i)[k1], lib_infos(lib, cmds, i)[k2]]
            0 <= k1 < k2 < lib_infos(lib, cmds, i).len() ==> lib_infos(lib, cmds, i)[k1].name
                != lib_infos(lib, cmds, i)[k2].name,
    decreases cmds.len() - i,
{
    if i < cmds.len() {
        lemma_lib_infos_unique(lib, cmds, i + 1);
        lemma_lib_infos_fields(lib, cmds, i + 1);
        let s = lib_infos(lib, cmds, i);
        let t = lib_infos(lib, cmds, i + 1);
        if !cmds[i].is_alias {
            assert(s == seq![model_of(lib, cmds[i])] + t);
            assert forall|k1: int, k2: int|
                #![trigger s[k1], s[k2]]
                0 <= k1 < k2 < s.len() implies s[k1].name != s[k2].name by {
                if k1 == 0 {
                    assert(s[k2] == t[k2 - 1]);
                    let j0 = choose|j: int|
                        i + 1 <= j < cmds.len() && !(#[trigger] cmds[j]).is_alias && t[k2 - 1]
                            == model_of(lib, cmds[j]);
                    assert(t[k2 - 1].name == cmds[j0].name@);
                    assert(cmds[i].name@ != cmds[j0].name@);
                } else {
                    assert(s[k1] == t[k1 - 1] && s[k2] == t[k2 - 1]);
                }
            }
        }
    }
}

/// Every record of the full listing is the record of one loaded library's
/// non-alias entry.
proof fn lemma_all_infos_fields(libs: Seq<LibrarySlot>, i: int)
    requires
        0 <= i <= libs.len(),
    ensures
        forall|k: int|
            #![trigger all_infos(libs, i)[k]]
            0 <= k < all_infos(libs, i).len() ==> exists|j: int, c: int|
                #![trigger libs[j].registrar.commands@[c]]
                i <= j < libs.len() && 0 <= c < libs[j].registrar.commands@.len()
                    && !libs[j].registrar.commands@[c].is_alias && all_infos(libs, i)[k]
                    == model_of(
                    libs[j].registrar.library_name@,
                    libs[j].registrar.commands@[c],
                ),
    decreases libs.len() - i,
{
    if i < libs.len() {
        lemma_all_infos_fields(libs, i + 1);
        let lib = libs[i].registrar.library_name@;
        let cmds = libs[i].registrar.commands@;
        lemma_lib_infos_fields(lib, cmds, 0);
        let h = lib_infos(lib, cmds, 0);
        let t = all_infos(libs, i + 1);
        let s = all_infos(libs, i);
        assert(s == h + t);
        assert forall|k: int| #![trigger s[k]] 0 <= k < s.len() implies exists|j: int, c: int|
            #![trigger libs[j].registrar.commands@[c]]
            i <= j < libs.len() && 0 <= c < libs[j].registrar.commands@.len()
                && !libs[j].registrar.commands@[c].is_alias && s[k] == model_of(
                libs[j].registrar.library_name@,
                libs[j].registrar.commands@[c],
            ) by {
            if k < h.len() {
                assert(s[k] == h[k]);
                let c0 = choose|c: int|
                    0 <= c < cmds.len() && !(#[trigger] cmds[c]).is_alias && h[k] == model_of(
                        lib,
                        cmds[c],
                    );
                assert(!libs[i].registrar.commands@[c0].is_alias && s[k] == model_of(
                    libs[i].registrar.library_name@,
                    libs[i].registrar.commands@[c0],
                ));
            } else {
                assert(s[k] == t[k - h.len()]);
                let (j0, c0) = choose|j: int, c: int|
                    #![trigger libs[j].registrar.commands@[c]]
                    i + 1 <= j < libs.len() && 0 <= c < libs[j].registrar.commands@.len()
                        && !libs[j].registrar.commands@[c].is_alias && t[k - h.len()] == model_of(
                        libs[j].registrar.library_name@,
                        libs[j].registrar.commands@[c],
                    );
                assert(!libs[j0].registrar.commands@[c0].is_alias && s[k] == model_of(
                    libs[j0].registrar.library_name@,
                    libs[j0].registrar.commands@[c0],
                ));
            }
        }
    }
}

/// Every loaded library's non-alias entry appears in the full listing.
proof fn lemma_all_infos_complete(libs: Seq<LibrarySlot>, i: int)
    requires
        0 <= i <= libs.len(),
    ensures
        forall|j: int, c: int|
            #![trigger libs[j].registrar.commands@[c]]
            i <= j < libs.len() && 0 <= c < libs[j].registrar.commands@.len()
                && !libs[j].registrar.commands@[c].is_alias ==> all_infos(libs, i).contains(
                model_of(libs[j].registrar.library_name@, libs[j].registrar.commands@[c]),
            ),
    decreases libs.len() - i,
{
    if i < libs.len() {
        lemma_all_infos_complete(libs, i + 1);
        let lib = libs[i].registrar.library_name@;
        let cmds = libs[i].registrar.commands@;
        lemma_lib_infos_complete(lib, cmds, 0);
        let h = lib_infos(lib, cmds, 0);
        let t = all_infos(libs, i + 1);
        let s = all_infos(libs, i);
        assert(s == h + t);
        assert forall|j: int, c: int|
            #![trigger libs[j].registrar.commands@[c]]
            i <= j < libs.len() && 0 <= c < libs[j].registrar.commands@.len()
                && !libs[j].registrar.commands@[c].is_alias implies s.contains(
            model_of(libs[j].registrar.library_name@, libs[j].registrar.commands@[c]),
        ) by {
            let m = model_of(libs[j].registrar.library_name@, libs[j].registrar.commands@[c]);
            if j == i {
                assert(h.contains(m));
                let k0 = choose|k: int| 0 <= k < h.len() && h[k] == m;
                assert(s[k0] == m);
            } else {
                assert(t.contains(m));
                let k0 = choose|k: int| 0 <= k < t.len() && t[k] == m;
                assert(s[k0 + h.len()] == m);
            }
        }
    }
}

/// No two records of the full listing share both a library and a name.
proof fn lemma_all_infos_distinct(libs: Seq<LibrarySlot>, i: int)
    requires
        0 <= i <= libs.len(),
        libs_wf(libs),
    ensures
        forall|k1: int, k2: int|
            #![trigger all_infos(libs, i)[k1], all_infos(libs, i)[k2]]
            0 <= k1 < k2 < all_infos(libs, i).len() ==> !(all_infos(libs, i)[k1].library
                == all_infos(libs, i)[k2].library && all_infos(libs, i)[k1].name == all_infos(
                libs,
                i,
            )[k2].name),
    decreases libs.len() - i,
{
    if i < libs.len() {
        lemma_all_infos_distinct(libs, i + 1);
        lemma_all_infos_fields(libs, i + 1);
        let lib = libs[i].registrar.library_name@;
        let cmds = libs[i].registrar.commands@;
        assert(libs[i].registrar.wf());
        lemma_lib_infos_unique(lib, cmds, 0);
        lemma_lib_infos_fields(lib, cmds, 0);
        let h = lib_infos(lib, cmds, 0);
        let t = all_infos(libs, i + 1);
        let s = all_infos(libs, i);
        assert(s == h + t);
        assert forall|k1: int, k2: int|
            #![trigger s[k1], s[k2]]
            0 <= k1 < k2 < s.len() implies !(s[k1].library == s[k2].library && s[k1].name
            == s[k2].name) by {
            if k2 < h.len() {
                assert(s[k1] == h[k1] && s[k2] == h[k2]);
            } else if k1 < h.len() {
                assert(s[k1] == h[k1] && s[k2] == t[k2 - h.len()]);
                assert(h[k1].library == lib);
                let (j0, c0) = choose|j: int, c: int|
                    #![trigger libs[j].registrar.commands@[c]]
                    i + 1 <= j < libs.len() && 0 <= c < libs[j].registrar.commands@.len()
                        && !libs[j].registrar.commands@[c].is_alias && t[k2 - h.len()] == model_of(
                        libs[j].registrar.library_name@,
                        libs[j].registrar.commands@[c],
                    );
                assert(s[k2].library == libs[j0].registrar.library_name@);
                assert(libs[i].registrar.library_name@ != libs[j0].registrar.library_name@);
            } else {
                assert(s[k1] == t[k1 - h.len()] && s[k2] == t[k2 - h.len()]);
            }
        }
    }
}

/// The listing's alias model: every record the listing serves is the record
/// of a non-alias entry of one loaded library — alias entries are never
/// listed — each such entry is listed, and no two records share both a
/// library and a name: exactly one record per canonical name of each
/// library.
pub proof fn lemma_listing_canonical(libs: Seq<LibrarySlot>)
    requires
        libs_wf(libs),
    ensures
        forall|k: int|
            #![trigger all_infos(libs, 0)[k]]
            0 <= k < all_infos(libs, 0).len() ==> exists|j: int, c: int|
                #![trigger libs[j].registrar.commands@[c]]
                0 <= j < libs.len() && 0 <= c < libs[j].registrar.commands@.len()
                    && !libs[j].registrar.commands@[c].is_alias && all_infos(libs, 0)[k]
                    == model_of(
                    libs[j].registrar.library_name@,
                    libs[j].registrar.commands@[c],
                ),
        forall|j: int, c: int|
            #![trigger libs[j].registrar.commands@[c]]
            0 <= j < libs.len() && 0 <= c < libs[j].registrar.commands@.len()
                && !libs[j].registrar.commands@[c].is_alias ==> all_infos(libs, 0).contains(
                model_of(libs[j].registrar.library_name@, libs[j].registrar.commands@[c]),
            ),
        forall|k1: int, k2: int|
            #![trigger all_infos(libs, 0)[k1], all_infos(libs, 0)[k2]]
            0 <= k1 < k2 < all_infos(libs, 0).len() ==> !(all_infos(libs, 0)[k1].library
                == all_infos(libs, 0)[k2].library && all_infos(libs, 0)[k1].name == all_infos(
                libs,
                0,
            )[k2].name),
{
    lemma_all_infos_fields(libs, 0);
    lemma_all_infos_complete(libs, 0);
    lemma_all_infos_distinct(libs, 0);
}

/// Unloading an idle library removes its commands from the listing: no
/// record of the shrunken table names the removed library.
pub proof fn lemma_unload_removes_listing(libs: Seq<LibrarySlot>, i: int)
    requires
        libs_wf(libs),
        0 <= i < libs.len(),
    ensures
        forall|k: int|
            0 <= k < all_infos(libs.remove(i), 0).len() ==> (#[trigger] all_infos(
                libs.remove(i),
                0,
            )[k]).library != libs[i].registrar.library_name@,
{
    let s = libs.remove(i);
    lemma_all_infos_fields(s, 0);
    assert forall|k: int| 0 <= k < all_infos(s, 0).len() implies (#[trigger] all_infos(s, 0)[k]).library
        != libs[i].registrar.library_name@ by {
        let (j0, c0) = choose|j: int, c: int|
            #![trigger s[j].registrar.commands@[c]]
            0 <= j < s.len() && 0 <= c < s[j].registrar.commands@.len()
                && !s[j].registrar.commands@[c].is_alias && all_infos(s, 0)[k] == model_of(
                s[j].registrar.library_name@,
                s[j].registrar.commands@[c],
            );
        if j0 < i {
            assert(s[j0] == libs[j0]);
        } else {
            assert(s[j0] == libs[j0 + 1]);
        }
    }
}

/// A message whose identity lookup is answered "not found" — or with any
/// other failure — on both the first attempt and the retry is dropped with
/// a debug log: the flow asks for the fixed-delay sleep, the second lookup,
/// and then nothing; no step of it dispatches a command.
pub proof fn lemma_unresolved_identity_drops_message(
    channel_id: String,
    text: String,
    o1: LookupOutcome,
    s1: FlowState,
    a1: IngestAction,
    s2: FlowState,
    a2: IngestAction,
    o2: LookupOutcome,
    s3: FlowState,
    a3: IngestAction,
)
    requires
        !(o1 is Found),
        !(o2 is Found),
        step_rel(
            FlowState::AwaitingFirstLookup { channel_id, text },
            IngestEvent::LookupDone { outcome: o1 },
            s1,
            a1,
        ),
        step_rel(s1, IngestEvent::SleepDone, s2, a2),
        step_rel(s2, IngestEvent::LookupDone { outcome: o2 }, s3, a3),
    ensures
        a1 matches IngestAction::Sleep { millis } && millis == RETRY_DELAY_MS,
        a2 is LookupIdentity,
        a3 == IngestAction::LogDebug,
        s3 == FlowState::Waiting,
        !(a1 is Dispatch),
        !(a2 is Dispatch),
        !(a3 is Dispatch),
{
}

/// A resolved message whose text does not match command syntax is discarded
/// silently: no dispatch, no log, the flow simply waits for the next
/// message.
pub proof fn lemma_noncommand_text_silent(
    channel_id: String,
    text: String,
    user: Identity,
    post: FlowState,
    action: IngestAction,
)
    requires
        !is_command_text(text@),
        step_rel(
            FlowState::AwaitingFirstLookup { channel_id, text },
            IngestEvent::LookupDone { outcome: LookupOutcome::Found { user } },
            post,
            action,
        ),
    ensures
        post == FlowState::Waiting,
        action == IngestAction::Continue,
{
    assert(dispatch_or_skip(user, text, post, action));
}

} // verus!
