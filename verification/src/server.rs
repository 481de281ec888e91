//! The read-only introspection surface over the loaded command set.
//!
//! Both operations take a snapshot of the table and never mutate it:
//! listing reports every canonical (non-alias) entry with its alias list,
//! a static description and its owning library, together with the count of
//! loaded libraries; lookup reports the same shape for one exact canonical
//! name.  Alias entries are never reported — an alias routes a call, it is
//! not a command of its own.

use vstd::prelude::*;
use crate::processor::CommandProcessor;
use crate::processor::LibrarySlot;
use crate::registry::lookup;
use crate::registry::CommandProxy;
use crate::str_eq;

verus! {

/// What introspection reports for one canonical command.
pub struct CommandInfo {
    pub name: String,
    pub aliases: Vec<String>,
    pub description: String,
    pub library: String,
}

/// The full listing: one record per canonical command, and the number of
/// loaded libraries.
pub struct CommandList {
    pub commands: Vec<CommandInfo>,
    pub count: usize,
}

/// The mathematical shape of one reported record.
pub ghost struct InfoModel {
    pub name: Seq<char>,
    pub aliases: Seq<Seq<char>>,
    pub description: Seq<char>,
    pub library: Seq<char>,
}

impl View for CommandInfo {
    type V = InfoModel;

    open spec fn view(&self) -> InfoModel {
        InfoModel {
            name: self.name@,
            aliases: self.aliases.deep_view(),
            description: self.description@,
            library: self.library@,
        }
    }
}

/// The fixed description every listed command carries.
pub open spec fn command_description_spec() -> Seq<char> {
    "A command for ByersPlusPlus"@
}

pub fn command_description() -> (r: String)
    ensures
        r@ == command_description_spec(),
{
    "A command for ByersPlusPlus".to_owned()
}

/// The record reported for entry `e` of the library named `lib`.
pub open spec fn model_of(lib: Seq<char>, e: CommandProxy) -> InfoModel {
    InfoModel {
        name: e.name@,
        aliases: e.aliases.deep_view(),
        description: command_description_spec(),
        library: lib,
    }
}

/// The records of one registry from position `i` on: its non-alias entries
/// in table order.
pub open spec fn lib_infos(lib: Seq<char>, cmds: Seq<CommandProxy>, i: int) -> Seq<InfoModel>
    decreases cmds.len() - i,
{
    if i < 0 || i >= cmds.len() {
        Seq::empty()
    } else if cmds[i].is_alias {
        lib_infos(lib, cmds, i + 1)
    } else {
        seq![model_of(lib, cmds[i])] + lib_infos(lib, cmds, i + 1)
    }
}

/// The full listing from library `i` on: each library's records, in load
/// order.
pub open spec fn all_infos(libs: Seq<LibrarySlot>, i: int) -> Seq<InfoModel>
    decreases libs.len() - i,
{
    if i < 0 || i >= libs.len() {
        Seq::empty()
    } else {
        lib_infos(libs[i].registrar.library_name@, libs[i].registrar.commands@, 0) + all_infos(
            libs,
            i + 1,
        )
    }
}

/// The canonical entry a registry serves for `name`: its unique entry of
/// that name, provided that entry is not an alias.
pub open spec fn canonical_at(cmds: Seq<CommandProxy>, name: Seq<char>) -> Option<CommandProxy> {
    match lookup(cmds, name) {
        Some(e) => if !e.is_alias {
            Some(e)
        } else {
            None
        },
        None => None,
    }
}

/// First library at or after `i` serving `name` as a canonical command,
/// with the entry.  A library where `name` is only an alias does not stop
/// the search.
pub open spec fn resolve_canonical_from(libs: Seq<LibrarySlot>, name: Seq<char>, i: int) -> Option<
    (int, CommandProxy),
>
    decreases libs.len() - i,
{
    if i < 0 || i >= libs.len() {
        None
    } else {
        match canonical_at(libs[i].registrar.commands@, name) {
            Some(e) => Some((i, e)),
            None => resolve_canonical_from(libs, name, i + 1),
        }
    }
}

pub open spec fn resolve_canonical(libs: Seq<LibrarySlot>, name: Seq<char>) -> Option<
    (int, CommandProxy),
> {
    resolve_canonical_from(libs, name, 0)
}

/// A search that passes only libraries without the canonical name gives the
/// same answer wherever it starts within the passed-over range.
pub proof fn lemma_resolve_canonical_skip(
    libs: Seq<LibrarySlot>,
    name: Seq<char>,
    i: int,
    k: int,
)
    requires
        0 <= i <= k <= libs.len(),
        forall|j: int|
            i <= j < k ==> canonical_at((#[trigger] libs[j]).registrar.commands@, name) is None,
    ensures
        resolve_canonical_from(libs, name, i) == resolve_canonical_from(libs, name, k),
    decreases k - i,
{
    if i < k {
        lemma_resolve_canonical_skip(libs, name, i + 1, k);
    }
}

/// Clone a vector of strings, keeping every element's value.
pub fn clone_string_vec(v: &Vec<String>) -> (r: Vec<String>)
    ensures
        r@ == v@,
{
    let mut out: Vec<String> = Vec::new();
    let mut i: usize = 0;
    while i < v.len()
        invariant
            0 <= i <= v@.len(),
            out@ == v@.subrange(0, i as int),
        decreases v@.len() - i,
    {
        out.push(v[i].clone());
        proof {
            assert(out@ =~= v@.subrange(0, i + 1));
        }
        i = i + 1;
    }
    proof {
        assert(out@ =~= v@);
    }
    out
}

/// The remote introspection service: a read-only view over the processor's
/// table.
pub struct CommandServiceServer {
    pub processor: CommandProcessor,
}

impl CommandServiceServer {
    /// List every canonical command — never an alias entry — with its alias
    /// list, the static description and its owning library, plus the count
    /// of loaded libraries.
    pub fn get_commands(&self) -> (r: CommandList)
        ensures
            r.count == self.processor.libraries@.len(),
            r.commands@.len() == all_infos(self.processor.libraries@, 0).len(),
            forall|k: int|
                0 <= k < r.commands@.len() ==> (#[trigger] r.commands@[k])@ == all_infos(
                    self.processor.libraries@,
                    0,
                )[k],
    {
        let ghost libs = self.processor.libraries@;
        let mut commands: Vec<CommandInfo> = Vec::new();
        let ghost mut acc: Seq<InfoModel> = Seq::empty();
        let mut l: usize = 0;
        while l < self.processor.libraries.len()
            invariant
                libs == self.processor.libraries@,
                0 <= l <= libs.len(),
                acc.len() == commands@.len(),
                forall|k: int| 0 <= k < acc.len() ==> (#[trigger] commands@[k])@ == acc[k],
                all_infos(libs, 0) == acc + all_infos(libs, l as int),
            decreases libs.len() - l,
        {
            let ghost libname = libs[l as int].registrar.library_name@;
            let ghost cmds = libs[l as int].registrar.commands@;
            proof {
                assert(all_infos(libs, l as int) == lib_infos(libname, cmds, 0) + all_infos(
                    libs,
                    l + 1,
                ));
            }
            let cn = self.processor.libraries[l].registrar.commands.len();
            let mut c: usize = 0;
            while c < cn
                invariant
                    libs == self.processor.libraries@,
                    0 <= l < libs.len(),
                    libname == libs[l as int].registrar.library_name@,
                    cmds == libs[l as int].registrar.commands@,
                    cn == cmds.len(),
                    0 <= c <= cn,
                    acc.len() == commands@.len(),
                    forall|k: int| 0 <= k < acc.len() ==> (#[trigger] commands@[k])@ == acc[k],
                    all_infos(libs, 0) == acc + lib_infos(libname, cmds, c as int) + all_infos(
                        libs,
                        l + 1,
                    ),
                decreases cn - c,
            {
                let entry_is_alias = self.processor.libraries[l].registrar.commands[c].is_alias;
                if !entry_is_alias {
                    let info = CommandInfo {
                        name: self.processor.libraries[l].registrar.commands[c].name.clone(),
                        aliases: clone_string_vec(
                            &self.processor.libraries[l].registrar.commands[c].aliases,
                        ),
                        description: command_description(),
                        library: self.processor.libraries[l].registrar.library_name.clone(),
                    };
                    proof {
                        assert(info@ == model_of(libname, cmds[c as int]));
                        assert(lib_infos(libname, cmds, c as int) == seq![
                            model_of(libname, cmds[c as int]),
                        ] + lib_infos(libname, cmds, c + 1));
                    }
                    commands.push(info);
                    proof {
                        let m = model_of(libname, cmds[c as int]);
                        let acc0 = acc;
                        acc = acc.push(m);
                        assert(acc =~= acc0 + seq![m]);
                        assert(acc0 + (seq![m] + lib_infos(libname, cmds, c + 1)) =~= (acc0 + seq![
                            m,
                        ]) + lib_infos(libname, cmds, c + 1));
                    }
                } else {
                    proof {
                        assert(lib_infos(libname, cmds, c as int) == lib_infos(
                            libname,
                            cmds,
                            c + 1,
                        ));
                    }
                }
                c = c + 1;
            }
            proof {
                assert(lib_infos(libname, cmds, cn as int) == Seq::<InfoModel>::empty());
                assert(acc + lib_infos(libname, cmds, cn as int) =~= acc);
            }
            l = l + 1;
        }
        proof {
            assert(all_infos(libs, libs.len() as int) == Seq::<InfoModel>::empty());
            assert(acc + all_infos(libs, libs.len() as int) =~= acc);
        }
        let count = self.processor.libraries.len();
        CommandList { commands, count }
    }

    /// Report the one canonical entry of `name`, searching the libraries in
    /// load order, or nothing: an alias name is not reported, and does not
    /// stop the search at its library.
    pub fn get_command(&self, name: &str) -> (r: Option<CommandInfo>)
        ensures
            match resolve_canonical(self.processor.libraries@, name@) {
                Some(p) => r matches Some(info) && info@ == model_of(
                    self.processor.libraries@[p.0].registrar.library_name@,
                    p.1,
                ),
                None => r is None,
            },
    {
        let ghost libs = self.processor.libraries@;
        let mut l: usize = 0;
        while l < self.processor.libraries.len()
            invariant
                libs == self.processor.libraries@,
                0 <= l <= libs.len(),
                forall|j: int|
                    0 <= j < l ==> canonical_at(
                        (#[trigger] libs[j]).registrar.commands@,
                        name@,
                    ) is None,
            decreases libs.len() - l,
        {
            match self.processor.libraries[l].registrar.index_of(name) {
                Some(ci) => {
                    let entry_is_alias = self.processor.libraries[l].registrar.commands[ci].is_alias;
                    if !entry_is_alias {
                        proof {
                            lemma_resolve_canonical_skip(libs, name@, 0, l as int);
                        }
                        let info = CommandInfo {
                            name: self.processor.libraries[l].registrar.commands[ci].name.clone(),
                            aliases: clone_string_vec(
                                &self.processor.libraries[l].registrar.commands[ci].aliases,
                            ),
                            description: command_description(),
                            library: self.processor.libraries[l].registrar.library_name.clone(),
                        };
                        return Some(info);
                    }
                },
                None => {},
            }
            l = l + 1;
        }
        proof {
            lemma_resolve_canonical_skip(libs, name@, 0, libs.len() as int);
        }
        None
    }
}

} // verus!
