//! Per-library command registry and the alias model.
//!
//! One registry exists per loaded plugin library.  A plugin contributes a
//! command under its canonical name together with a list of aliases; every
//! alias becomes an entry of its own, marked `is_alias` and carrying no
//! alias list of its own, so that alias entries never report aliases.
//! Within one registry, names are unique: registering a name again replaces
//! the earlier entry, as the later of two registrations wins.

use vstd::prelude::*;
use vstd::pervasive::VecAdditionalExecFns;
use crate::str_eq;

verus! {

/// One table entry: a handle to the plugin-provided implementation object
/// (the embedder keeps the object itself and hands out the handle), the
/// owning library's file name, the alias list of a canonical entry, and the
/// flag telling an alias entry apart from a canonical one.
pub struct CommandProxy {
    pub name: String,
    pub command: u64,
    pub library: String,
    pub aliases: Vec<String>,
    pub is_alias: bool,
}

/// The registrar capability a plugin drives during its registration entry
/// point: the only way commands enter a registry.
pub struct CommandRegistrar {
    pub library_name: String,
    pub commands: Vec<CommandProxy>,
}

/// First entry named `name` at or after position `i`, if any.  With unique
/// names this is the only such entry.
pub open spec fn find_from(s: Seq<CommandProxy>, name: Seq<char>, i: int) -> Option<CommandProxy>
    decreases s.len() - i,
{
    if i < 0 || i >= s.len() {
        None
    } else if s[i].name@ == name {
        Some(s[i])
    } else {
        find_from(s, name, i + 1)
    }
}

/// The entry a registry serves for `name`, if any.
pub open spec fn lookup(s: Seq<CommandProxy>, name: Seq<char>) -> Option<CommandProxy> {
    find_from(s, name, 0)
}

/// Well-formedness of a registry's table: unique names, every entry owned by
/// the registry's library, and alias entries carrying no alias list.
pub open spec fn entries_wf(lib: Seq<char>, s: Seq<CommandProxy>) -> bool {
    &&& forall|i: int, j: int|
        #![trigger s[i], s[j]]
        0 <= i < j < s.len() ==> s[i].name@ != s[j].name@
    &&& forall|i: int| 0 <= i < s.len() ==> (#[trigger] s[i]).library@ == lib
    &&& forall|i: int| 0 <= i < s.len() ==> ((#[trigger] s[i]).is_alias ==> s[i].aliases.len() == 0)
}

/// A search that passes only non-matching entries gives the same answer
/// wherever it starts within the passed-over range.
pub proof fn lemma_find_skip(s: Seq<CommandProxy>, name: Seq<char>, i: int, k: int)
    requires
        0 <= i <= k <= s.len(),
        forall|j: int| i <= j < k ==> (#[trigger] s[j]).name@ != name,
    ensures
        find_from(s, name, i) == find_from(s, name, k),
    decreases k - i,
{
    if i < k {
        lemma_find_skip(s, name, i + 1, k);
    }
}

/// Replacing an entry whose name is not `name` by another such entry leaves
/// the search for `name` unchanged.
pub proof fn lemma_find_update_other(
    s: Seq<CommandProxy>,
    idx: int,
    e: CommandProxy,
    name: Seq<char>,
    i: int,
)
    requires
        0 <= idx < s.len(),
        0 <= i <= s.len(),
        s[idx].name@ != name,
        e.name@ != name,
    ensures
        find_from(s.update(idx, e), name, i) == find_from(s, name, i),
    decreases s.len() - i,
{
    if i < s.len() {
        lemma_find_update_other(s, idx, e, name, i + 1);
    }
}

/// What appending an entry does to a search: a hit stays as it was, and a
/// miss now finds the appended entry exactly when its name matches.
pub proof fn lemma_find_push(s: Seq<CommandProxy>, e: CommandProxy, name: Seq<char>, i: int)
    requires
        0 <= i <= s.len(),
    ensures
        find_from(s.push(e), name, i) == if find_from(s, name, i) is Some {
            find_from(s, name, i)
        } else if e.name@ == name {
            Some(e)
        } else {
            None::<CommandProxy>
        },
    decreases s.len() - i,
{
    if i < s.len() {
        assert(s.push(e)[i] == s[i]);
        lemma_find_push(s, e, name, i + 1);
    } else {
        assert(s.push(e)[i] == e);
        assert(find_from(s, name, i) is None);
        if e.name@ == name {
            assert(find_from(s.push(e), name, i) == Some(e));
        } else {
            assert(find_from(s.push(e), name, i) == find_from(s.push(e), name, i + 1));
            assert(find_from(s.push(e), name, i + 1) is None);
        }
    }
}

impl CommandRegistrar {
    pub open spec fn wf(self) -> bool {
        entries_wf(self.library_name@, self.commands@)
    }

    /// An empty registry bound to the named library.
    pub fn new(library_name: String) -> (r: CommandRegistrar)
        ensures
            r.library_name == library_name,
            r.commands@ == Seq::<CommandProxy>::empty(),
            r.wf(),
    {
        CommandRegistrar { library_name, commands: Vec::new() }
    }

    /// Insert one entry under its name, replacing an earlier entry of the
    /// same name and leaving every other name's entry untouched.
    fn insert_entry(&mut self, entry: CommandProxy)
        requires
            old(self).wf(),
            entry.library@ == old(self).library_name@,
            entry.is_alias ==> entry.aliases.len() == 0,
        ensures
            final(self).library_name == old(self).library_name,
            final(self).wf(),
            lookup(final(self).commands@, entry.name@) == Some(entry),
            forall|x: Seq<char>|
                x != entry.name@ ==> lookup(final(self).commands@, x) == lookup(
                    old(self).commands@,
                    x,
                ),
    {
        let ghost pre = self.commands@;
        let mut i: usize = 0;
        while i < self.commands.len()
            invariant
                *self == *old(self),
                old(self).wf(),
                entry.library@ == old(self).library_name@,
                entry.is_alias ==> entry.aliases.len() == 0,
                pre == self.commands@,
                0 <= i <= self.commands@.len(),
                forall|j: int| 0 <= j < i ==> (#[trigger] pre[j]).name@ != entry.name@,
            decreases self.commands@.len() - i,
        {
            if self.commands[i].name == entry.name {
                let ghost idx = i as int;
                self.commands.set(i, entry);
                proof {
                    let s1 = self.commands@;
                    assert forall|a: int, b: int|
                        #![trigger s1[a], s1[b]]
                        0 <= a < b < s1.len() implies s1[a].name@ != s1[b].name@ by {
                        if a != idx {
                            assert(s1[a] == pre[a]);
                        }
                        if b != idx {
                            assert(s1[b] == pre[b]);
                        }
                        assert(entry.name@ == pre[idx].name@);
                    }
                    assert forall|a: int| 0 <= a < s1.len() implies ((#[trigger] s1[a]).library@
                        == self.library_name@ && (s1[a].is_alias ==> s1[a].aliases.len() == 0)) by {
                        if a != idx {
                            assert(s1[a] == pre[a]);
                        }
                    }
                    assert forall|j: int| 0 <= j < idx implies (#[trigger] self.commands@[j]).name@
                        != entry.name@ by {
                        assert(self.commands@[j] == pre[j]);
                    }
                    lemma_find_skip(self.commands@, entry.name@, 0, idx);
                    assert(find_from(self.commands@, entry.name@, idx) == Some(entry));
                    assert forall|x: Seq<char>| x != entry.name@ implies lookup(
                        self.commands@,
                        x,
                    ) == lookup(pre, x) by {
                        lemma_find_update_other(pre, idx, entry, x, 0);
                    }
                }
                return;
            }
            i = i + 1;
        }
        proof {
            lemma_find_skip(self.commands@, entry.name@, 0, self.commands@.len() as int);
        }
        let ghost before = self.commands@;
        self.commands.push(entry);
        proof {
            lemma_find_push(before, entry, entry.name@, 0);
            assert forall|x: Seq<char>| x != entry.name@ implies lookup(self.commands@, x)
                == lookup(before, x) by {
                lemma_find_push(before, entry, x, 0);
            }
        }
    }

    /// Position of the entry serving `name`, if the registry has one.
    pub fn index_of(&self, name: &str) -> (r: Option<usize>)
        ensures
            match r {
                Some(i) => i < self.commands@.len() && self.commands@[i as int].name@ == name@
                    && lookup(self.commands@, name@) == Some(self.commands@[i as int]),
                None => lookup(self.commands@, name@) is None,
            },
    {
        let mut i: usize = 0;
        while i < self.commands.len()
            invariant
                0 <= i <= self.commands@.len(),
                forall|j: int| 0 <= j < i ==> (#[trigger] self.commands@[j]).name@ != name@,
            decreases self.commands@.len() - i,
        {
            if str_eq(self.commands[i].name.as_str(), name) {
                proof {
                    lemma_find_skip(self.commands@, name@, 0, i as int);
                }
                return Some(i);
            }
            i = i + 1;
        }
        proof {
            lemma_find_skip(self.commands@, name@, 0, self.commands@.len() as int);
        }
        None
    }

    /// The single operation a plugin may perform during registration: record
    /// an implementation handle under its canonical name, and under each
    /// alias as a separate alias-marked entry with an empty alias list.  The
    /// canonical entry is inserted last, so an alias that collides with the
    /// canonical name yields to it.
    pub fn register_command(&mut self, name: String, aliases: Vec<String>, command: u64)
        requires
            old(self).wf(),
        ensures
            final(self).library_name == old(self).library_name,
            final(self).wf(),
            lookup(final(self).commands@, name@) matches Some(e) && e.name == name
                && e.command == command && !e.is_alias && e.aliases == aliases
                && e.library@ == old(self).library_name@,
            forall|k: int|
                0 <= k < aliases@.len() && aliases@[k]@ != name@ ==> (lookup(
                    final(self).commands@,
                    aliases@[k]@,
                ) matches Some(e) && e.name@ == aliases@[k]@ && e.command == command && e.is_alias
                    && e.aliases@.len() == 0 && e.library@ == old(self).library_name@),
            forall|x: Seq<char>|
                x != name@ && (forall|k: int| 0 <= k < aliases@.len() ==> aliases@[k]@ != x)
                    ==> lookup(final(self).commands@, x) == lookup(old(self).commands@, x),
    {
        let ghost lib0 = self.library_name@;
        let ghost pre = self.commands@;
        let mut k: usize = 0;
        while k < aliases.len()
            invariant
                self.wf(),
                self.library_name == old(self).library_name,
                lib0 == self.library_name@,
                pre == old(self).commands@,
                0 <= k <= aliases@.len(),
                forall|j: int|
                    0 <= j < k ==> (lookup(self.commands@, (#[trigger] aliases@[j])@)
                        matches Some(e) && e.name@ == aliases@[j]@ && e.command == command
                        && e.is_alias && e.aliases@.len() == 0 && e.library@ == lib0),
                forall|x: Seq<char>|
                    (forall|j: int| 0 <= j < k ==> aliases@[j]@ != x) ==> lookup(
                        self.commands@,
                        x,
                    ) == lookup(pre, x),
            decreases aliases@.len() - k,
        {
            let alias_entry = CommandProxy {
                name: aliases[k].clone(),
                command,
                library: self.library_name.clone(),
                aliases: Vec::new(),
                is_alias: true,
            };
            self.insert_entry(alias_entry);
            k = k + 1;
        }
        let canonical = CommandProxy {
            name,
            command,
            library: self.library_name.clone(),
            aliases,
            is_alias: false,
        };
        self.insert_entry(canonical);
    }
}

} // verus!
