//! The server: the registry of shared files, and the session that every
//! data-plane connection runs against it.

use vstd::prelude::*;

verus! {

/// One shared file: the name peers ask for, and where it lies.
#[derive(Debug, Clone, PartialEq, Eq)]
pub struct FileEntry {
    pub name: String,
    pub path: String,
}

/// No two entries carry the same name.
pub open spec fn names_distinct(entries: Seq<FileEntry>) -> bool {
    forall|i: int, j: int|
        0 <= i < j < entries.len() ==> (#[trigger] entries[i]).name@ != (#[trigger] entries[j]).name@
}

/// Some entry carries `name`.
pub open spec fn holds_name(entries: Seq<FileEntry>, name: Seq<char>) -> bool {
    exists|i: int| 0 <= i < entries.len() && (#[trigger] entries[i]).name@ == name
}

/// The place of an entry that carries `name`.
pub open spec fn position_of(entries: Seq<FileEntry>, name: Seq<char>) -> int {
    choose|i: int| 0 <= i < entries.len() && (#[trigger] entries[i]).name@ == name
}

/// The mapping from name to path that a list of entries stands for.
pub open spec fn entries_map(entries: Seq<FileEntry>) -> Map<Seq<char>, Seq<char>> {
    Map::new(
        |name: Seq<char>| holds_name(entries, name),
        |name: Seq<char>| entries[position_of(entries, name)].path@,
    )
}

/// The names of a list of entries, in order.
pub open spec fn entry_names(entries: Seq<FileEntry>) -> Seq<Seq<char>> {
    Seq::new(entries.len(), |i: int| entries[i].name@)
}

/// `names` lists every name of `registry`, each once.
pub open spec fn names_cover(names: Seq<String>, registry: Map<Seq<char>, Seq<char>>) -> bool {
    &&& forall|n: Seq<char>|
        registry.contains_key(n) <==> exists|k: int|
            0 <= k < names.len() && (#[trigger] names[k])@ == n
    &&& forall|a: int, b: int|
        0 <= a < b < names.len() ==> (#[trigger] names[a])@ != (#[trigger] names[b])@
}

/// What an optional string says, as a value.
pub open spec fn option_text(text: Option<String>) -> Option<Seq<char>> {
    match text {
        Some(s) => Some(s@),
        None => None,
    }
}

/// In a list with distinct names, each entry is what the mapping holds
/// under its name.
pub proof fn lemma_entry_in_map(entries: Seq<FileEntry>, i: int)
    requires
        names_distinct(entries),
        0 <= i < entries.len(),
    ensures
        entries_map(entries).contains_key(entries[i].name@),
        entries_map(entries)[entries[i].name@] == entries[i].path@,
        position_of(entries, entries[i].name@) == i,
{
    let name = entries[i].name@;
    assert(holds_name(entries, name));
    let k = position_of(entries, name);
    assert(0 <= k < entries.len() && entries[k].name@ == name);
    if k < i {
        assert(entries[k].name@ != entries[i].name@);
    }
    if i < k {
        assert(entries[i].name@ != entries[k].name@);
    }
}

/// One change to the registry, as the mapping sees it.
pub ghost enum RegistryOp {
    Add { name: Seq<char>, path: Seq<char> },
    Delete { name: Seq<char> },
}

impl RegistryOp {
    /// The name that the change is about.
    pub open spec fn name(self) -> Seq<char> {
        match self {
            RegistryOp::Add { name, .. } => name,
            RegistryOp::Delete { name } => name,
        }
    }
}

/// The registry after one change: what `add_file` and `remove_file` do.
pub open spec fn apply_op(registry: Map<Seq<char>, Seq<char>>, op: RegistryOp) -> Map<
    Seq<char>,
    Seq<char>,
> {
    match op {
        RegistryOp::Add { name, path } => registry.insert(name, path),
        RegistryOp::Delete { name } => registry.remove(name),
    }
}

/// The registry after a run of changes, applied in order.
pub open spec fn replay(start: Map<Seq<char>, Seq<char>>, ops: Seq<RegistryOp>) -> Map<
    Seq<char>,
    Seq<char>,
>
    decreases ops.len(),
{
    if ops.len() == 0 {
        start
    } else {
        apply_op(replay(start, ops.drop_last()), ops.last())
    }
}

/// Whether `ops[i]` is the last change that is about `name`.
pub open spec fn is_last_write(ops: Seq<RegistryOp>, name: Seq<char>, i: int) -> bool {
    &&& 0 <= i < ops.len()
    &&& ops[i].name() == name
    &&& forall|j: int| i < j < ops.len() ==> (#[trigger] ops[j]).name() != name
}

/// Last write wins, name by name: after any run of changes a name is
/// shared exactly if the last change about it was an `Add`, with that
/// change's path; a name that no change is about stays as it was.
pub proof fn lemma_replay_last_write_wins(
    start: Map<Seq<char>, Seq<char>>,
    ops: Seq<RegistryOp>,
    name: Seq<char>,
)
    ensures
        (forall|i: int| 0 <= i < ops.len() ==> (#[trigger] ops[i]).name() != name) ==> (replay(
            start,
            ops,
        ).contains_key(name) <==> start.contains_key(name)) && (start.contains_key(name)
            ==> replay(start, ops)[name] == start[name]),
        forall|i: int| #[trigger]
            is_last_write(ops, name, i) ==> match ops[i] {
                RegistryOp::Add { path, .. } => replay(start, ops).contains_key(name) && replay(
                    start,
                    ops,
                )[name] == path,
                RegistryOp::Delete { .. } => !replay(start, ops).contains_key(name),
            },
    decreases ops.len(),
{
    if ops.len() > 0 {
        let init = ops.drop_last();
        let last = ops.last();
        lemma_replay_last_write_wins(start, init, name);
        assert forall|i: int| 0 <= i < init.len() implies #[trigger] init[i] == ops[i] by {}
        if last.name() != name {
            assert forall|i: int| #[trigger] is_last_write(ops, name, i) implies is_last_write(
                init,
                name,
                i,
            ) by {
                assert forall|j: int| i < j < init.len() implies (#[trigger] init[j]).name()
                    != name by {
                    assert(init[j] == ops[j]);
                }
            }
            if forall|i: int| 0 <= i < ops.len() ==> (#[trigger] ops[i]).name() != name {
                assert forall|i: int| 0 <= i < init.len() implies (#[trigger] init[i]).name()
                    != name by {
                    assert(init[i] == ops[i]);
                }
            }
        } else {
            assert forall|i: int| #[trigger] is_last_write(ops, name, i) implies i == ops.len()
                - 1 by {
                if i < ops.len() - 1 {
                    assert(ops[ops.len() - 1].name() != name);
                }
            }
            assert(ops[ops.len() - 1].name() == name);
        }
    }
}

/// The server's own state: the password it asks of peers, and the
/// registry of the files it shares.
pub struct Server {
    password: Option<String>,
    files: Vec<FileEntry>,
}

impl Server {
    /// The registry as a mapping from name to path.
    pub closed spec fn view(&self) -> Map<Seq<char>, Seq<char>> {
        entries_map(self.files@)
    }

    /// The entries in the order in which their names first came.
    pub closed spec fn entries(&self) -> Seq<FileEntry> {
        self.files@
    }

    /// The configured password.
    pub closed spec fn password(&self) -> Option<Seq<char>> {
        option_text(self.password)
    }

    /// Names are unique in the registry.
    pub closed spec fn wf(&self) -> bool {
        names_distinct(self.files@)
    }

    /// The view is the mapping of the entries, whose names are distinct.
    pub proof fn lemma_view_of_entries(&self)
        requires
            self.wf(),
        ensures
            self@ == entries_map(self.entries()),
            names_distinct(self.entries()),
    {
    }

    /// A server with the given password and an empty registry.
    pub fn new(password: Option<String>) -> (server: Self)
        ensures
            server.wf(),
            server@ == Map::<Seq<char>, Seq<char>>::empty(),
            server.entries() == Seq::<FileEntry>::empty(),
            server.password() == option_text(password),
    {
        let server = Server { password, files: Vec::new() };
        assert(server@ =~= Map::<Seq<char>, Seq<char>>::empty());
        server
    }

    /// Whether `given` is the configured password. Only an identical value
    /// matches; where none is configured, only a peer that sends none.
    pub fn password_matches(&self, given: &Option<String>) -> (matches: bool)
        ensures
            matches == (option_text(*given) == self.password()),
    {
        match (&self.password, given) {
            (Some(own), Some(sent)) => *own == *sent,
            (None, None) => true,
            _ => false,
        }
    }

    /// Where the entry named `name` stands, if there is one.
    fn find(&self, name: &String) -> (found: Option<usize>)
        requires
            self.wf(),
        ensures
            match found {
                Some(i) => i < self.files@.len() && self.files@[i as int].name@ == name@,
                None => !holds_name(self.files@, name@),
            },
    {
        let mut i: usize = 0;
        while i < self.files.len()
            invariant
                i <= self.files@.len(),
                forall|k: int| 0 <= k < i ==> (#[trigger] self.files@[k]).name@ != name@,
            decreases self.files@.len() - i,
        {
            if self.files[i].name == *name {
                return Some(i);
            }
            i += 1;
        }
        None
    }

    /// Shares `path` under `name`. A name that is already shared points
    /// to the new path from now on.
    pub fn add_file(&mut self, name: String, path: String)
        requires
            old(self).wf(),
        ensures
            final(self).wf(),
            final(self)@ == old(self)@.insert(name@, path@),
            final(self).password() == old(self).password(),
    {
        let found = self.find(&name);
        let ghost before = self.files@;
        let ghost key = name@;
        let ghost value = path@;
        match found {
            Some(i) => {
                self.files.set(i, FileEntry { name, path });
            },
            None => {
                self.files.push(FileEntry { name, path });
            },
        }
        proof {
            let after = self.files@;
            let at: int = match found {
                Some(i) => i as int,
                None => before.len() as int,
            };
            assert(after[at].name@ == key && after[at].path@ == value);
            assert forall|i: int, j: int| 0 <= i < j < after.len() implies (#[trigger] after[i]).name@
                != (#[trigger] after[j]).name@ by {
                if i != at && j != at {
                    assert(after[i] == before[i] && after[j] == before[j]);
                } else if i == at {
                    assert(after[j] == before[j]);
                    if found is Some {
                        assert(before[i].name@ != before[j].name@);
                    }
                } else {
                    assert(after[i] == before[i]);
                    if found is Some {
                        assert(before[i].name@ != before[j].name@);
                    }
                }
            }
            assert forall|n: Seq<char>|
                entries_map(after).contains_key(n) <==> #[trigger] entries_map(before).insert(
                    key,
                    value,
                ).contains_key(n) by {
                if holds_name(after, n) && n != key {
                    let k = position_of(after, n);
                    assert(after[k] == before[k]);
                }
                if holds_name(before, n) && n != key {
                    let k = position_of(before, n);
                    assert(after[k] == before[k]);
                }
            }
            assert forall|n: Seq<char>| #[trigger]
                entries_map(after).contains_key(n) implies entries_map(after)[n] == entries_map(
                before,
            ).insert(key, value)[n] by {
                let k = position_of(after, n);
                lemma_entry_in_map(after, k);
                if n != key {
                    assert(after[k] == before[k]);
                    lemma_entry_in_map(before, k);
                } else {
                    lemma_entry_in_map(after, at);
                }
            }
            assert(entries_map(after) =~= entries_map(before).insert(key, value));
        }
    }

    /// Stops sharing `name`. A name that is not shared changes nothing.
    pub fn remove_file(&mut self, name: &str)
        requires
            old(self).wf(),
        ensures
            final(self).wf(),
            final(self)@ == old(self)@.remove(name@),
            !old(self)@.contains_key(name@) ==> final(self)@ == old(self)@ && final(self).entries()
                == old(self).entries(),
            final(self).password() == old(self).password(),
    {
        let owned: String = name.to_owned();
        let found = self.find(&owned);
        let ghost before = self.files@;
        let ghost key = name@;
        match found {
            Some(i) => {
                self.files.remove(i);
                proof {
                    let after = self.files@;
                    let at = i as int;
                    assert forall|k: int| 0 <= k < after.len() implies #[trigger] after[k] == before[if k
                        < at {
                        k
                    } else {
                        k + 1
                    }] by {}
                    assert forall|a: int, b: int| 0 <= a < b < after.len() implies (#[trigger] after[a]).name@
                        != (#[trigger] after[b]).name@ by {
                        let a0 = if a < at { a } else { a + 1 };
                        let b0 = if b < at { b } else { b + 1 };
                        assert(after[a] == before[a0] && after[b] == before[b0]);
                        assert(before[a0].name@ != before[b0].name@);
                    }
                    assert forall|n: Seq<char>|
                        entries_map(after).contains_key(n) <==> #[trigger] entries_map(before).remove(
                            key,
                        ).contains_key(n) by {
                        if holds_name(after, n) {
                            let k = position_of(after, n);
                            let k0 = if k < at { k } else { k + 1 };
                            assert(after[k] == before[k0]);
                            assert(before[k0].name@ != before[at].name@) by {
                                if k0 < at {
                                    assert(before[k0].name@ != before[at].name@);
                                } else {
                                    assert(before[at].name@ != before[k0].name@);
                                }
                            }
                        }
                        if holds_name(before, n) && n != key {
                            let k0 = position_of(before, n);
                            let k = if k0 < at { k0 } else { k0 - 1 };
                            assert(after[k] == before[k0]);
                        }
                    }
                    assert forall|n: Seq<char>| #[trigger]
                        entries_map(after).contains_key(n) implies entries_map(after)[n]
                        == entries_map(before).remove(key)[n] by {
                        let k = position_of(after, n);
                        let k0 = if k < at { k } else { k + 1 };
                        lemma_entry_in_map(after, k);
                        assert(after[k] == before[k0]);
                        lemma_entry_in_map(before, k0);
                    }
                    assert(entries_map(after) =~= entries_map(before).remove(key));
                }
            },
            None => {
                assert(entries_map(before).remove(key) =~= entries_map(before));
            },
        }
    }

    /// The path shared under `name`, if the name is shared.
    pub fn lookup(&self, name: &str) -> (path: Option<String>)
        requires
            self.wf(),
        ensures
            self@.contains_key(name@) <==> path is Some,
            path matches Some(p) ==> p@ == self@[name@],
    {
        let owned: String = name.to_owned();
        match self.find(&owned) {
            Some(i) => {
                proof {
                    lemma_entry_in_map(self.files@, i as int);
                }
                Some(self.files[i].path.clone())
            },
            None => None,
        }
    }

    /// A snapshot of every shared file: each name once, with its path.
    pub fn list_files(&self) -> (listing: Vec<FileEntry>)
        requires
            self.wf(),
        ensures
            names_distinct(listing@),
            entries_map(listing@) == self@,
            entry_names(listing@) == entry_names(self.entries()),
    {
        let mut listing: Vec<FileEntry> = Vec::new();
        let mut i: usize = 0;
        while i < self.files.len()
            invariant
                i <= self.files@.len(),
                listing@.len() == i,
                forall|k: int|
                    0 <= k < i ==> (#[trigger] listing@[k]).name@ == self.files@[k].name@
                        && listing@[k].path@ == self.files@[k].path@,
            decreases self.files@.len() - i,
        {
            let entry = FileEntry {
                name: self.files[i].name.clone(),
                path: self.files[i].path.clone(),
            };
            listing.push(entry);
            i += 1;
        }
        proof {
            lemma_same_texts_same_map(listing@, self.files@);
            assert(entry_names(listing@) =~= entry_names(self.files@));
        }
        listing
    }

    /// The names of every shared file, each once.
    pub fn list_names(&self) -> (names: Vec<String>)
        requires
            self.wf(),
        ensures
            names@.len() == self.entries().len(),
            forall|k: int|
                0 <= k < names@.len() ==> (#[trigger] names@[k])@ == entry_names(self.entries())[k],
            names_cover(names@, self@),
    {
        let mut names: Vec<String> = Vec::new();
        let mut i: usize = 0;
        while i < self.files.len()
            invariant
                i <= self.files@.len(),
                names@.len() == i,
                forall|k: int| 0 <= k < i ==> (#[trigger] names@[k])@ == self.files@[k].name@,
            decreases self.files@.len() - i,
        {
            names.push(self.files[i].name.clone());
            i += 1;
        }
        proof {
            assert forall|n: Seq<char>| self@.contains_key(n) implies exists|k: int| 0 <= k < names@.len() && (#[trigger] names@[k])@ == n by {
                let k = position_of(self.files@, n);
                assert(names@[k]@ == n);
            }
            assert forall|n: Seq<char>| (exists|k: int| 0 <= k < names@.len() && (#[trigger] names@[k])@ == n) implies self@.contains_key(n) by {
                let k = choose|k: int| 0 <= k < names@.len() && (#[trigger] names@[k])@ == n;
                assert(self.files@[k].name@ == n);
            }
            assert forall|a: int, b: int| 0 <= a < b < names@.len() implies (#[trigger] names@[a])@ != (#[trigger] names@[b])@ by {
                assert(self.files@[a].name@ != self.files@[b].name@);
            }
        }
        names
    }
}

/// Two lists whose entries agree in name and path, place by place, stand
/// for the same mapping, and one has distinct names if the other has.
pub proof fn lemma_same_texts_same_map(a: Seq<FileEntry>, b: Seq<FileEntry>)
    requires
        a.len() == b.len(),
        names_distinct(b),
        forall|k: int|
            0 <= k < a.len() ==> (#[trigger] a[k]).name@ == b[k].name@ && a[k].path@ == b[k].path@,
    ensures
        names_distinct(a),
        entries_map(a) == entries_map(b),
{
    assert forall|i: int, j: int| 0 <= i < j < a.len() implies (#[trigger] a[i]).name@ != (
    #[trigger] a[j]).name@ by {
        assert(b[i].name@ != b[j].name@);
    }
    assert forall|n: Seq<char>| entries_map(a).contains_key(n) <==> #[trigger] entries_map(
        b,
    ).contains_key(n) by {
        if holds_name(a, n) {
            let k = position_of(a, n);
            assert(b[k].name@ == n);
        }
        if holds_name(b, n) {
            let k = position_of(b, n);
            assert(a[k].name@ == n);
        }
    }
    assert forall|n: Seq<char>| #[trigger] entries_map(a).contains_key(n) implies entries_map(a)[n]
        == entries_map(b)[n] by {
        let k = position_of(a, n);
        lemma_entry_in_map(a, k);
        assert(b[k].name@ == n);
        lemma_entry_in_map(b, k);
    }
    assert(entries_map(a) =~= entries_map(b));
}

} // verus!
