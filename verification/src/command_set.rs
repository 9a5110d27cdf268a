//! A set of commands, each found by its name.

use vstd::prelude::*;
use crate::command::BaseCommand;
use crate::command::Command;
use crate::error::ShiError;
use crate::text::chars_of;
use crate::text::same_chars;
use crate::text::sort_names;

verus! {

/// Commands under names of which none occurs twice. The commands stay in
/// the order in which they were added.
#[verifier::reject_recursive_types(S)]
pub struct CommandSet<'a, S> {
    names: Vec<String>,
    cmds: Vec<Box<Command<'a, S>>>,
}

/// Walks the commands of a set, in the order in which they were added.
#[verifier::reject_recursive_types(S)]
pub struct CommandSetIterator<'b, 'a, S> {
    set: &'b CommandSet<'a, S>,
    next: usize,
}

impl<'a, S> CommandSet<'a, S> {
    #[verifier::type_invariant]
    spec fn unique_names(&self) -> bool {
        &&& self.names@.len() == self.cmds@.len()
        &&& self.names.deep_view().no_duplicates()
        &&& forall|i: int|
            0 <= i < self.cmds@.len() ==> (#[trigger] self.names@[i])@ == self.cmds@[i].spec_name()
    }

    /// The names of the commands of the set, in the order in which they
    /// were added.
    pub closed spec fn keys(&self) -> Seq<Seq<char>> {
        self.names.deep_view()
    }

    /// The commands of the set, each at the place of its name in `keys`.
    pub closed spec fn entries(&self) -> Seq<Command<'a, S>> {
        Seq::new(self.cmds@.len(), |i: int| *self.cmds@[i])
    }

    /// What every set keeps: each command under its own name, and no name
    /// twice.
    pub open spec fn well_formed(&self) -> bool {
        &&& self.keys().len() == self.entries().len()
        &&& self.keys().no_duplicates()
        &&& forall|i: int|
            0 <= i < self.keys().len() ==> #[trigger] self.keys()[i] == self.entries()[i].spec_name()
    }

    /// Whether the set holds a command of this name.
    pub open spec fn has(&self, name: Seq<char>) -> bool {
        self.keys().contains(name)
    }

    /// The command of this name, if the set holds one.
    pub open spec fn spec_get(&self, name: Seq<char>) -> Option<Command<'a, S>> {
        if self.has(name) {
            Some(self.entries()[self.keys().index_of(name)])
        } else {
            None
        }
    }

    /// The set as a map from names to commands.
    pub open spec fn view(&self) -> Map<Seq<char>, Command<'a, S>> {
        Map::new(|name: Seq<char>| self.has(name), |name: Seq<char>| self.spec_get(name)->0)
    }

    /// The set that `add` leaves behind where the name of the command is new:
    /// the command stands at the end, under its name.
    pub open spec fn extended(&self, before: Self, cmd: Command<'a, S>) -> bool {
        &&& self.keys() == before.keys().push(cmd.spec_name())
        &&& self.entries() == before.entries().push(cmd)
    }

    /// What `add` does: a command whose name the set holds already is
    /// refused with `AlreadyRegistered` and the set stays as it was; a
    /// command with a new name is added.
    pub open spec fn add_result(
        before: Self,
        after: Self,
        r: Result<(), ShiError>,
        cmd: Command<'a, S>,
    ) -> bool {
        if before.has(cmd.spec_name()) {
            &&& after == before
            &&& r matches Err(ShiError::AlreadyRegistered { cmd: refused })
            &&& refused@ == cmd.spec_name()
        } else {
            &&& r is Ok
            &&& after.extended(before, cmd)
        }
    }

    /// The names of the given commands.
    pub open spec fn names_of(cmds: Seq<Command<'a, S>>) -> Seq<Seq<char>> {
        Seq::new(cmds.len(), |i: int| cmds[i].spec_name())
    }

    /// The commands that are kept when `cmds` are added one after another: a
    /// command whose name an earlier one has taken is left out.
    pub open spec fn gathered(cmds: Seq<Command<'a, S>>) -> Seq<Command<'a, S>>
        decreases cmds.len(),
    {
        if cmds.len() == 0 {
            Seq::empty()
        } else {
            let kept = Self::gathered(cmds.drop_last());
            if Self::names_of(kept).contains(cmds.last().spec_name()) {
                kept
            } else {
                kept.push(cmds.last())
            }
        }
    }

    /// Whether the set is what comes of adding `cmds` one after another.
    pub open spec fn holds_all(&self, cmds: Seq<Command<'a, S>>) -> bool {
        &&& self.entries() == Self::gathered(cmds)
        &&& self.keys() == Self::names_of(Self::gathered(cmds))
    }

    /// The map of a well-formed set has the names of the set for its keys,
    /// and as many of them as the set has names.
    pub proof fn lemma_view_of_keys(&self)
        requires
            self.well_formed(),
        ensures
            self@.dom() == self.keys().to_set(),
            self@.dom().finite(),
            self@.len() == self.keys().len(),
            forall|i: int|
                0 <= i < self.keys().len() ==> self@[#[trigger] self.keys()[i]]
                    == self.entries()[i],
    {
        assert(self@.dom() =~= self.keys().to_set());
        self.keys().unique_seq_to_set();
        vstd::seq_lib::seq_to_set_is_finite(self.keys());
        assert forall|i: int| 0 <= i < self.keys().len() implies self@[#[trigger] self.keys()[i]]
            == self.entries()[i] by {
            let j = self.keys().index_of(self.keys()[i]);
            assert(self.keys()[j] == self.keys()[i]);
        }
    }

    /// In terms of maps, `insert` under a new name is the insertion into a
    /// map.
    pub proof fn lemma_extended_view(&self, before: Self, cmd: Command<'a, S>)
        requires
            before.well_formed(),
            !before.has(cmd.spec_name()),
            self.extended(before, cmd),
        ensures
            self.well_formed(),
            self@ == before@.insert(cmd.spec_name(), cmd),
    {
        let name = cmd.spec_name();
        let keys = self.keys();
        let n = before.keys().len() as int;
        assert forall|i: int, j: int|
            0 <= i < keys.len() && 0 <= j < keys.len() && i != j implies keys[i] != keys[j] by {
            if i < n {
                assert(before.keys()[i] == keys[i]);
            }
            if j < n {
                assert(before.keys()[j] == keys[j]);
            }
        }
        assert forall|i: int| 0 <= i < keys.len() implies #[trigger] keys[i]
            == self.entries()[i].spec_name() by {
            if i < n {
                assert(before.keys()[i] == keys[i]);
            }
        }
        assert forall|k: Seq<char>| self.has(k) <==> (before.has(k) || k == name) by {
            if before.has(k) {
                let i = before.keys().index_of(k);
                assert(keys[i] == k);
            }
            if k == name {
                assert(keys[n] == k);
            }
            if self.has(k) {
                let i = keys.index_of(k);
                if i < n {
                    assert(before.keys()[i] == k);
                }
            }
        }
        assert forall|k: Seq<char>| self.has(k) implies #[trigger] self@[k] == before@.insert(
            name,
            cmd,
        )[k] by {
            let i = keys.index_of(k);
            assert(keys[i] == k);
            if k == name {
                assert(keys[n] == name);
            } else {
                assert(before.keys()[i] == k);
                let j = before.keys().index_of(k);
                assert(before.keys()[j] == k);
            }
        }
        assert(self@ =~= before@.insert(name, cmd));
    }

    /// Each command of a set is a smaller value than the set.
    pub proof fn lemma_entry_decreases(&self, i: int)
        requires
            0 <= i < self.entries().len(),
        ensures
            decreases_to!(*self => self.entries()[i]),
    {
        assert(decreases_to!(*self => self.cmds));
        assert(decreases_to!(self.cmds => self.cmds@[i]));
    }

    /// Registering a name twice: whatever the first `add` of a command did,
    /// a second `add` of a command of the same name is refused with
    /// `AlreadyRegistered` and leaves the set as it was, so that the set
    /// does not grow.
    pub proof fn lemma_second_add_refused(
        before: Self,
        between: Self,
        after: Self,
        first: Result<(), ShiError>,
        second: Result<(), ShiError>,
        cmd: Command<'a, S>,
        again: Command<'a, S>,
    )
        requires
            Self::add_result(before, between, first, cmd),
            Self::add_result(between, after, second, again),
            again.spec_name() == cmd.spec_name(),
        ensures
            second matches Err(ShiError::AlreadyRegistered { cmd: refused }) && refused@
                == cmd.spec_name(),
            after == between,
            after.keys().len() == between.keys().len(),
    {
        if !before.has(cmd.spec_name()) {
            assert(between.keys()[before.keys().len() as int] == cmd.spec_name());
        }
    }

    /// An empty set.
    pub fn new() -> (set: Self)
        ensures
            set.keys().len() == 0,
            set.entries().len() == 0,
            set@ == Map::<Seq<char>, Command<'a, S>>::empty(),
    {
        let set = CommandSet { names: Vec::new(), cmds: Vec::new() };
        assert(set.names.deep_view() =~= Seq::<Seq<char>>::empty());
        assert(set@ =~= Map::<Seq<char>, Command<'a, S>>::empty());
        set
    }

    /// The place of `name` among the names, if it is there.
    fn position(&self, name: &str) -> (r: Option<usize>)
        ensures
            self.well_formed(),
            match r {
                Some(i) => i < self.keys().len() && self.keys()[i as int] == name@
                    && self.keys().index_of(name@) == i,
                None => !self.has(name@),
            },
    {
        proof {
            use_type_invariant(self);
        }
        let target = chars_of(name);
        let mut i: usize = 0;
        while i < self.names.len()
            invariant
                i <= self.names@.len(),
                target@ == name@,
                self.well_formed(),
                forall|k: int| 0 <= k < i ==> self.names.deep_view()[k] != name@,
            decreases self.names@.len() - i,
        {
            let here = chars_of(self.names[i].as_str());
            if same_chars(&here, &target) {
                proof {
                    let keys = self.names.deep_view();
                    assert(keys[i as int] == name@);
                    assert(keys.contains(name@));
                    let j = keys.index_of(name@);
                    assert(keys[j] == name@);
                }
                return Some(i);
            }
            i += 1;
        }
        None
    }

    /// Adds `cmd` under its name. A command whose name the set holds
    /// already is refused, and the set stays as it was.
    pub fn add(&mut self, cmd: Command<'a, S>) -> (r: Result<(), ShiError>)
        ensures
            final(self).well_formed(),
            Self::add_result(*old(self), *final(self), r, cmd),
            r is Ok ==> final(self)@ == old(self)@.insert(cmd.spec_name(), cmd),
            r is Err ==> old(self)@.contains_key(cmd.spec_name()),
    {
        let name = String::from_str(cmd.name());
        if self.position(name.as_str()).is_some() {
            return Err(ShiError::AlreadyRegistered { cmd: name });
        }
        proof {
            use_type_invariant(&*self);
        }
        let mut taken = CommandSet::new();
        core::mem::swap(self, &mut taken);
        let CommandSet { names, cmds } = taken;
        let mut names = names;
        let mut cmds = cmds;
        let ghost old_names = names;
        let ghost old_cmds = cmds;
        names.push(name);
        cmds.push(Box::new(cmd));
        proof {
            crate::text::lemma_deep_view_push(old_names, names, name);
            let keys = names.deep_view();
            assert forall|i: int, j: int|
                0 <= i < keys.len() && 0 <= j < keys.len() && i != j implies keys[i] != keys[j] by {
                if i < old_names@.len() {
                    assert(old_names.deep_view()[i] == keys[i]);
                }
                if j < old_names@.len() {
                    assert(old_names.deep_view()[j] == keys[j]);
                }
            }
            assert forall|i: int| 0 <= i < cmds@.len() implies (#[trigger] names@[i])@
                == cmds@[i].spec_name() by {
                if i < old_cmds@.len() {
                    assert(names@[i] == old_names@[i]);
                    assert(cmds@[i] == old_cmds@[i]);
                }
            }
        }
        *self = CommandSet { names, cmds };
        assert(self.entries() =~= old(self).entries().push(cmd));
        proof {
            self.lemma_extended_view(*old(self), cmd);
        }
        Ok(())
    }

    /// The set of the given commands, added one after another. A command
    /// whose name is taken by an earlier one is left out.
    pub fn new_from_vec(cmds: Vec<Command<'a, S>>) -> (set: Self)
        ensures
            set.well_formed(),
            set.holds_all(cmds@),
    {
        let mut set = CommandSet::new();
        let ghost all = cmds@;
        assert(all.take(0) =~= Seq::<Command<'a, S>>::empty());
        assert(set.keys() =~= Self::names_of(Self::gathered(all.take(0))));
        assert(set.entries() =~= Self::gathered(all.take(0)));
        for cmd in it: cmds
            invariant
                it.seq() == all,
                set.well_formed(),
                set.holds_all(all.take(it.index() as int)),
        {
            let ghost before = set;
            let ghost done = all.take(it.index() as int);
            let _ = set.add(cmd);
            proof {
                let next = all.take(it.index() + 1);
                assert(next.drop_last() =~= done);
                assert(next.last() == cmd);
                if !before.has(cmd.spec_name()) {
                    assert(set.keys() =~= Self::names_of(Self::gathered(next)));
                }
            }
        }
        assert(all.take(all.len() as int) =~= all);
        set
    }

    /// The command of the given name, if the set holds one.
    pub fn get(&self, name: &str) -> (r: Option<&Box<Command<'a, S>>>)
        ensures
            self.well_formed(),
            match r {
                Some(cmd) => self.spec_get(name@) == Some(**cmd) && self@.contains_key(name@)
                    && self@[name@] == **cmd && cmd.spec_name() == name@,
                None => self.spec_get(name@) is None && !self@.contains_key(name@),
            },
    {
        proof {
            use_type_invariant(self);
        }
        match self.position(name) {
            Some(i) => Some(&self.cmds[i]),
            None => None,
        }
    }

    /// Whether the set holds a command of the given name.
    pub fn contains(&self, name: &str) -> (r: bool)
        ensures
            r == self.has(name@),
            r == self@.contains_key(name@),
    {
        self.position(name).is_some()
    }

    /// How many commands the set holds.
    pub fn len(&self) -> (n: usize)
        ensures
            n == self.keys().len(),
            n == self@.len(),
            self.well_formed(),
    {
        proof {
            use_type_invariant(self);
            self.lemma_view_of_keys();
        }
        self.names.len()
    }

    /// The names of the commands, in alphabetical order.
    pub fn names(&self) -> (names: Vec<String>)
        ensures
            names.deep_view() == crate::text::sorted(self.keys()),
            crate::text::ascending(names.deep_view()),
            names.deep_view().to_multiset() == self.keys().to_multiset(),
            names.deep_view().to_set() == self@.dom(),
            names.deep_view().no_duplicates(),
    {
        let names = sort_names(&self.names);
        proof {
            use_type_invariant(self);
            crate::text::lemma_sorted_ascending(self.keys());
            crate::text::lemma_sorted_permutes(self.keys());
            self.lemma_view_of_keys();
            crate::text::lemma_same_names(names.deep_view(), self.keys());
        }
        names
    }

    /// The name of the command at place `i`, counted in the order in which
    /// the commands were added.
    pub fn name_at(&self, i: usize) -> (name: &str)
        requires
            i < self.keys().len(),
        ensures
            name@ == self.keys()[i as int],
    {
        self.names[i].as_str()
    }

    /// The command at place `i`, counted in the order in which the commands
    /// were added.
    pub fn command_at(&self, i: usize) -> (cmd: &Box<Command<'a, S>>)
        requires
            i < self.keys().len(),
        ensures
            **cmd == self.entries()[i as int],
    {
        proof {
            use_type_invariant(self);
        }
        &self.cmds[i]
    }

    /// Starts a walk over the commands.
    pub fn iter<'b>(&'b self) -> (it: CommandSetIterator<'b, 'a, S>)
        ensures
            it.source() == *self,
            it.position() == 0,
    {
        CommandSetIterator { set: self, next: 0 }
    }
}

impl<'b, 'a, S> CommandSetIterator<'b, 'a, S> {
    /// The set that is walked.
    pub closed spec fn source(&self) -> CommandSet<'a, S> {
        *self.set
    }

    /// How many commands the walk has handed out.
    pub closed spec fn position(&self) -> int {
        self.next as int
    }

    /// The next command of the walk, or `None` when all were handed out.
    pub fn next(&mut self) -> (r: Option<&'b Box<Command<'a, S>>>)
        ensures
            final(self).source() == old(self).source(),
            match r {
                Some(cmd) => old(self).position() < old(self).source().entries().len() && **cmd
                    == old(self).source().entries()[old(self).position()] && final(self).position()
                    == old(self).position() + 1,
                None => old(self).position() >= old(self).source().entries().len()
                    && final(self).position() == old(self).position(),
            },
    {
        let n = self.set.len();
        if self.next < n {
            let cmd = self.set.command_at(self.next);
            self.next = self.next + 1;
            Some(cmd)
        } else {
            None
        }
    }
}

} // verus!
