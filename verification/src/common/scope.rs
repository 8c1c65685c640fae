//! The stack of lexical scopes that the analyzer and the interpreter share:
//! one table of names for each open block, the innermost last.
use vstd::prelude::*;

verus! {

/// One scope's names and what they are bound to.
pub type Frame<V> = Map<Seq<char>, V>;

/// The open scopes, the innermost last.
pub type Scopes<V> = Seq<Frame<V>>;

/// What a name is bound to: the binding of the innermost scope that holds
/// the name.
pub open spec fn lookup<V>(scopes: Scopes<V>, name: Seq<char>) -> Option<V>
    decreases scopes.len(),
{
    if scopes.len() == 0 {
        None
    } else if scopes.last().contains_key(name) {
        Some(scopes.last()[name])
    } else {
        lookup(scopes.drop_last(), name)
    }
}

/// Whether the innermost scope holds the name.
pub open spec fn declared_here<V>(scopes: Scopes<V>, name: Seq<char>) -> bool {
    scopes.len() > 0 && scopes.last().contains_key(name)
}

/// Binds a name in the innermost scope.
pub open spec fn declare<V>(scopes: Scopes<V>, name: Seq<char>, value: V) -> Scopes<V> {
    if scopes.len() > 0 {
        scopes.update(scopes.len() - 1, scopes.last().insert(name, value))
    } else {
        scopes
    }
}

/// Rebinds a name in the innermost scope that holds it. Where no scope
/// holds it, nothing changes.
pub open spec fn assign<V>(scopes: Scopes<V>, name: Seq<char>, value: V) -> Scopes<V>
    decreases scopes.len(),
{
    if scopes.len() == 0 {
        scopes
    } else if scopes.last().contains_key(name) {
        scopes.update(scopes.len() - 1, scopes.last().insert(name, value))
    } else {
        assign(scopes.drop_last(), name, value).push(scopes.last())
    }
}

/// Opens a fresh scope.
pub open spec fn enter<V>(scopes: Scopes<V>) -> Scopes<V> {
    scopes.push(Map::empty())
}

/// Closes the innermost scope.
pub open spec fn exit<V>(scopes: Scopes<V>) -> Scopes<V> {
    if scopes.len() > 0 {
        scopes.drop_last()
    } else {
        scopes
    }
}

/// A name declared in a block shadows the same name outside the block for
/// as long as the block is open, and only so long: inside, the name
/// resolves to the inner declaration, also after it has been assigned to;
/// once the block is closed, the scopes are what they were before it was
/// opened, so every name resolves as it did.
pub proof fn law_shadowing<V>(scopes: Scopes<V>, name: Seq<char>, inner: V, assigned: V)
    ensures
        lookup(declare(enter(scopes), name, inner), name) == Some(inner),
        lookup(assign(declare(enter(scopes), name, inner), name, assigned), name) == Some(
            assigned,
        ),
        exit(declare(enter(scopes), name, inner)) == scopes,
        exit(assign(declare(enter(scopes), name, inner), name, assigned)) == scopes,
        forall|other: Seq<char>|
            lookup(exit(declare(enter(scopes), name, inner)), other) == lookup(scopes, other),
{
    let opened = enter(scopes);
    let declared = declare(opened, name, inner);
    assert(declared.last().contains_key(name));
    assert(declared.drop_last() =~= scopes);
    let reassigned = assign(declared, name, assigned);
    assert(reassigned.last().contains_key(name));
    assert(reassigned.drop_last() =~= scopes);
}

/// Inside a block, a name that the block has not declared resolves as it
/// does outside.
pub proof fn law_outer_visible<V>(scopes: Scopes<V>, name: Seq<char>)
    ensures
        lookup(enter(scopes), name) == lookup(scopes, name),
{
    assert(enter(scopes).drop_last() =~= scopes);
}

/// The names of one scope as a map: a later entry for a name replaces an
/// earlier one.
pub open spec fn frame_view<T: View>(entries: Seq<(String, T)>) -> Frame<T::V>
    decreases entries.len(),
{
    if entries.len() == 0 {
        Map::empty()
    } else {
        frame_view(entries.drop_last()).insert(entries.last().0@, entries.last().1@)
    }
}

/// Whether `j` is the last entry for `name`.
pub open spec fn is_last_entry<T>(entries: Seq<(String, T)>, name: Seq<char>, j: int) -> bool {
    &&& 0 <= j < entries.len()
    &&& entries[j].0@ == name
    &&& forall|k: int| j < k < entries.len() ==> (#[trigger] entries[k]).0@ != name
}

/// Whether no entry is for `name`.
pub open spec fn no_entry<T>(entries: Seq<(String, T)>, name: Seq<char>) -> bool {
    forall|k: int| 0 <= k < entries.len() ==> (#[trigger] entries[k]).0@ != name
}

/// A scope binds a name to what the last entry for the name holds.
pub proof fn lemma_frame_last<T: View>(entries: Seq<(String, T)>, name: Seq<char>, j: int)
    requires
        is_last_entry(entries, name, j),
    ensures
        frame_view(entries).contains_key(name),
        frame_view(entries)[name] == entries[j].1@,
    decreases entries.len(),
{
    if j < entries.len() - 1 {
        assert(entries.last().0@ != name);
        assert(is_last_entry(entries.drop_last(), name, j));
        lemma_frame_last(entries.drop_last(), name, j);
    }
}

/// A scope with no entry for a name does not hold the name.
pub proof fn lemma_frame_absent<T: View>(entries: Seq<(String, T)>, name: Seq<char>)
    requires
        no_entry(entries, name),
    ensures
        !frame_view(entries).contains_key(name),
    decreases entries.len(),
{
    if entries.len() > 0 {
        assert(entries.last().0@ != name);
        assert(no_entry(entries.drop_last(), name));
        lemma_frame_absent(entries.drop_last(), name);
    }
}

/// Replacing the last entry for a name rebinds the name.
pub proof fn lemma_frame_replace<T: View>(
    entries: Seq<(String, T)>,
    name: Seq<char>,
    j: int,
    entry: (String, T),
)
    requires
        is_last_entry(entries, name, j),
        entry.0@ == name,
    ensures
        frame_view(entries.update(j, entry)) == frame_view(entries).insert(name, entry.1@),
    decreases entries.len(),
{
    let updated = entries.update(j, entry);
    if j == entries.len() - 1 {
        assert(updated.drop_last() =~= entries.drop_last());
        assert(frame_view(updated) =~= frame_view(entries).insert(name, entry.1@));
    } else {
        assert(entries.last().0@ != name);
        assert(is_last_entry(entries.drop_last(), name, j));
        lemma_frame_replace(entries.drop_last(), name, j, entry);
        assert(updated.drop_last() =~= entries.drop_last().update(j, entry));
        assert(updated.last() == entries.last());
        assert(frame_view(updated) =~= frame_view(entries).insert(name, entry.1@));
    }
}

/// The index of the last entry for a name, if there is one.
fn find_entry<T>(entries: &Vec<(String, T)>, name: &String) -> (r: Option<usize>)
    ensures
        match r {
            Some(j) => is_last_entry(entries@, name@, j as int),
            None => no_entry(entries@, name@),
        },
{
    let mut i = entries.len();
    while i > 0
        invariant
            0 <= i <= entries.len(),
            forall|k: int| i <= k < entries.len() ==> (#[trigger] entries@[k]).0@ != name@,
        decreases i,
    {
        i = i - 1;
        if entries[i].0 == *name {
            return Some(i);
        }
    }
    None
}

/// A stack of scopes whose names are bound to values of type `T`.
pub struct ScopeTable<T> {
    tables: Vec<Vec<(String, T)>>,
}

impl<T: View> View for ScopeTable<T> {
    type V = Scopes<T::V>;

    closed spec fn view(&self) -> Scopes<T::V> {
        Seq::new(self.tables@.len(), |i: int| frame_view(self.tables@[i]@))
    }
}

impl<T: View> ScopeTable<T> {
    /// A stack with no scope open.
    pub fn new() -> (r: Self)
        ensures
            r@ == Seq::<Frame<T::V>>::empty(),
    {
        let r = ScopeTable { tables: Vec::new() };
        assert(r@ =~= Seq::<Frame<T::V>>::empty());
        r
    }

    /// Opens a fresh scope.
    pub fn enter_scope(&mut self)
        ensures
            final(self)@ == enter(old(self)@),
    {
        self.tables.push(Vec::new());
        assert(self@ =~= enter(old(self)@));
    }

    /// Closes the innermost scope.
    pub fn exit_scope(&mut self)
        ensures
            final(self)@ == exit(old(self)@),
    {
        self.tables.pop();
        assert(self@ =~= exit(old(self)@));
    }

    /// Binds a name in the innermost scope.
    pub fn add(&mut self, name: String, value: T)
        ensures
            final(self)@ == declare(old(self)@, name@, value@),
    {
        if self.tables.len() == 0 {
            return ;
        }
        let last = self.tables.len() - 1;
        let ghost before = self.tables@[last as int]@;
        let mut frame: Vec<(String, T)> = Vec::new();
        core::mem::swap(&mut frame, &mut self.tables[last]);
        frame.push((name, value));
        assert(frame@.drop_last() =~= before);
        self.tables[last] = frame;
        assert(self@ =~= declare(old(self)@, name@, value@));
    }

    /// What a name is bound to.
    pub fn lookup(&self, name: &String) -> (r: Option<&T>)
        ensures
            match r {
                Some(value) => lookup(self@, name@) == Some(value@),
                None => lookup(self@, name@) is None,
            },
    {
        let mut i = self.tables.len();
        assert(self@.take(i as int) =~= self@);
        while i > 0
            invariant
                0 <= i <= self.tables.len(),
                lookup(self@, name@) == lookup(self@.take(i as int), name@),
            decreases i,
        {
            assert(self@.take(i as int).drop_last() =~= self@.take(i - 1));
            i = i - 1;
            match find_entry(&self.tables[i], name) {
                Some(j) => {
                    proof {
                        lemma_frame_last(self.tables@[i as int]@, name@, j as int);
                    }
                    return Some(&self.tables[i][j].1);
                },
                None => {
                    proof {
                        lemma_frame_absent(self.tables@[i as int]@, name@);
                    }
                },
            }
        }
        None
    }

    /// Whether the innermost scope holds the name.
    pub fn declares(&self, name: &String) -> (r: bool)
        ensures
            r == declared_here(self@, name@),
    {
        if self.tables.len() == 0 {
            return false;
        }
        let last = self.tables.len() - 1;
        match find_entry(&self.tables[last], name) {
            Some(j) => {
                proof {
                    lemma_frame_last(self.tables@[last as int]@, name@, j as int);
                }
                true
            },
            None => {
                proof {
                    lemma_frame_absent(self.tables@[last as int]@, name@);
                }
                false
            },
        }
    }

    /// Rebinds a name in the innermost scope that holds it; where no scope
    /// holds it, nothing changes.
    pub fn assign(&mut self, name: String, value: T)
        ensures
            final(self)@ == assign(old(self)@, name@, value@),
    {
        let mut i = self.tables.len();
        let ghost scopes = self@;
        assert(scopes.take(i as int) =~= scopes);
        assert(scopes.skip(i as int) =~= Seq::empty());
        assert(assign(scopes, name@, value@) =~= assign(scopes, name@, value@) + Seq::empty());
        while i > 0
            invariant
                0 <= i <= self.tables.len(),
                self@ == scopes,
                scopes == old(self)@,
                assign(scopes, name@, value@) == assign(scopes.take(i as int), name@, value@)
                    + scopes.skip(i as int),
            decreases i,
        {
            let ghost upper = scopes.take(i as int);
            assert(upper.drop_last() =~= scopes.take(i - 1));
            assert(upper.last() == scopes[i - 1]);
            i = i - 1;
            match find_entry(&self.tables[i], &name) {
                Some(j) => {
                    let ghost before = self.tables@[i as int]@;
                    proof {
                        lemma_frame_last(before, name@, j as int);
                        lemma_frame_replace(before, name@, j as int, (name, value));
                    }
                    let mut frame: Vec<(String, T)> = Vec::new();
                    core::mem::swap(&mut frame, &mut self.tables[i]);
                    frame[j] = (name, value);
                    self.tables[i] = frame;
                    assert(self@ =~= scopes.update(i as int, scopes[i as int].insert(name@, value@)));
                    assert(self@ =~= upper.update(i as int, upper.last().insert(name@, value@))
                        + scopes.skip(i + 1));
                    return ;
                },
                None => {
                    proof {
                        lemma_frame_absent(self.tables@[i as int]@, name@);
                        assert(assign(upper, name@, value@) + scopes.skip(i + 1) =~= assign(
                            scopes.take(i as int),
                            name@,
                            value@,
                        ) + scopes.skip(i as int));
                    }
                },
            }
        }
        assert(scopes.take(0) =~= Seq::empty());
        assert(scopes.skip(0) =~= scopes);
    }
}

} // verus!
