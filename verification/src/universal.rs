//! The universal tier: variables shared with the other shells, each with
//! the sequence number of the change that last wrote it.

use crate::mode::{filter_passes, passes};
use crate::names::{distinct, index_from, index_in, lemma_index_from, lemma_index_unique, lemma_push_contains};
use crate::text::strings_view;
use crate::var::{EnvVar, VarView};
use vstd::prelude::*;

verus! {

/// What an entry of the tier is. An entry without a cell is a tombstone: it
/// remembers the sequence number of the change that erased the variable.
pub struct EntryView {
    pub name: Seq<char>,
    pub seq: u64,
    pub var: Option<VarView>,
}

/// What the tier is: its entries, in the order in which the names came.
pub struct TierView {
    pub entries: Seq<EntryView>,
}

impl TierView {
    /// The names of the entries, in order.
    pub open spec fn names(self) -> Seq<Seq<char>> {
        Seq::new(self.entries.len(), |i: int| self.entries[i].name)
    }

    /// No name has two entries.
    pub open spec fn wf(self) -> bool {
        distinct(self.names())
    }

    /// Where the entry of `name` stands.
    pub open spec fn index_of(self, name: Seq<char>) -> Option<int> {
        index_in(self.names(), name)
    }

    /// The cell of `name`, if the tier holds one.
    pub open spec fn lookup(self, name: Seq<char>) -> Option<VarView> {
        match self.index_of(name) {
            Some(i) => self.entries[i].var,
            None => None,
        }
    }

    /// The cell of `name`, if its export flag passes the filter.
    pub open spec fn hit(self, name: Seq<char>, filter: Option<bool>) -> Option<VarView> {
        match self.lookup(name) {
            Some(v) => if passes(filter, v.flags.exports) {
                Some(v)
            } else {
                None
            },
            None => None,
        }
    }

    /// The tier after this shell wrote `var` to `name`. The entry keeps its
    /// sequence number; a new entry has none yet, which is 0.
    pub open spec fn with(self, name: Seq<char>, var: VarView) -> TierView {
        TierView {
            entries: match self.index_of(name) {
                Some(i) => self.entries.update(i, EntryView { name, seq: self.entries[i].seq, var: Some(var) }),
                None => self.entries.push(EntryView { name, seq: 0, var: Some(var) }),
            },
        }
    }

    /// The tier after this shell erased `name`.
    pub open spec fn without(self, name: Seq<char>) -> TierView {
        TierView {
            entries: match self.index_of(name) {
                Some(i) => self.entries.update(i, EntryView { name, seq: self.entries[i].seq, var: None }),
                None => self.entries,
            },
        }
    }

    /// Whether a change from outside is newer than what the tier holds of
    /// `name`: the last write wins, by sequence number.
    pub open spec fn accepts(self, name: Seq<char>, seq: u64) -> bool {
        match self.index_of(name) {
            Some(i) => seq > self.entries[i].seq,
            None => true,
        }
    }

    /// The tier after a change from outside: `var` is the new cell, or
    /// `None` where the variable was erased. An older change is dropped.
    pub open spec fn folded(self, name: Seq<char>, seq: u64, var: Option<VarView>) -> TierView {
        if self.accepts(name, seq) {
            TierView {
                entries: match self.index_of(name) {
                    Some(i) => self.entries.update(i, EntryView { name, seq, var }),
                    None => self.entries.push(EntryView { name, seq, var }),
                },
            }
        } else {
            self
        }
    }

    /// Whether the entry at `i` holds a cell that passes the filter.
    pub open spec fn passes_at(self, filter: Option<bool>, i: int) -> bool {
        match self.entries[i].var {
            Some(v) => passes(filter, v.flags.exports),
            None => false,
        }
    }

    /// The names of those of the first `n` entries whose cell passes the filter.
    pub open spec fn passing_upto(self, filter: Option<bool>, n: int) -> Seq<Seq<char>>
        decreases n,
    {
        if n <= 0 {
            Seq::empty()
        } else {
            let rest = self.passing_upto(filter, n - 1);
            if self.passes_at(filter, n - 1) {
                rest.push(self.entries[n - 1].name)
            } else {
                rest
            }
        }
    }

    /// The names of the entries whose cell passes the filter, in order.
    pub open spec fn names_passing(self, filter: Option<bool>) -> Seq<Seq<char>> {
        self.passing_upto(filter, self.entries.len() as int)
    }
}

/// A local write, a local erasure and a change from outside each leave the
/// names distinct.
pub proof fn lemma_tier_wf(t: TierView, name: Seq<char>, seq: u64, var: VarView, change: Option<VarView>)
    requires
        t.wf(),
    ensures
        t.with(name, var).wf(),
        t.without(name).wf(),
        t.folded(name, seq, change).wf(),
{
    lemma_index_from(t.names(), name, 0);
    match t.index_of(name) {
        Some(i) => {
            assert(t.with(name, var).names() =~= t.names());
            assert(t.without(name).names() =~= t.names());
            if t.accepts(name, seq) {
                assert(t.folded(name, seq, change).names() =~= t.names());
            }
        },
        None => {
            assert(t.with(name, var).names() =~= t.names().push(name));
            assert(t.folded(name, seq, change).names() =~= t.names().push(name));
        },
    }
}

/// The names that pass the filter are the names that a query with that
/// filter finds in the tier.
pub proof fn lemma_tier_names_passing(t: TierView, filter: Option<bool>, name: Seq<char>)
    requires
        t.wf(),
    ensures
        t.names_passing(filter).contains(name) <==> t.hit(name, filter) is Some,
{
    lemma_tier_passing_upto(t, filter, t.entries.len() as int, name);
    lemma_index_from(t.names(), name, 0);
    if t.names_passing(filter).contains(name) {
        let j = choose|j: int| 0 <= j < t.entries.len() && entry_passes_named(t, filter, name, j);
        assert(entry_passes_named(t, filter, name, j));
        assert(t.names()[j] == name);
        lemma_index_unique(t.names(), name, j);
    }
    if t.hit(name, filter) is Some {
        let k = t.index_of(name)->0;
        assert(t.names()[k] == name);
        assert(entry_passes_named(t, filter, name, k));
    }
}

/// Whether the entry at `j` is one of `name` and holds a cell that passes
/// the filter.
pub open spec fn entry_passes_named(t: TierView, filter: Option<bool>, name: Seq<char>, j: int) -> bool {
    t.entries[j].name == name && t.passes_at(filter, j)
}

/// Among the first `n` entries, the names that pass the filter are the
/// names of the entries whose cell passes it.
pub proof fn lemma_tier_passing_upto(t: TierView, filter: Option<bool>, n: int, name: Seq<char>)
    requires
        0 <= n <= t.entries.len(),
    ensures
        t.passing_upto(filter, n).contains(name) <==> exists|j: int| 0 <= j < n && entry_passes_named(t, filter, name, j),
    decreases n,
{
    if n > 0 {
        lemma_tier_passing_upto(t, filter, n - 1, name);
        let rest = t.passing_upto(filter, n - 1);
        lemma_push_contains(rest, t.entries[n - 1].name, name);
        if t.passing_upto(filter, n).contains(name) {
            if rest.contains(name) {
                let j = choose|j: int| 0 <= j < n - 1 && entry_passes_named(t, filter, name, j);
                assert(entry_passes_named(t, filter, name, j));
            } else {
                assert(entry_passes_named(t, filter, name, n - 1));
            }
        }
        if exists|j: int| 0 <= j < n && entry_passes_named(t, filter, name, j) {
            let j = choose|j: int| 0 <= j < n && entry_passes_named(t, filter, name, j);
            if j < n - 1 {
                assert(entry_passes_named(t, filter, name, j));
            }
        }
    }
}

/// An entry of the tier.
#[derive(Debug)]
struct Entry {
    name: String,
    seq: u64,
    var: Option<EnvVar>,
}

/// What an optional cell is.
pub open spec fn option_view(var: Option<EnvVar>) -> Option<VarView> {
    match var {
        Some(v) => Some(v@),
        None => None,
    }
}

/// The universal tier.
#[derive(Debug)]
pub struct UniversalTier {
    entries: Vec<Entry>,
}

impl View for UniversalTier {
    type V = TierView;

    closed spec fn view(&self) -> TierView {
        TierView {
            entries: Seq::new(
                self.entries@.len(),
                |i: int|
                    EntryView {
                        name: self.entries@[i].name@,
                        seq: self.entries@[i].seq,
                        var: option_view(self.entries@[i].var),
                    },
            ),
        }
    }
}

/// A copy of an optional cell.
fn clone_option(var: &Option<EnvVar>) -> (r: Option<EnvVar>)
    ensures
        option_view(r) == option_view(*var),
{
    match var {
        Some(v) => Some(v.clone()),
        None => None,
    }
}

impl Clone for UniversalTier {
    fn clone(&self) -> (r: UniversalTier)
        ensures
            r@ == self@,
    {
        let mut entries: Vec<Entry> = Vec::new();
        let mut i: usize = 0;
        while i < self.entries.len()
            invariant
                i <= self.entries.len(),
                entries.len() == i,
                forall|j: int|
                    0 <= j < i ==> entries@[j].name@ == self.entries@[j].name@ && entries@[j].seq == self.entries@[j].seq
                        && option_view(entries@[j].var) == option_view(self.entries@[j].var),
            decreases self.entries.len() - i,
        {
            let e = &self.entries[i];
            entries.push(Entry { name: e.name.clone(), seq: e.seq, var: clone_option(&e.var) });
            i += 1;
        }
        let r = UniversalTier { entries };
        assert(r@.entries =~= self@.entries);
        r
    }
}

impl UniversalTier {
    /// An empty tier.
    pub fn new() -> (r: UniversalTier)
        ensures
            r@ == (TierView { entries: Seq::empty() }),
    {
        let r = UniversalTier { entries: Vec::new() };
        assert(r@.entries =~= Seq::empty());
        r
    }

    /// Where the entry of `name` stands.
    fn position(&self, name: &String) -> (r: Option<usize>)
        ensures
            match r {
                Some(i) => i < self@.entries.len() && self@.index_of(name@) == Some(i as int),
                None => self@.index_of(name@) is None,
            },
    {
        let mut i: usize = 0;
        while i < self.entries.len()
            invariant
                i <= self.entries.len(),
                self@.index_of(name@) == index_from(self@.names(), name@, i as int),
            decreases self.entries.len() - i,
        {
            if self.entries[i].name == *name {
                return Some(i);
            }
            i += 1;
        }
        None
    }

    /// The cell of `name`, if the tier holds one.
    pub fn get(&self, name: &String) -> (r: Option<&EnvVar>)
        ensures
            match r {
                Some(v) => self@.lookup(name@) == Some(v@),
                None => self@.lookup(name@) is None,
            },
    {
        match self.position(name) {
            Some(i) => match &self.entries[i].var {
                Some(v) => Some(v),
                None => None,
            },
            None => None,
        }
    }

    /// The cell of `name`, if its export flag passes the filter.
    pub fn hit(&self, name: &String, filter: Option<bool>) -> (r: Option<&EnvVar>)
        ensures
            match r {
                Some(v) => self@.hit(name@, filter) == Some(v@),
                None => self@.hit(name@, filter) is None,
            },
    {
        match self.get(name) {
            Some(v) => if filter_passes(filter, v.exports()) {
                Some(v)
            } else {
                None
            },
            None => None,
        }
    }

    /// Writes `var` to `name` on behalf of this shell.
    pub fn put(&mut self, name: String, var: EnvVar)
        ensures
            final(self)@ == old(self)@.with(name@, var@),
    {
        match self.position(&name) {
            Some(i) => {
                let seq = self.entries[i].seq;
                self.entries.set(i, Entry { name, seq, var: Some(var) });
            },
            None => {
                self.entries.push(Entry { name, seq: 0, var: Some(var) });
            },
        }
        assert(self@.entries =~= old(self)@.with(name@, var@).entries);
    }

    /// Erases `name` on behalf of this shell, leaving a tombstone.
    pub fn erase(&mut self, name: String)
        ensures
            final(self)@ == old(self)@.without(name@),
    {
        match self.position(&name) {
            Some(i) => {
                let seq = self.entries[i].seq;
                self.entries.set(i, Entry { name, seq, var: None });
            },
            None => {},
        }
        assert(self@.entries =~= old(self)@.without(name@).entries);
    }

    /// Folds in a change from outside, unless the tier holds a newer one of
    /// that name. Says whether the change was taken.
    pub fn fold(&mut self, name: String, seq: u64, var: Option<EnvVar>) -> (taken: bool)
        ensures
            taken == old(self)@.accepts(name@, seq),
            final(self)@ == old(self)@.folded(name@, seq, option_view(var)),
    {
        let taken = match self.position(&name) {
            Some(i) => {
                if seq > self.entries[i].seq {
                    self.entries.set(i, Entry { name, seq, var });
                    true
                } else {
                    false
                }
            },
            None => {
                self.entries.push(Entry { name, seq, var });
                true
            },
        };
        assert(self@.entries =~= old(self)@.folded(name@, seq, option_view(var)).entries);
        taken
    }

    /// Appends to `out` the names of the entries whose cell passes the filter.
    pub fn push_names(&self, filter: Option<bool>, out: &mut Vec<String>)
        ensures
            strings_view(final(out)@) == strings_view(old(out)@) + self@.names_passing(filter),
    {
        let ghost base = strings_view(out@);
        let mut i: usize = 0;
        assert(strings_view(out@) =~= base + self@.passing_upto(filter, 0));
        while i < self.entries.len()
            invariant
                i <= self.entries.len(),
                strings_view(out@) == base + self@.passing_upto(filter, i as int),
            decreases self.entries.len() - i,
        {
            let e = &self.entries[i];
            let ghost before = strings_view(out@);
            let take = match &e.var {
                Some(v) => filter_passes(filter, v.exports()),
                None => false,
            };
            if take {
                out.push(e.name.clone());
                assert(strings_view(out@) =~= before.push(e.name@));
                assert(strings_view(out@) =~= base + self@.passing_upto(filter, i + 1));
            }
            i += 1;
        }
    }
}

} // verus!
