//! A scope frame: the variables bound at one level of the scope stack.

use crate::mode::{filter_passes, passes};
use crate::names::{distinct, index_from, index_in, lemma_index_from, lemma_index_unique, lemma_push_contains};
use crate::text::strings_view;
use crate::var::{EnvVar, VarView};
use vstd::prelude::*;

verus! {

/// What a binding is: a name and its cell.
pub struct BindingView {
    pub name: Seq<char>,
    pub var: VarView,
}

/// What a frame is: its bindings, in the order in which the names were first
/// bound, and whether it stands for a function call.
pub struct FrameView {
    pub bindings: Seq<BindingView>,
    pub is_new_scope: bool,
}

impl FrameView {
    /// The bound names, in order.
    pub open spec fn names(self) -> Seq<Seq<char>> {
        Seq::new(self.bindings.len(), |i: int| self.bindings[i].name)
    }

    /// No name is bound twice.
    pub open spec fn wf(self) -> bool {
        distinct(self.names())
    }

    /// Where `name` is bound.
    pub open spec fn index_of(self, name: Seq<char>) -> Option<int> {
        index_in(self.names(), name)
    }

    /// The cell bound to `name`.
    pub open spec fn lookup(self, name: Seq<char>) -> Option<VarView> {
        match self.index_of(name) {
            Some(i) => Some(self.bindings[i].var),
            None => None,
        }
    }

    /// The cell bound to `name`, if its export flag passes the filter.
    pub open spec fn hit(self, name: Seq<char>, filter: Option<bool>) -> Option<VarView> {
        match self.lookup(name) {
            Some(v) => if passes(filter, v.flags.exports) {
                Some(v)
            } else {
                None
            },
            None => None,
        }
    }

    /// The frame with `name` bound to `var`: in place where the name was
    /// bound, at the end where it was not.
    pub open spec fn with(self, name: Seq<char>, var: VarView) -> FrameView {
        FrameView {
            bindings: match self.index_of(name) {
                Some(i) => self.bindings.update(i, BindingView { name, var }),
                None => self.bindings.push(BindingView { name, var }),
            },
            is_new_scope: self.is_new_scope,
        }
    }

    /// The frame without a binding of `name`.
    pub open spec fn without(self, name: Seq<char>) -> FrameView {
        FrameView {
            bindings: match self.index_of(name) {
                Some(i) => self.bindings.remove(i),
                None => self.bindings,
            },
            is_new_scope: self.is_new_scope,
        }
    }

    /// The names of those of the first `n` bindings that pass the filter.
    pub open spec fn passing_upto(self, filter: Option<bool>, n: int) -> Seq<Seq<char>>
        decreases n,
    {
        if n <= 0 {
            Seq::empty()
        } else {
            let rest = self.passing_upto(filter, n - 1);
            if passes(filter, self.bindings[n - 1].var.flags.exports) {
                rest.push(self.bindings[n - 1].name)
            } else {
                rest
            }
        }
    }

    /// The names of the bindings that pass the filter, in order.
    pub open spec fn names_passing(self, filter: Option<bool>) -> Seq<Seq<char>> {
        self.passing_upto(filter, self.bindings.len() as int)
    }

    /// Whether some binding is exported.
    pub open spec fn exports_any(self) -> bool {
        exists|i: int| 0 <= i < self.bindings.len() && (#[trigger] self.bindings[i]).var.flags.exports
    }
}

/// Binding a name keeps the names distinct, binds that name to the cell and
/// leaves every other name as it was.
pub proof fn lemma_with(f: FrameView, name: Seq<char>, var: VarView)
    requires
        f.wf(),
    ensures
        f.with(name, var).wf(),
        f.with(name, var).lookup(name) == Some(var),
        forall|other: Seq<char>| other != name ==> f.with(name, var).lookup(other) == f.lookup(other),
{
    let g = f.with(name, var);
    lemma_index_from(f.names(), name, 0);
    match f.index_of(name) {
        Some(i) => {
            assert(g.names() =~= f.names());
        },
        None => {
            assert(g.names() =~= f.names().push(name));
            lemma_index_unique(g.names(), name, f.bindings.len() as int);
        },
    }
    assert forall|other: Seq<char>| other != name implies g.lookup(other) == f.lookup(other) by {
        lemma_index_from(f.names(), other, 0);
        lemma_index_from(g.names(), other, 0);
        match f.index_of(other) {
            Some(k) => {
                assert(g.names()[k] == other);
                lemma_index_unique(g.names(), other, k);
            },
            None => {
                if g.index_of(other) is Some {
                    let k = g.index_of(other)->0;
                    assert(g.names()[k] == other);
                    assert(k < f.bindings.len());
                    assert(f.names()[k] == other);
                }
            },
        }
    }
}

/// Unbinding a name keeps the names distinct, leaves that name unbound and
/// every other name as it was.
pub proof fn lemma_without(f: FrameView, name: Seq<char>)
    requires
        f.wf(),
    ensures
        f.without(name).wf(),
        f.without(name).lookup(name) is None,
        forall|other: Seq<char>| other != name ==> f.without(name).lookup(other) == f.lookup(other),
{
    let g = f.without(name);
    lemma_index_from(f.names(), name, 0);
    lemma_index_from(g.names(), name, 0);
    match f.index_of(name) {
        Some(i) => {
            assert forall|a: int, b: int| 0 <= a < b < g.names().len() implies g.names()[a] != g.names()[b] by {
                let fa = if a < i { a } else { a + 1 };
                let fb = if b < i { b } else { b + 1 };
                assert(g.names()[a] == f.names()[fa]);
                assert(g.names()[b] == f.names()[fb]);
            }
            if g.index_of(name) is Some {
                let k = g.index_of(name)->0;
                let fk = if k < i { k } else { k + 1 };
                assert(g.names()[k] == f.names()[fk]);
            }
            assert forall|other: Seq<char>| other != name implies g.lookup(other) == f.lookup(other) by {
                lemma_index_from(f.names(), other, 0);
                lemma_index_from(g.names(), other, 0);
                match f.index_of(other) {
                    Some(k) => {
                        let gk = if k < i { k } else { k - 1 };
                        assert(g.names()[gk] == other);
                        lemma_index_unique(g.names(), other, gk);
                    },
                    None => {
                        if g.index_of(other) is Some {
                            let k = g.index_of(other)->0;
                            let fk = if k < i { k } else { k + 1 };
                            assert(g.names()[k] == f.names()[fk]);
                        }
                    },
                }
            }
        },
        None => {},
    }
}

/// The names that pass the filter are the names that a query with that
/// filter finds in the frame.
pub proof fn lemma_names_passing(f: FrameView, filter: Option<bool>, name: Seq<char>)
    requires
        f.wf(),
    ensures
        f.names_passing(filter).contains(name) <==> f.hit(name, filter) is Some,
{
    lemma_passing_upto(f, filter, f.bindings.len() as int, name);
    lemma_index_from(f.names(), name, 0);
    if f.names_passing(filter).contains(name) {
        let j = choose|j: int| 0 <= j < f.bindings.len() && passes_named(f, filter, name, j);
        assert(passes_named(f, filter, name, j));
        assert(f.names()[j] == name);
        lemma_index_unique(f.names(), name, j);
    }
    if f.hit(name, filter) is Some {
        let k = f.index_of(name)->0;
        assert(f.names()[k] == name);
        assert(passes_named(f, filter, name, k));
    }
}

/// Whether the binding at `j` is one of `name` and passes the filter.
pub open spec fn passes_named(f: FrameView, filter: Option<bool>, name: Seq<char>, j: int) -> bool {
    f.bindings[j].name == name && passes(filter, f.bindings[j].var.flags.exports)
}

/// Among the first `n` bindings, the names that pass the filter are the
/// names of the bindings that pass it.
pub proof fn lemma_passing_upto(f: FrameView, filter: Option<bool>, n: int, name: Seq<char>)
    requires
        0 <= n <= f.bindings.len(),
    ensures
        f.passing_upto(filter, n).contains(name) <==> exists|j: int| 0 <= j < n && passes_named(f, filter, name, j),
    decreases n,
{
    if n > 0 {
        lemma_passing_upto(f, filter, n - 1, name);
        let rest = f.passing_upto(filter, n - 1);
        lemma_push_contains(rest, f.bindings[n - 1].name, name);
        if f.passing_upto(filter, n).contains(name) {
            if rest.contains(name) {
                let j = choose|j: int| 0 <= j < n - 1 && passes_named(f, filter, name, j);
                assert(passes_named(f, filter, name, j));
            } else {
                assert(passes_named(f, filter, name, n - 1));
            }
        }
        if exists|j: int| 0 <= j < n && passes_named(f, filter, name, j) {
            let j = choose|j: int| 0 <= j < n && passes_named(f, filter, name, j);
            if j < n - 1 {
                assert(passes_named(f, filter, name, j));
            }
        }
    }
}

/// A binding of a frame.
#[derive(Debug)]
struct Binding {
    name: String,
    var: EnvVar,
}

/// A scope frame: a mapping from names to cells, and whether the frame
/// stands for a function call rather than a block.
#[derive(Debug)]
pub struct Frame {
    bindings: Vec<Binding>,
    is_new_scope: bool,
}

impl View for Frame {
    type V = FrameView;

    closed spec fn view(&self) -> FrameView {
        FrameView {
            bindings: Seq::new(
                self.bindings@.len(),
                |i: int| BindingView { name: self.bindings@[i].name@, var: self.bindings@[i].var@ },
            ),
            is_new_scope: self.is_new_scope,
        }
    }
}

impl Clone for Frame {
    fn clone(&self) -> (r: Frame)
        ensures
            r@ == self@,
    {
        let mut bindings: Vec<Binding> = Vec::new();
        let mut i: usize = 0;
        while i < self.bindings.len()
            invariant
                i <= self.bindings.len(),
                bindings.len() == i,
                forall|j: int| 0 <= j < i ==> bindings@[j].name@ == self.bindings@[j].name@ && bindings@[j].var@ == self.bindings@[j].var@,
            decreases self.bindings.len() - i,
        {
            let b = &self.bindings[i];
            bindings.push(Binding { name: b.name.clone(), var: b.var.clone() });
            i += 1;
        }
        let r = Frame { bindings, is_new_scope: self.is_new_scope };
        assert(r@.bindings =~= self@.bindings);
        r
    }
}

impl Frame {
    /// An empty frame.
    pub fn new(is_new_scope: bool) -> (r: Frame)
        ensures
            r@ == (FrameView { bindings: Seq::empty(), is_new_scope }),
    {
        let r = Frame { bindings: Vec::new(), is_new_scope };
        assert(r@.bindings =~= Seq::empty());
        r
    }

    /// Whether the frame stands for a function call.
    pub fn is_new_scope(&self) -> (r: bool)
        ensures
            r == self@.is_new_scope,
    {
        self.is_new_scope
    }

    /// How many names are bound.
    pub fn len(&self) -> (n: usize)
        ensures
            n == self@.bindings.len(),
    {
        self.bindings.len()
    }

    /// Where `name` is bound.
    pub fn position(&self, name: &String) -> (r: Option<usize>)
        ensures
            match r {
                Some(i) => i < self@.bindings.len() && self@.index_of(name@) == Some(i as int),
                None => self@.index_of(name@) is None,
            },
    {
        let mut i: usize = 0;
        while i < self.bindings.len()
            invariant
                i <= self.bindings.len(),
                self@.index_of(name@) == index_from(self@.names(), name@, i as int),
            decreases self.bindings.len() - i,
        {
            if self.bindings[i].name == *name {
                return Some(i);
            }
            i += 1;
        }
        None
    }

    /// The cell bound to `name` in this frame.
    pub fn get(&self, name: &String) -> (r: Option<&EnvVar>)
        ensures
            match r {
                Some(v) => self@.lookup(name@) == Some(v@),
                None => self@.lookup(name@) is None,
            },
    {
        match self.position(name) {
            Some(i) => Some(&self.bindings[i].var),
            None => None,
        }
    }

    /// The cell bound to `name` in this frame, if its export flag passes
    /// the filter.
    pub fn hit(&self, name: &String, filter: Option<bool>) -> (r: Option<&EnvVar>)
        ensures
            match r {
                Some(v) => self@.hit(name@, filter) == Some(v@),
                None => self@.hit(name@, filter) is None,
            },
    {
        match self.get(name) {
            Some(v) => if filter_passes(filter, v.exports()) {
                Some(v)
            } else {
                None
            },
            None => None,
        }
    }

    /// Binds `name` to `var`, in place of the cell that it was bound to.
    pub fn put(&mut self, name: String, var: EnvVar)
        ensures
            final(self)@ == old(self)@.with(name@, var@),
    {
        match self.position(&name) {
            Some(i) => {
                self.bindings.set(i, Binding { name, var });
            },
            None => {
                self.bindings.push(Binding { name, var });
            },
        }
        assert(self@.bindings =~= old(self)@.with(name@, var@).bindings);
    }

    /// Unbinds `name` and hands out the cell that it was bound to.
    pub fn remove(&mut self, name: &String) -> (r: Option<EnvVar>)
        ensures
            final(self)@ == old(self)@.without(name@),
            match r {
                Some(v) => old(self)@.lookup(name@) == Some(v@),
                None => old(self)@.lookup(name@) is None,
            },
    {
        match self.position(name) {
            Some(i) => {
                let b = self.bindings.remove(i);
                assert(self@.bindings =~= old(self)@.without(name@).bindings);
                Some(b.var)
            },
            None => None,
        }
    }

    /// Appends to `out` the names of the bindings that pass the filter.
    pub fn push_names(&self, filter: Option<bool>, out: &mut Vec<String>)
        ensures
            strings_view(final(out)@) == strings_view(old(out)@) + self@.names_passing(filter),
    {
        let ghost base = strings_view(out@);
        let mut i: usize = 0;
        assert(strings_view(out@) =~= base + self@.passing_upto(filter, 0));
        while i < self.bindings.len()
            invariant
                i <= self.bindings.len(),
                strings_view(out@) == base + self@.passing_upto(filter, i as int),
            decreases self.bindings.len() - i,
        {
            let b = &self.bindings[i];
            let ghost before = strings_view(out@);
            if filter_passes(filter, b.var.exports()) {
                out.push(b.name.clone());
                assert(strings_view(out@) =~= before.push(b.name@));
                assert(strings_view(out@) =~= base + self@.passing_upto(filter, i + 1));
            }
            i += 1;
        }
    }

    /// Whether some binding is exported.
    pub fn has_exported(&self) -> (r: bool)
        ensures
            r == self@.exports_any(),
    {
        let mut i: usize = 0;
        while i < self.bindings.len()
            invariant
                i <= self.bindings.len(),
                forall|j: int| 0 <= j < i ==> !(#[trigger] self@.bindings[j]).var.flags.exports,
            decreases self.bindings.len() - i,
        {
            if self.bindings[i].var.exports() {
                assert(self@.bindings[i as int].var.flags.exports);
                return true;
            }
            i += 1;
        }
        false
    }
}

} // verus!
