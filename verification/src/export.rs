//! When the exported entries stay what they were: the lemmas behind the
//! stack's memory of them.

use crate::electric::ElectricVar;
use crate::frame::{lemma_with, lemma_without, FrameView};
use crate::laws::{law_exported_names, lemma_floor};
use crate::mode::EnvMode;
use crate::names::lemma_index_from;
use crate::model::StackView;
use crate::universal::TierView;
use crate::var::VarView;
use vstd::prelude::*;

verus! {

/// Two frames hand the same variables to child processes: they bind the
/// same names to exported cells, in the same order, and to the same cells.
pub open spec fn same_exports(f: FrameView, g: FrameView) -> bool {
    &&& g.names_passing(Some(true)) == f.names_passing(Some(true))
    &&& forall|name: Seq<char>| #[trigger] g.hit(name, Some(true)) == f.hit(name, Some(true))
}

/// Two tiers hand the same variables to child processes.
pub open spec fn same_tier_exports(t: TierView, u: TierView) -> bool {
    &&& u.names_passing(Some(true)) == t.names_passing(Some(true))
    &&& forall|name: Seq<char>| #[trigger] u.hit(name, Some(true)) == t.hit(name, Some(true))
}

/// Whether a cell, if there is one, is exported.
pub open spec fn is_exported(var: Option<VarView>) -> bool {
    match var {
        Some(v) => v.flags.exports,
        None => false,
    }
}

/// Binding a name to a cell that is not exported, in place of none or of
/// one that is not exported, leaves the exported variables of a frame.
pub proof fn lemma_with_keeps_exports(f: FrameView, name: Seq<char>, var: VarView)
    requires
        f.wf(),
        !var.flags.exports,
        !is_exported(f.lookup(name)),
    ensures
        same_exports(f, f.with(name, var)),
{
    let g = f.with(name, var);
    let filter = Some(true);
    lemma_with(f, name, var);
    lemma_index_from(f.names(), name, 0);
    lemma_prefix_keeps(f, g, f.bindings.len() as int);
    assert forall|n: Seq<char>| #[trigger] g.hit(n, filter) == f.hit(n, filter) by {
        if n != name {
            assert(g.lookup(n) == f.lookup(n));
        }
    }
}

/// Where the first `n` bindings of two frames agree in name and in
/// whether they are exported, the frames agree in the exported names among
/// them.
proof fn lemma_prefix_keeps(f: FrameView, g: FrameView, n: int)
    requires
        0 <= n <= f.bindings.len(),
        n <= g.bindings.len(),
        forall|j: int|
            0 <= j < n ==> (#[trigger] g.bindings[j]).name == f.bindings[j].name && g.bindings[j].var.flags.exports
                == f.bindings[j].var.flags.exports,
    ensures
        g.passing_upto(Some(true), n) == f.passing_upto(Some(true), n),
    decreases n,
{
    if n > 0 {
        lemma_prefix_keeps(f, g, n - 1);
        assert(g.bindings[n - 1].name == f.bindings[n - 1].name);
    }
}

/// Unbinding a name whose cell is not exported leaves the exported
/// variables of a frame.
pub proof fn lemma_without_keeps_exports(f: FrameView, name: Seq<char>)
    requires
        f.wf(),
        !is_exported(f.lookup(name)),
    ensures
        same_exports(f, f.without(name)),
{
    let g = f.without(name);
    let filter = Some(true);
    lemma_without(f, name);
    lemma_index_from(f.names(), name, 0);
    match f.index_of(name) {
        Some(i) => {
            lemma_prefix_keeps(f, g, i);
            lemma_suffix_keeps(f, g, i, g.bindings.len() as int);
        },
        None => {},
    }
    assert forall|n: Seq<char>| #[trigger] g.hit(n, filter) == f.hit(n, filter) by {
        if n != name {
            assert(g.lookup(n) == f.lookup(n));
        }
    }
}

/// Where `g` is `f` without its binding at `i`, which is not exported, the
/// frames agree in the exported names.
proof fn lemma_suffix_keeps(f: FrameView, g: FrameView, i: int, n: int)
    requires
        0 <= i <= n <= g.bindings.len(),
        g.bindings.len() + 1 == f.bindings.len(),
        !f.bindings[i].var.flags.exports,
        g.passing_upto(Some(true), i) == f.passing_upto(Some(true), i),
        forall|j: int| i <= j < g.bindings.len() ==> (#[trigger] g.bindings[j]) == f.bindings[j + 1],
    ensures
        g.passing_upto(Some(true), n) == f.passing_upto(Some(true), n + 1),
    decreases n - i,
{
    if n > i {
        lemma_suffix_keeps(f, g, i, n - 1);
        assert(g.bindings[n - 1] == f.bindings[n]);
    }
}

/// A frame without an exported cell hands nothing to child processes.
pub proof fn lemma_nothing_exported(f: FrameView, n: int)
    requires
        !f.exports_any(),
        0 <= n <= f.bindings.len(),
    ensures
        f.passing_upto(Some(true), n) == Seq::<Seq<char>>::empty(),
        forall|name: Seq<char>| (#[trigger] f.hit(name, Some(true))) is None,
    decreases n,
{
    if n > 0 {
        lemma_nothing_exported(f, n - 1);
        assert(!f.bindings[n - 1].var.flags.exports);
    }
    assert forall|name: Seq<char>| (#[trigger] f.hit(name, Some(true))) is None by {
        lemma_index_from(f.names(), name, 0);
        if f.index_of(name) is Some {
            let k = f.index_of(name)->0;
            assert(!f.bindings[k].var.flags.exports);
        }
    }
}

/// Where the frames of a range hand the same variables to child processes
/// in two stacks, so does the range.
pub proof fn lemma_range_keeps(a: StackView, b: StackView, lo: int, hi: int, name: Seq<char>)
    requires
        0 <= lo,
        hi <= a.frames.len(),
        hi <= b.frames.len(),
        forall|j: int| lo <= j < hi ==> same_exports(#[trigger] a.frames[j], b.frames[j]),
    ensures
        b.names_between(lo, hi, Some(true)) == a.names_between(lo, hi, Some(true)),
        b.lookup_between(lo, hi, name, Some(true)) == a.lookup_between(lo, hi, name, Some(true)),
    decreases hi - lo,
{
    if hi > lo {
        lemma_range_keeps(a, b, lo, hi - 1, name);
        assert(same_exports(a.frames[hi - 1], b.frames[hi - 1]));
        assert(b.frames[hi - 1].hit(name, Some(true)) == a.frames[hi - 1].hit(name, Some(true)));
    }
}

/// Two stacks hand the same entries to child processes where their layers
/// hand the same variables and they agree in the state that exported
/// electric variables read.
pub proof fn lemma_same_entries(a: StackView, b: StackView)
    requires
        a.wf(),
        b.frames.len() == a.frames.len(),
        forall|j: int| 0 <= j < a.frames.len() ==> same_exports(#[trigger] a.frames[j], b.frames[j]),
        same_tier_exports(a.universal, b.universal),
        b.state.pwd == a.state.pwd,
        b.state.shell_level == a.state.shell_level,
    ensures
        b.export_entries() == a.export_entries(),
{
    let mode = EnvMode::exported();
    let n = a.frames.len() as int;
    lemma_range_keeps(a, b, 0, n, Seq::empty());
    assert(b.bound_names(mode) == a.bound_names(mode));
    assert(b.export_names() == a.export_names());
    assert forall|i: int| 0 <= i < a.export_names().len() implies b.export_entry(a.export_names()[i]) == a.export_entry(
        a.export_names()[i],
    ) by {
        let name = a.export_names()[i];
        law_exported_names(a, name);
        assert(a.export_names().contains(name));
        lemma_range_keeps(a, b, 0, n, name);
        assert(b.universal.hit(name, Some(true)) == a.universal.hit(name, Some(true)));
    }
    assert(b.export_entries() =~= a.export_entries());
}

/// Entering a scope leaves the exported entries.
pub proof fn lemma_push_keeps_entries(a: StackView, new_scope: bool)
    requires
        a.wf(),
    ensures
        a.after_push(new_scope).export_entries() == a.export_entries(),
{
    let b = a.after_push(new_scope);
    let mode = EnvMode::exported();
    let n = a.frames.len() as int;
    let top = b.frames[n];
    assert(top.passing_upto(Some(true), 0) =~= Seq::<Seq<char>>::empty());
    assert forall|j: int| 0 <= j < n implies same_exports(#[trigger] a.frames[j], b.frames[j]) by {
        assert(b.frames[j] == a.frames[j]);
    }
    lemma_range_keeps(a, b, 0, n, Seq::empty());
    assert(b.names_between(0, n + 1, Some(true)) =~= a.names_between(0, n, Some(true)));
    assert(b.bound_names(mode) == a.bound_names(mode));
    assert forall|i: int| 0 <= i < a.export_names().len() implies b.export_entry(a.export_names()[i]) == a.export_entry(
        a.export_names()[i],
    ) by {
        let name = a.export_names()[i];
        lemma_range_keeps(a, b, 0, n, name);
        assert(top.hit(name, Some(true)) is None);
    }
    assert(b.export_entries() =~= a.export_entries());
}

/// Leaving a scope that bound no exported cell leaves the exported entries.
pub proof fn lemma_pop_keeps_entries(a: StackView)
    requires
        a.wf(),
        a.frames.len() >= 2,
        !a.frames.last().exports_any(),
    ensures
        a.after_pop().export_entries() == a.export_entries(),
{
    let b = a.after_pop();
    let mode = EnvMode::exported();
    let n = b.frames.len() as int;
    let top = a.frames[n];
    lemma_nothing_exported(top, top.bindings.len() as int);
    assert forall|j: int| 0 <= j < n implies same_exports(#[trigger] a.frames[j], b.frames[j]) by {
        assert(b.frames[j] == a.frames[j]);
    }
    lemma_range_keeps(a, b, 0, n, Seq::empty());
    assert(a.names_between(0, n + 1, Some(true)) =~= b.names_between(0, n, Some(true)));
    assert(b.bound_names(mode) == a.bound_names(mode));
    assert forall|i: int| 0 <= i < a.export_names().len() implies b.export_entry(a.export_names()[i]) == a.export_entry(
        a.export_names()[i],
    ) by {
        let name = a.export_names()[i];
        lemma_range_keeps(a, b, 0, n, name);
        assert(top.hit(name, Some(true)) is None);
    }
    assert(b.export_entries() =~= a.export_entries());
}

} // verus!
