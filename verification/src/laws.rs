//! What holds of every environment stack, proved over its model.

use crate::electric::ElectricVar;
use crate::frame::{lemma_names_passing, lemma_with, FrameView};
use crate::mode::{EnvMode, EnvStackSetResult, Scope};
use crate::names::{distinct, lemma_add_contains, lemma_dedup, lemma_index_from};
use crate::model::{
    frame_ok, lemma_frame_ok_with, lemma_frame_ok_without, lemma_tier_ok, new_flags, reaches_universal, storable,
    StackView,
};
use crate::universal::lemma_tier_names_passing;
use crate::var::{valid_name, VarView};
use vstd::prelude::*;

verus! {

/// The local scope ends above the global frame and at or below the
/// innermost frame's successor.
pub proof fn lemma_floor(s: StackView, n: int)
    requires
        1 <= n <= s.frames.len(),
    ensures
        1 <= s.floor_upto(n) <= n,
        s.function_upto(n) ==> s.floor_upto(n) < n && s.frames[s.floor_upto(n)].is_new_scope,
    decreases n,
{
    if n > 1 && !s.frames[n - 1].is_new_scope {
        lemma_floor(s, n - 1);
    }
}

/// A function boundary encloses the innermost scope exactly where a frame
/// above the global one is a function boundary.
pub proof fn law_function_boundary(s: StackView, n: int)
    requires
        1 <= n <= s.frames.len(),
    ensures
        s.function_upto(n) <==> exists|i: int| 1 <= i < n && (#[trigger] s.frames[i]).is_new_scope,
    decreases n,
{
    if n > 1 {
        law_function_boundary(s, n - 1);
        if s.function_upto(n) && !s.frames[n - 1].is_new_scope {
            let i = choose|i: int| 1 <= i < n - 1 && (#[trigger] s.frames[i]).is_new_scope;
            assert(s.frames[i].is_new_scope);
        }
    }
}

/// The holder of a name is the innermost frame of the range that binds it.
pub proof fn lemma_holder(s: StackView, lo: int, hi: int, name: Seq<char>)
    requires
        0 <= lo <= hi <= s.frames.len(),
    ensures
        match s.holder_between(lo, hi, name) {
            Some(i) => lo <= i < hi && s.frames[i].lookup(name) is Some && forall|j: int|
                i < j < hi ==> (#[trigger] s.frames[j]).lookup(name) is None,
            None => forall|j: int| lo <= j < hi ==> (#[trigger] s.frames[j]).lookup(name) is None,
        },
    decreases hi - lo,
{
    if hi > lo && s.frames[hi - 1].lookup(name) is None {
        lemma_holder(s, lo, hi - 1, name);
    }
}

/// Frames that do not bind a name play no part in its lookup.
pub proof fn lemma_lookup_above(s: StackView, lo: int, i: int, hi: int, name: Seq<char>, filter: Option<bool>)
    requires
        0 <= lo <= i < hi <= s.frames.len(),
        forall|j: int| i < j < hi ==> (#[trigger] s.frames[j]).lookup(name) is None,
    ensures
        s.lookup_between(lo, hi, name, filter) == s.lookup_between(lo, i + 1, name, filter),
    decreases hi - i,
{
    if hi > i + 1 {
        assert(s.frames[hi - 1].lookup(name) is None);
        lemma_lookup_above(s, lo, i, hi - 1, name, filter);
    }
}

/// The frame that an assignment goes to is a frame of the stack.
pub proof fn lemma_set_frame(s: StackView, name: Seq<char>, scope: Scope)
    requires
        s.frames.len() >= 1,
    ensures
        0 <= s.set_frame(name, scope) < s.frames.len(),
        0 <= s.remove_frame(name, scope) < s.frames.len(),
{
    lemma_floor(s, s.frames.len() as int);
    lemma_holder(s, 0, s.frames.len() as int, name);
    lemma_holder(s, s.range_lo(scope), s.frames.len() as int, name);
}

/// A name that a layer binds is storable.
pub proof fn lemma_bound_is_storable(s: StackView, name: Seq<char>, i: int)
    requires
        s.wf(),
    ensures
        0 <= i < s.frames.len() && s.frames[i].lookup(name) is Some ==> storable(name),
        s.universal.index_of(name) is Some ==> storable(name),
{
    if 0 <= i < s.frames.len() && s.frames[i].lookup(name) is Some {
        lemma_index_from(s.frames[i].names(), name, 0);
        let k = s.frames[i].index_of(name)->0;
        assert(s.frames[i].bindings[k].name == name);
    }
    if s.universal.index_of(name) is Some {
        lemma_index_from(s.universal.names(), name, 0);
        let k = s.universal.index_of(name)->0;
        assert(s.universal.entries[k].name == name);
    }
}

/// Every operation leaves a well-formed stack well formed.
pub proof fn law_operations_preserve_wf(
    s: StackView,
    name: Seq<char>,
    mode: EnvMode,
    values: Seq<Seq<char>>,
    new_scope: bool,
    seq: u64,
    change: Option<VarView>,
)
    requires
        s.wf(),
    ensures
        s.after_set(name, mode, values).wf(),
        s.after_remove(name, mode).wf(),
        s.after_push(new_scope).wf(),
        s.frames.len() >= 2 ==> s.after_pop().wf(),
        s.after_change(name, seq, change).wf(),
{
    let scope = mode.scope();
    lemma_set_frame(s, name, scope);
    if s.set_result(name, mode, values) == EnvStackSetResult::ENV_OK && ElectricVar::named(name) is None {
        let var = VarView { values, flags: new_flags(name, mode, s.set_guard(name, scope)) };
        if scope == Scope::Universal {
            lemma_tier_ok(s.universal, name, 0, var, None);
        } else {
            let i = s.set_frame(name, scope);
            lemma_frame_ok_with(s.frames[i], name, var);
            let t = s.after_set(name, mode, values);
            assert forall|j: int| 0 <= j < t.frames.len() implies frame_ok(#[trigger] t.frames[j]) by {
                if j != i {
                    assert(t.frames[j] == s.frames[j]);
                }
            }
        }
    }
    if s.remove_result(name, mode) == EnvStackSetResult::ENV_OK {
        if scope == Scope::Universal {
            lemma_bound_is_storable(s, name, 0);
            lemma_tier_ok(s.universal, name, 0, arbitrary(), None);
        } else {
            let i = s.remove_frame(name, scope);
            lemma_frame_ok_without(s.frames[i], name);
            let t = s.after_remove(name, mode);
            assert forall|j: int| 0 <= j < t.frames.len() implies frame_ok(#[trigger] t.frames[j]) by {
                if j != i {
                    assert(t.frames[j] == s.frames[j]);
                }
            }
        }
    }
    let p = s.after_push(new_scope);
    assert forall|j: int| 0 <= j < p.frames.len() implies frame_ok(#[trigger] p.frames[j]) by {
        if j < s.frames.len() {
            assert(p.frames[j] == s.frames[j]);
        }
    }
    if s.frames.len() >= 2 {
        let q = s.after_pop();
        assert forall|j: int| 0 <= j < q.frames.len() implies frame_ok(#[trigger] q.frames[j]) by {
            assert(q.frames[j] == s.frames[j]);
        }
    }
    if storable(name) {
        lemma_tier_ok(s.universal, name, seq, arbitrary(), change);
    }
}

/// A query after an assignment returns what was assigned: where an
/// assignment without scope to a name that is not electric is answered by
/// `ENV_OK`, a query without scope or filter returns the values. Where the
/// name was bound before, in a frame or in the universal tier alone, the
/// flags are those that such a query found before, but for the export flag
/// where the mode asks for one; where it was not bound, they are the flags
/// that its name calls for.
pub proof fn law_set_then_get(s: StackView, name: Seq<char>, mode: EnvMode, values: Seq<Seq<char>>)
    requires
        s.wf(),
        ElectricVar::named(name) is None,
        mode.scope() == Scope::Any,
        s.set_result(name, mode, values) == EnvStackSetResult::ENV_OK,
    ensures
        s.after_set(name, mode, values).resolve(name, EnvMode::plain()) == Some(
            VarView { values, flags: new_flags(name, mode, s.resolve(name, EnvMode::plain())) },
        ),
        mode == EnvMode::plain() && s.resolve(name, EnvMode::plain()) is Some ==> new_flags(
            name,
            mode,
            s.resolve(name, EnvMode::plain()),
        ) == s.resolve(name, EnvMode::plain())->0.flags,
{
    let n = s.frames.len() as int;
    let t = s.after_set(name, mode, values);
    let i = s.set_frame(name, Scope::Any);
    let var = VarView { values, flags: new_flags(name, mode, s.set_guard(name, Scope::Any)) };
    lemma_plain_resolve(s, name);
    lemma_set_frame(s, name, Scope::Any);
    lemma_holder(s, 0, n, name);
    lemma_with(s.frames[i], name, var);
    assert forall|j: int| i < j < n implies (#[trigger] t.frames[j]).lookup(name) is None by {
        assert(t.frames[j] == s.frames[j]);
    }
    lemma_lookup_above(t, 0, i, n, name, None);
    assert(t.frames[i].hit(name, None) == Some(var));
}

/// Without a filter, a query without scope finds the cell of the innermost
/// frame that binds the name, or else the cell of the universal tier.
pub proof fn lemma_plain_resolve(s: StackView, name: Seq<char>)
    requires
        s.wf(),
        ElectricVar::named(name) is None,
    ensures
        s.resolve(name, EnvMode::plain()) == s.set_guard(name, Scope::Any),
{
    let n = s.frames.len() as int;
    lemma_holder(s, 0, n, name);
    match s.holder_between(0, n, name) {
        Some(i) => {
            lemma_lookup_above(s, 0, i, n, name, None);
        },
        None => {
            lemma_lookup_none(s, 0, n, name, None);
        },
    }
}

/// A lookup finds nothing in frames that do not bind the name.
pub proof fn lemma_lookup_none(s: StackView, lo: int, hi: int, name: Seq<char>, filter: Option<bool>)
    requires
        0 <= lo,
        hi <= s.frames.len(),
        forall|j: int| lo <= j < hi ==> (#[trigger] s.frames[j]).lookup(name) is None,
    ensures
        s.lookup_between(lo, hi, name, filter) is None,
    decreases hi - lo,
{
    if hi > lo {
        assert(s.frames[hi - 1].lookup(name) is None);
        lemma_lookup_none(s, lo, hi - 1, name, filter);
    }
}

/// A read-only variable stays as it is: where the cell that a query without
/// scope or filter finds for a name is read-only, an assignment without
/// scope is answered by `ENV_PERM`, whatever the values and the export flag
/// asked for, and changes nothing.
pub proof fn law_read_only_is_kept(s: StackView, name: Seq<char>, mode: EnvMode, values: Seq<Seq<char>>)
    requires
        s.wf(),
        mode.scope() == Scope::Any,
        s.resolve(name, EnvMode::plain()) is Some,
        s.resolve(name, EnvMode::plain())->0.flags.read_only,
    ensures
        s.set_result(name, mode, values) == EnvStackSetResult::ENV_PERM,
        s.after_set(name, mode, values) == s,
{
    if ElectricVar::named(name) is None {
        lemma_plain_resolve(s, name);
        lemma_set_frame(s, name, Scope::Any);
        lemma_bound_is_storable(s, name, s.set_frame(name, Scope::Any));
    }
}

/// A read-only cell is not replaced, whatever the scope: an assignment to
/// a name whose cell in the target layer is read-only is answered by
/// `ENV_PERM`, or by `ENV_SCOPE` where it asks for the local scope outside
/// every function, and changes nothing.
pub proof fn law_read_only_in_target(s: StackView, name: Seq<char>, mode: EnvMode, values: Seq<Seq<char>>)
    requires
        s.wf(),
        ElectricVar::named(name) is None,
        s.set_existing(name, mode.scope()) is Some,
        s.set_existing(name, mode.scope())->0.flags.read_only,
    ensures
        s.set_result(name, mode, values) == EnvStackSetResult::ENV_PERM || (mode.scope() == Scope::Local
            && !s.in_function() && s.set_result(name, mode, values) == EnvStackSetResult::ENV_SCOPE),
        s.after_set(name, mode, values) == s,
{
    lemma_set_frame(s, name, mode.scope());
    lemma_bound_is_storable(s, name, s.set_frame(name, mode.scope()));
}

/// What a function's scope binds is gone when the function returns: after
/// entering a function, assigning to a name in the local scope and leaving
/// the function, the stack is what it was. The one assignment that outlives
/// the scope is that of another working directory to `PWD`.
pub proof fn law_local_scope_is_discarded(s: StackView, name: Seq<char>, mode: EnvMode, values: Seq<Seq<char>>)
    requires
        s.wf(),
        mode.scope() == Scope::Local,
        ElectricVar::named(name) == Some(ElectricVar::Pwd) ==> values.len() != 1 || values[0] == s.state.pwd,
    ensures
        s.after_push(true).after_set(name, mode, values).after_pop() == s,
        forall|m: EnvMode|
            s.after_push(true).after_set(name, mode, values).after_pop().resolve(name, m) == s.resolve(name, m),
{
    let p = s.after_push(true);
    let t = p.after_set(name, mode, values);
    let q = t.after_pop();
    assert(q.frames =~= s.frames);
    assert(q.state == s.state);
}

/// Outside every function there is no local scope: an assignment in the
/// local scope to a valid name that is not electric is answered by
/// `ENV_SCOPE` and changes nothing.
pub proof fn law_local_needs_function(s: StackView, name: Seq<char>, mode: EnvMode, values: Seq<Seq<char>>)
    requires
        s.wf(),
        mode.scope() == Scope::Local,
        !s.in_function(),
        valid_name(name),
        ElectricVar::named(name) is None,
    ensures
        s.set_result(name, mode, values) == EnvStackSetResult::ENV_SCOPE,
        s.after_set(name, mode, values) == s,
        s.remove_result(name, mode) == EnvStackSetResult::ENV_SCOPE,
        s.after_remove(name, mode) == s,
{
}

/// A stack of the global frame alone is outside every function.
pub proof fn law_global_frame_is_no_function(s: StackView)
    requires
        s.wf(),
        s.frames.len() == 1,
    ensures
        !s.in_function(),
{
}

/// An electric variable without a write hook cannot be assigned to:
/// whatever the mode and the values, the answer is `ENV_PERM`, and nothing
/// changes. It cannot be removed either.
pub proof fn law_electric_without_hook(s: StackView, name: Seq<char>, mode: EnvMode, values: Seq<Seq<char>>)
    requires
        ElectricVar::named(name) is Some,
        !ElectricVar::named(name)->0.writable(),
    ensures
        s.set_result(name, mode, values) == EnvStackSetResult::ENV_PERM,
        s.after_set(name, mode, values) == s,
        s.remove_result(name, mode) == EnvStackSetResult::ENV_PERM,
        s.after_remove(name, mode) == s,
{
}

/// An electric name is a name of the registry.
pub proof fn lemma_electric_names(name: Seq<char>)
    ensures
        ElectricVar::all_names().contains(name) <==> ElectricVar::named(name) is Some,
        ElectricVar::exported_names().contains(name) <==> ElectricVar::named(name) is Some && ElectricVar::named(
            name,
        )->0.exported(),
{
    let all = ElectricVar::all_names();
    let exported = ElectricVar::exported_names();
    assert(all[0] == ElectricVar::Status.name_of());
    assert(all[1] == ElectricVar::Pipestatus.name_of());
    assert(all[2] == ElectricVar::KillSignal.name_of());
    assert(all[3] == ElectricVar::Pwd.name_of());
    assert(all[4] == ElectricVar::ShellLevel.name_of());
    assert(exported[0] == ElectricVar::Pwd.name_of());
    assert(exported[1] == ElectricVar::ShellLevel.name_of());
    reveal_strlit("status");
    reveal_strlit("pipestatus");
    reveal_strlit("fish_kill_signal");
    reveal_strlit("PWD");
    reveal_strlit("SHLVL");
    assert("status"@.len() == 6);
    assert("pipestatus"@.len() == 10);
    assert("fish_kill_signal"@.len() == 16);
    assert("PWD"@.len() == 3);
    assert("SHLVL"@.len() == 5);
}

/// The names that the frames of a range bind, as far as they pass the
/// filter, are the names that a lookup in the range finds.
pub proof fn lemma_names_between(s: StackView, lo: int, hi: int, filter: Option<bool>, name: Seq<char>)
    requires
        s.wf(),
        0 <= lo,
        hi <= s.frames.len(),
    ensures
        s.names_between(lo, hi, filter).contains(name) <==> s.lookup_between(lo, hi, name, filter) is Some,
    decreases hi - lo,
{
    if hi > lo {
        lemma_names_between(s, lo, hi - 1, filter, name);
        assert(frame_ok(s.frames[hi - 1]));
        lemma_names_passing(s.frames[hi - 1], filter, name);
        lemma_add_contains(s.frames[hi - 1].names_passing(filter), s.names_between(lo, hi - 1, filter), name);
    }
}

/// The bound names of a mode are the names that are not electric and that
/// a query by the mode finds.
pub proof fn lemma_bound_names(s: StackView, mode: EnvMode, name: Seq<char>)
    requires
        s.wf(),
    ensures
        s.bound_names(mode).contains(name) ==> storable(name),
        ElectricVar::named(name) is None ==> (s.bound_names(mode).contains(name) <==> s.resolve(name, mode) is Some),
{
    let scope = mode.scope();
    let filter = mode.export_filter();
    let lo = s.range_lo(scope);
    let hi = s.range_hi(scope);
    lemma_floor(s, s.frames.len() as int);
    lemma_names_between(s, lo, hi, filter, name);
    lemma_tier_names_passing(s.universal, filter, name);
    let tier = if reaches_universal(scope) {
        s.universal.names_passing(filter)
    } else {
        Seq::empty()
    };
    lemma_add_contains(s.names_between(lo, hi, filter), tier, name);
    if s.bound_names(mode).contains(name) {
        if s.lookup_between(lo, hi, name, filter) is Some {
            lemma_lookup_binds(s, lo, hi, name, filter);
        } else {
            lemma_bound_is_storable(s, name, 0);
        }
    }
}

/// What a lookup in a range finds is bound in a frame of the stack.
pub proof fn lemma_lookup_binds(s: StackView, lo: int, hi: int, name: Seq<char>, filter: Option<bool>)
    requires
        s.wf(),
        0 <= lo,
        hi <= s.frames.len(),
        s.lookup_between(lo, hi, name, filter) is Some,
    ensures
        storable(name),
    decreases hi - lo,
{
    if hi > lo {
        if s.frames[hi - 1].hit(name, filter) is Some {
            lemma_bound_is_storable(s, name, hi - 1);
        } else {
            lemma_lookup_binds(s, lo, hi - 1, name, filter);
        }
    }
}

/// The names of a mode are the names that a query by the mode finds, each
/// once.
pub proof fn law_names_are_what_queries_find(s: StackView, mode: EnvMode, name: Seq<char>)
    requires
        s.wf(),
    ensures
        distinct(s.names(mode)),
        s.names(mode).contains(name) <==> s.resolve(name, mode) is Some,
{
    lemma_dedup(ElectricVar::all_names() + s.bound_names(mode));
    lemma_add_contains(ElectricVar::all_names(), s.bound_names(mode), name);
    lemma_electric_names(name);
    lemma_bound_names(s, mode, name);
}

/// The variables handed to child processes are the exported electric
/// variables and the variables bound to an exported cell: each name stands
/// once, a query for exported variables finds it, what it finds is
/// exported, and the entry of the name holds what it finds.
pub proof fn law_exported_names(s: StackView, name: Seq<char>)
    requires
        s.wf(),
    ensures
        distinct(s.export_names()),
        s.export_names().contains(name) <==> (match s.resolve(name, EnvMode::exported()) {
            Some(v) => v.flags.exports,
            None => false,
        }),
        s.export_names().contains(name) ==> s.export_entry(name) == name + seq!['='] + s.resolve(
            name,
            EnvMode::exported(),
        )->0.as_string(),
{
    let mode = EnvMode::exported();
    lemma_dedup(ElectricVar::exported_names() + s.bound_names(mode));
    lemma_add_contains(ElectricVar::exported_names(), s.bound_names(mode), name);
    lemma_electric_names(name);
    lemma_bound_names(s, mode, name);
    if ElectricVar::named(name) is None && s.resolve(name, mode) is Some {
        lemma_resolve_passes(s, name, mode);
    }
}

/// Child processes get what the shell reads: where the cell that a query
/// without scope or filter finds for a name is exported, the name is among
/// the exported ones and its entry holds that very cell.
pub proof fn law_exports_agree_with_queries(s: StackView, name: Seq<char>)
    requires
        s.wf(),
        s.resolve(name, EnvMode::plain()) is Some,
        s.resolve(name, EnvMode::plain())->0.flags.exports,
    ensures
        s.resolve(name, EnvMode::exported()) == s.resolve(name, EnvMode::plain()),
        s.export_names().contains(name),
        s.export_entry(name) == name + seq!['='] + s.resolve(name, EnvMode::plain())->0.as_string(),
{
    if ElectricVar::named(name) is None {
        let n = s.frames.len() as int;
        lemma_plain_resolve(s, name);
        lemma_holder(s, 0, n, name);
        match s.holder_between(0, n, name) {
            Some(i) => {
                lemma_lookup_above(s, 0, i, n, name, Some(true));
            },
            None => {
                lemma_lookup_none(s, 0, n, name, Some(true));
            },
        }
    }
    law_exported_names(s, name);
}

/// An exported cell is handed to child processes wherever a query for
/// exported variables finds it, also where an inner cell that is not
/// exported hides it from a query without filter.
pub proof fn law_hidden_exports_are_handed_on(s: StackView, name: Seq<char>)
    requires
        s.wf(),
        ElectricVar::named(name) is None,
        s.resolve(name, EnvMode::exported()) is Some,
    ensures
        s.resolve(name, EnvMode::exported())->0.flags.exports,
        s.export_names().contains(name),
        s.export_entry(name) == name + seq!['='] + s.resolve(name, EnvMode::exported())->0.as_string(),
{
    lemma_resolve_passes(s, name, EnvMode::exported());
    law_exported_names(s, name);
}

/// What a lookup with a filter finds passes the filter.
pub proof fn lemma_lookup_passes(s: StackView, lo: int, hi: int, name: Seq<char>, filter: Option<bool>)
    requires
        s.lookup_between(lo, hi, name, filter) is Some,
    ensures
        crate::mode::passes(filter, s.lookup_between(lo, hi, name, filter)->0.flags.exports),
    decreases hi - lo,
{
    if hi > lo && s.frames[hi - 1].hit(name, filter) is None {
        lemma_lookup_passes(s, lo, hi - 1, name, filter);
    }
}

/// The cell that a query finds for a name that is not electric has the
/// export flag that the mode asks for.
pub proof fn lemma_resolve_passes(s: StackView, name: Seq<char>, mode: EnvMode)
    requires
        ElectricVar::named(name) is None,
        s.resolve(name, mode) is Some,
    ensures
        crate::mode::passes(mode.export_filter(), s.resolve(name, mode)->0.flags.exports),
{
    let scope = mode.scope();
    if s.lookup_between(s.range_lo(scope), s.range_hi(scope), name, mode.export_filter()) is Some {
        lemma_lookup_passes(s, s.range_lo(scope), s.range_hi(scope), name, mode.export_filter());
    }
}

/// Asking for the exported entries twice in a row gives the same entries
/// in the same order: the first answer is settled by the stack alone, and
/// asking leaves the stack as it was.
pub proof fn law_export_is_stable(
    s: StackView,
    first: Seq<Seq<char>>,
    after_first: StackView,
    second: Seq<Seq<char>>,
    after_second: StackView,
)
    requires
        first == s.export_entries(),
        after_first == s,
        second == after_first.export_entries(),
        after_second == after_first,
    ensures
        second == first,
        after_second == s,
{
}

} // verus!
