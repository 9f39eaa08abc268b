//! The model of an environment stack: what its layers are, what a query
//! finds in them and what a mutation makes of them.

use crate::electric::{next_level, ElectricVar, ShellStateView};
use crate::frame::{lemma_with, lemma_without, FrameView};
use crate::mode::{EnvMode, EnvStackSetResult, Scope};
use crate::names::{dedup, lemma_index_from};
use crate::status::StatusesView;
use crate::text::has_suffix;
use crate::universal::{lemma_tier_wf, TierView};
use crate::var::{all_path_shaped, is_path_like, valid_name, EnvVarFlags, VarView};
use vstd::prelude::*;

verus! {

/// A name that a frame or the universal tier may bind: a valid name that is
/// not electric.
pub open spec fn storable(name: Seq<char>) -> bool {
    valid_name(name) && ElectricVar::named(name) is None
}

/// The names of a frame are distinct and storable.
pub open spec fn frame_ok(f: FrameView) -> bool {
    &&& f.wf()
    &&& forall|j: int| 0 <= j < f.bindings.len() ==> storable((#[trigger] f.bindings[j]).name)
}

/// The names of the tier are distinct and storable.
pub open spec fn tier_ok(t: TierView) -> bool {
    &&& t.wf()
    &&& forall|j: int| 0 <= j < t.entries.len() ==> storable((#[trigger] t.entries[j]).name)
}

/// Whether a scope looks into the universal tier.
pub open spec fn reaches_universal(scope: Scope) -> bool {
    scope == Scope::Any || scope == Scope::Universal
}

/// The flags of the cell that an assignment makes. The export flag is the
/// one that the mode asks for; without one, and for the other flags, the
/// cell that the new one replaces or shadows decides; without such a cell
/// the variable is not exported, not read-only, and a path variable where
/// its name says so.
pub open spec fn new_flags(name: Seq<char>, mode: EnvMode, existing: Option<VarView>) -> EnvVarFlags {
    EnvVarFlags {
        exports: match mode.export_filter() {
            Some(e) => e,
            None => match existing {
                Some(v) => v.flags.exports,
                None => false,
            },
        },
        read_only: match existing {
            Some(v) => v.flags.read_only,
            None => false,
        },
        pathvar: match existing {
            Some(v) => v.flags.pathvar,
            None => is_path_like(name),
        },
    }
}

/// What an environment stack is. `frames[0]` is the global frame, the last
/// frame is the innermost.
pub struct StackView {
    pub frames: Seq<FrameView>,
    pub universal: TierView,
    pub state: ShellStateView,
}

impl StackView {
    /// There is a global frame, which is no function boundary, and every
    /// layer binds distinct, storable names.
    pub open spec fn wf(self) -> bool {
        &&& self.frames.len() >= 1
        &&& !self.frames[0].is_new_scope
        &&& forall|i: int| 0 <= i < self.frames.len() ==> frame_ok(#[trigger] self.frames[i])
        &&& tier_ok(self.universal)
    }

    /// The stack of a fresh shell: an empty global frame, an empty tier,
    /// status 0, no working directory yet, shell level 1.
    pub open spec fn initial() -> StackView {
        StackView {
            frames: seq![FrameView { bindings: Seq::empty(), is_new_scope: false }],
            universal: TierView { entries: Seq::empty() },
            state: ShellStateView {
                statuses: StatusesView { status: 0, kill_signal: None, pipestatus: seq![0i32] },
                pwd: Seq::empty(),
                shell_level: 1,
            },
        }
    }

    /// The index of the nearest function boundary among the frames
    /// `1..n`, or 1 where none of them is one.
    pub open spec fn floor_upto(self, n: int) -> int
        decreases n,
    {
        if n <= 1 {
            1
        } else if self.frames[n - 1].is_new_scope {
            n - 1
        } else {
            self.floor_upto(n - 1)
        }
    }

    /// Where the local scope ends: the index of the nearest function
    /// boundary, or 1 where no frame above the global one is a function
    /// boundary.
    pub open spec fn local_floor(self) -> int {
        self.floor_upto(self.frames.len() as int)
    }

    /// Whether one of the frames `1..n` is a function boundary.
    pub open spec fn function_upto(self, n: int) -> bool
        decreases n,
    {
        if n <= 1 {
            false
        } else {
            self.frames[n - 1].is_new_scope || self.function_upto(n - 1)
        }
    }

    /// Whether a function boundary encloses the innermost scope.
    pub open spec fn in_function(self) -> bool {
        self.function_upto(self.frames.len() as int)
    }

    /// The first of the frames that a scope searches.
    pub open spec fn range_lo(self, scope: Scope) -> int {
        match scope {
            Scope::Local => self.local_floor(),
            _ => 0,
        }
    }

    /// One past the last of the frames that a scope searches.
    pub open spec fn range_hi(self, scope: Scope) -> int {
        match scope {
            Scope::Any => self.frames.len() as int,
            Scope::Local => self.frames.len() as int,
            Scope::Global => 1,
            Scope::Universal => 0,
        }
    }

    /// The cell of `name` in the innermost of the frames `lo..hi` that binds
    /// it with an export flag that passes the filter.
    pub open spec fn lookup_between(self, lo: int, hi: int, name: Seq<char>, filter: Option<bool>) -> Option<VarView>
        decreases hi - lo,
    {
        if hi <= lo {
            None
        } else {
            match self.frames[hi - 1].hit(name, filter) {
                Some(v) => Some(v),
                None => self.lookup_between(lo, hi - 1, name, filter),
            }
        }
    }

    /// What a query for `name` returns. An electric name is computed from
    /// the state, whatever the mode. Any other name is searched in the
    /// frames of the mode's scope, innermost first, then in the universal
    /// tier where the scope reaches it; a cell whose export flag does not
    /// pass the mode's filter is passed over.
    pub open spec fn resolve(self, name: Seq<char>, mode: EnvMode) -> Option<VarView> {
        match ElectricVar::named(name) {
            Some(ev) => Some(ev.value(self.state)),
            None => {
                let scope = mode.scope();
                let filter = mode.export_filter();
                match self.lookup_between(self.range_lo(scope), self.range_hi(scope), name, filter) {
                    Some(v) => Some(v),
                    None => if reaches_universal(scope) {
                        self.universal.hit(name, filter)
                    } else {
                        None
                    },
                }
            },
        }
    }

    /// The names that the frames `lo..hi` bind with an export flag that
    /// passes the filter, innermost frame first.
    pub open spec fn names_between(self, lo: int, hi: int, filter: Option<bool>) -> Seq<Seq<char>>
        decreases hi - lo,
    {
        if hi <= lo {
            Seq::empty()
        } else {
            self.frames[hi - 1].names_passing(filter) + self.names_between(lo, hi - 1, filter)
        }
    }

    /// The names that the layers of the mode's scope bind with an export
    /// flag that passes the mode's filter: frames innermost first, then the
    /// universal tier. A name stands once for each layer that binds it.
    pub open spec fn bound_names(self, mode: EnvMode) -> Seq<Seq<char>> {
        let scope = mode.scope();
        let filter = mode.export_filter();
        self.names_between(self.range_lo(scope), self.range_hi(scope), filter) + (if reaches_universal(scope) {
            self.universal.names_passing(filter)
        } else {
            Seq::empty()
        })
    }

    /// The names that a query by this mode can find: the electric names,
    /// then the bound names, each once.
    pub open spec fn names(self, mode: EnvMode) -> Seq<Seq<char>> {
        dedup(ElectricVar::all_names() + self.bound_names(mode))
    }

    /// The names of the variables handed to child processes: the exported
    /// electric names, then the names that a query for exported variables
    /// finds, each once. As such a query passes over a cell that is not
    /// exported and goes on to the next layer, an exported cell is handed on
    /// also where an inner cell that is not exported hides it from a query
    /// without filter.
    pub open spec fn export_names(self) -> Seq<Seq<char>> {
        dedup(ElectricVar::exported_names() + self.bound_names(EnvMode::exported()))
    }

    /// The entry `NAME=value` of an exported variable: the value is that of
    /// the cell that a query for exported variables finds, in its scalar
    /// form.
    pub open spec fn export_entry(self, name: Seq<char>) -> Seq<char> {
        match self.resolve(name, EnvMode::exported()) {
            Some(v) => name + seq!['='] + v.as_string(),
            None => name + seq!['='],
        }
    }

    /// The entries handed to child processes, in the order of `export_names`.
    pub open spec fn export_entries(self) -> Seq<Seq<char>> {
        Seq::new(self.export_names().len(), |i: int| self.export_entry(self.export_names()[i]))
    }

    /// The innermost of the frames `lo..hi` that binds `name`.
    pub open spec fn holder_between(self, lo: int, hi: int, name: Seq<char>) -> Option<int>
        decreases hi - lo,
    {
        if hi <= lo {
            None
        } else if self.frames[hi - 1].lookup(name) is Some {
            Some(hi - 1)
        } else {
            self.holder_between(lo, hi - 1, name)
        }
    }

    /// The frame that an assignment to `name` goes to, for a scope other
    /// than the universal one: the global frame for the global scope, the
    /// innermost frame for the local scope, and without a scope the
    /// innermost frame that binds the name or, if none does, the innermost
    /// frame.
    pub open spec fn set_frame(self, name: Seq<char>, scope: Scope) -> int {
        match scope {
            Scope::Any => match self.holder_between(0, self.frames.len() as int, name) {
                Some(i) => i,
                None => self.frames.len() - 1,
            },
            Scope::Local => self.frames.len() - 1,
            _ => 0,
        }
    }

    /// The cell that an assignment to `name` replaces.
    pub open spec fn set_existing(self, name: Seq<char>, scope: Scope) -> Option<VarView> {
        if scope == Scope::Universal {
            self.universal.lookup(name)
        } else {
            self.frames[self.set_frame(name, scope)].lookup(name)
        }
    }

    /// The cell that an assignment to `name` replaces or shadows: the cell
    /// that it replaces and, for an assignment without scope to a name that
    /// no frame binds, the cell of the universal tier that the new binding
    /// shadows. For a name that is not electric it is the cell that a query
    /// without scope or filter finds. If it is read-only it stands in the
    /// way of the assignment; if not, the new cell takes its flags from it.
    pub open spec fn set_guard(self, name: Seq<char>, scope: Scope) -> Option<VarView> {
        match self.set_existing(name, scope) {
            Some(v) => Some(v),
            None => if scope == Scope::Any {
                self.universal.lookup(name)
            } else {
                None
            },
        }
    }

    /// What an assignment answers. An electric name is handed to its write
    /// hook. For any other name, in this order: `ENV_INVALID` for a name
    /// that is not valid; `ENV_SCOPE` for the local scope outside every
    /// function; `ENV_PERM` where the cell to replace, or to shadow, is
    /// read-only; `ENV_INVALID` where the variable is a path variable and a
    /// value is not shaped like a path; else `ENV_OK`.
    pub open spec fn set_result(self, name: Seq<char>, mode: EnvMode, values: Seq<Seq<char>>) -> EnvStackSetResult {
        match ElectricVar::named(name) {
            Some(ev) => ev.write_result(values),
            None => {
                let scope = mode.scope();
                let guard = self.set_guard(name, scope);
                if !valid_name(name) {
                    EnvStackSetResult::ENV_INVALID
                } else if scope == Scope::Local && !self.in_function() {
                    EnvStackSetResult::ENV_SCOPE
                } else if guard is Some && guard->0.flags.read_only {
                    EnvStackSetResult::ENV_PERM
                } else if new_flags(name, mode, guard).pathvar && !all_path_shaped(values) {
                    EnvStackSetResult::ENV_INVALID
                } else {
                    EnvStackSetResult::ENV_OK
                }
            },
        }
    }

    /// The stack after an assignment: unchanged unless the answer is
    /// `ENV_OK`; then the state after the write hook for an electric name,
    /// and for any other name the new cell bound in the target layer.
    pub open spec fn after_set(self, name: Seq<char>, mode: EnvMode, values: Seq<Seq<char>>) -> StackView {
        if self.set_result(name, mode, values) != EnvStackSetResult::ENV_OK {
            self
        } else {
            match ElectricVar::named(name) {
                Some(ev) => StackView { state: ev.write_state(self.state, values), ..self },
                None => {
                    let scope = mode.scope();
                    let var = VarView { values, flags: new_flags(name, mode, self.set_guard(name, scope)) };
                    if scope == Scope::Universal {
                        StackView { universal: self.universal.with(name, var), ..self }
                    } else {
                        let i = self.set_frame(name, scope);
                        StackView { frames: self.frames.update(i, self.frames[i].with(name, var)), ..self }
                    }
                },
            }
        }
    }

    /// The frame that a removal of `name` looks into, for a scope other
    /// than the universal one: the global frame for the global scope, else
    /// the innermost frame of the scope that binds the name or, if none
    /// does, the innermost frame.
    pub open spec fn remove_frame(self, name: Seq<char>, scope: Scope) -> int {
        match scope {
            Scope::Any | Scope::Local => match self.holder_between(
                self.range_lo(scope),
                self.frames.len() as int,
                name,
            ) {
                Some(i) => i,
                None => self.frames.len() - 1,
            },
            _ => 0,
        }
    }

    /// The cell that a removal of `name` erases.
    pub open spec fn remove_existing(self, name: Seq<char>, scope: Scope) -> Option<VarView> {
        if scope == Scope::Universal {
            self.universal.lookup(name)
        } else {
            self.frames[self.remove_frame(name, scope)].lookup(name)
        }
    }

    /// What a removal answers, in this order: `ENV_PERM` for an electric
    /// name; `ENV_SCOPE` for the local scope outside every function;
    /// `ENV_NOT_FOUND` where the scope does not bind the name; `ENV_PERM`
    /// where the cell is read-only; else `ENV_OK`. The export flags of the
    /// mode play no part.
    pub open spec fn remove_result(self, name: Seq<char>, mode: EnvMode) -> EnvStackSetResult {
        let scope = mode.scope();
        let existing = self.remove_existing(name, scope);
        if ElectricVar::named(name) is Some {
            EnvStackSetResult::ENV_PERM
        } else if scope == Scope::Local && !self.in_function() {
            EnvStackSetResult::ENV_SCOPE
        } else if existing is None {
            EnvStackSetResult::ENV_NOT_FOUND
        } else if existing->0.flags.read_only {
            EnvStackSetResult::ENV_PERM
        } else {
            EnvStackSetResult::ENV_OK
        }
    }

    /// The stack after a removal: unchanged unless the answer is `ENV_OK`.
    pub open spec fn after_remove(self, name: Seq<char>, mode: EnvMode) -> StackView {
        let scope = mode.scope();
        if self.remove_result(name, mode) != EnvStackSetResult::ENV_OK {
            self
        } else if scope == Scope::Universal {
            StackView { universal: self.universal.without(name), ..self }
        } else {
            let i = self.remove_frame(name, scope);
            StackView { frames: self.frames.update(i, self.frames[i].without(name)), ..self }
        }
    }

    /// The stack with one more frame, empty, as the innermost.
    pub open spec fn after_push(self, new_scope: bool) -> StackView {
        StackView {
            frames: self.frames.push(FrameView { bindings: Seq::empty(), is_new_scope: new_scope }),
            ..self
        }
    }

    /// The stack without its innermost frame.
    pub open spec fn after_pop(self) -> StackView {
        StackView { frames: self.frames.drop_last(), ..self }
    }

    /// The mode in which a variable is taken over from the environment
    /// that the process was started with: global and exported.
    pub open spec fn inherited_mode() -> EnvMode {
        EnvMode { local: false, global: true, universal: false, export: true, unexport: false }
    }

    /// What taking over a variable of the environment that the process was
    /// started with answers: `ENV_OK` for `SHLVL`, else what the assignment
    /// of the value in the global scope answers.
    pub open spec fn inherit_result(self, name: Seq<char>, value: Seq<char>) -> EnvStackSetResult {
        if ElectricVar::named(name) == Some(ElectricVar::ShellLevel) {
            EnvStackSetResult::ENV_OK
        } else {
            self.set_result(name, StackView::inherited_mode(), seq![value])
        }
    }

    /// The stack after taking over a variable of the environment that the
    /// process was started with: `SHLVL` sets the shell level to the next
    /// one; any other variable is assigned in the global scope, exported.
    pub open spec fn after_inherit(self, name: Seq<char>, value: Seq<char>) -> StackView {
        if ElectricVar::named(name) == Some(ElectricVar::ShellLevel) {
            StackView { state: ShellStateView { shell_level: next_level(value), ..self.state }, ..self }
        } else {
            self.after_set(name, StackView::inherited_mode(), seq![value])
        }
    }

    /// The working directory with a `/` at its end.
    pub open spec fn pwd_slash(self) -> Seq<char> {
        if has_suffix(self.state.pwd, seq!['/']) {
            self.state.pwd
        } else {
            self.state.pwd.push('/')
        }
    }

    /// The stack with another working directory.
    pub open spec fn with_pwd(self, pwd: Seq<char>) -> StackView {
        StackView { state: ShellStateView { pwd, ..self.state }, ..self }
    }

    /// The stack after a change from outside to the universal tier. A
    /// change of a name that is not storable is dropped.
    pub open spec fn after_change(self, name: Seq<char>, seq: u64, var: Option<VarView>) -> StackView {
        if storable(name) {
            StackView { universal: self.universal.folded(name, seq, var), ..self }
        } else {
            self
        }
    }
}

/// Binding a storable name keeps a frame's names distinct and storable.
pub proof fn lemma_frame_ok_with(f: FrameView, name: Seq<char>, var: VarView)
    requires
        frame_ok(f),
        storable(name),
    ensures
        frame_ok(f.with(name, var)),
{
    lemma_with(f, name, var);
    lemma_index_from(f.names(), name, 0);
    let g = f.with(name, var);
    assert forall|j: int| 0 <= j < g.bindings.len() implies storable((#[trigger] g.bindings[j]).name) by {
        if j < f.bindings.len() && f.index_of(name) != Some(j) {
            assert(g.bindings[j] == f.bindings[j]);
        }
    }
}

/// Unbinding a name keeps a frame's names distinct and storable.
pub proof fn lemma_frame_ok_without(f: FrameView, name: Seq<char>)
    requires
        frame_ok(f),
    ensures
        frame_ok(f.without(name)),
{
    lemma_without(f, name);
    lemma_index_from(f.names(), name, 0);
    let g = f.without(name);
    assert forall|j: int| 0 <= j < g.bindings.len() implies storable((#[trigger] g.bindings[j]).name) by {
        match f.index_of(name) {
            Some(i) => {
                if j < i {
                    assert(g.bindings[j] == f.bindings[j]);
                } else {
                    assert(g.bindings[j] == f.bindings[j + 1]);
                }
            },
            None => {},
        }
    }
}

/// A local write, a local erasure and a change from outside of a storable
/// name each keep the tier's names distinct and storable.
pub proof fn lemma_tier_ok(t: TierView, name: Seq<char>, seq: u64, var: VarView, change: Option<VarView>)
    requires
        tier_ok(t),
        storable(name),
    ensures
        tier_ok(t.with(name, var)),
        tier_ok(t.without(name)),
        tier_ok(t.folded(name, seq, change)),
{
    lemma_tier_wf(t, name, seq, var, change);
    lemma_index_from(t.names(), name, 0);
    let a = t.with(name, var);
    let b = t.without(name);
    let c = t.folded(name, seq, change);
    assert forall|j: int| 0 <= j < a.entries.len() implies storable((#[trigger] a.entries[j]).name) by {
        if j < t.entries.len() && t.index_of(name) != Some(j) {
            assert(a.entries[j] == t.entries[j]);
        }
    }
    assert forall|j: int| 0 <= j < b.entries.len() implies storable((#[trigger] b.entries[j]).name) by {
        if t.index_of(name) != Some(j) {
            assert(b.entries[j] == t.entries[j]);
        }
    }
    assert forall|j: int| 0 <= j < c.entries.len() implies storable((#[trigger] c.entries[j]).name) by {
        if j < t.entries.len() && t.index_of(name) != Some(j) {
            assert(c.entries[j] == t.entries[j]);
        }
    }
}

} // verus!
