//! The environment stack: frames from the global one to the innermost, the
//! universal tier beneath them, and the state that electric variables read.

use crate::electric::{next_shell_level, ElectricVar, ShellState, ShellStateView, ELECTRIC_COUNT};
use crate::export::{
    lemma_pop_keeps_entries, lemma_push_keeps_entries, lemma_same_entries, lemma_with_keeps_exports,
    lemma_without_keeps_exports,
};
use crate::frame::Frame;
use crate::mode::{EnvMode, EnvStackSetResult, Scope};
use crate::model::{lemma_frame_ok_with, lemma_frame_ok_without, lemma_tier_ok, new_flags, storable, StackView};
use crate::names::{dedup_names, lemma_index_from};
use crate::status::Statuses;
use crate::text::{ends_with, strings_view};
use crate::universal::{option_view, UniversalTier};
use crate::var::{clone_strings, is_valid_name, name_is_path_like, values_path_shaped, EnvVar, EnvVarFlags};
use vstd::prelude::*;

verus! {

/// What a notice of a change is: the name that changed, and whether the
/// change was made in the universal tier and is owed to the other shells.
pub struct ChangeView {
    pub name: Seq<char>,
    pub universal: bool,
}

/// A notice of a change that this shell made to a variable.
#[derive(Debug)]
pub struct Change {
    /// The name that changed.
    pub name: String,
    /// Whether the change was made in the universal tier.
    pub universal: bool,
}

impl View for Change {
    type V = ChangeView;

    open spec fn view(&self) -> ChangeView {
        ChangeView { name: self.name@, universal: self.universal }
    }
}

/// What a list of notices is.
pub open spec fn changes_view(changes: Seq<Change>) -> Seq<ChangeView> {
    Seq::new(changes.len(), |i: int| changes[i]@)
}

/// The environment stack.
#[derive(Debug)]
pub struct EnvStack {
    frames: Vec<Frame>,
    universal: UniversalTier,
    state: ShellState,
    principal: bool,
    pending: Vec<Change>,
    export_cache: Option<Vec<String>>,
}

impl View for EnvStack {
    type V = StackView;

    closed spec fn view(&self) -> StackView {
        StackView {
            frames: Seq::new(self.frames@.len(), |i: int| self.frames@[i]@),
            universal: self.universal@,
            state: self.state@,
        }
    }
}

impl EnvStack {
    /// The stack is well formed, and what it remembers of the exported
    /// entries is what they are.
    pub closed spec fn inv(&self) -> bool {
        &&& self@.wf()
        &&& match self.export_cache {
            Some(c) => strings_view(c@) == self@.export_entries(),
            None => true,
        }
    }

    /// Whether this is the one stack that stands for the shell itself.
    pub closed spec fn principal(&self) -> bool {
        self.principal
    }

    /// The notices of changes that were made and not yet taken.
    pub closed spec fn pending(&self) -> Seq<ChangeView> {
        changes_view(self.pending@)
    }

    /// A stack that holds its invariant is well formed.
    pub proof fn lemma_inv_wf(&self)
        requires
            self.inv(),
        ensures
            self@.wf(),
    {
    }

    /// The stack of a fresh shell.
    pub fn new(principal: bool) -> (r: EnvStack)
        ensures
            r.inv(),
            r@ == StackView::initial(),
            r.principal() == principal,
            r.pending() == Seq::<ChangeView>::empty(),
    {
        let mut frames: Vec<Frame> = Vec::new();
        frames.push(Frame::new(false));
        let r = EnvStack {
            frames,
            universal: UniversalTier::new(),
            state: ShellState { statuses: Statuses::just(0), pwd: String::new(), shell_level: 1 },
            principal,
            pending: Vec::new(),
            export_cache: None,
        };
        assert(r@.frames =~= StackView::initial().frames);
        assert(r.pending() =~= Seq::<ChangeView>::empty());
        r
    }

    /// Whether this is the one stack that stands for the shell itself.
    pub fn is_principal(&self) -> (r: bool)
        ensures
            r == self.principal(),
    {
        self.principal
    }

    /// How many frames there are, the global one included.
    pub fn depth(&self) -> (n: usize)
        ensures
            n == self@.frames.len(),
    {
        self.frames.len()
    }

    /// Enters a scope: a function call where `new_scope` is set, else a block.
    pub fn push(&mut self, new_scope: bool)
        requires
            old(self).inv(),
        ensures
            final(self).inv(),
            final(self)@ == old(self)@.after_push(new_scope),
            final(self).principal() == old(self).principal(),
            final(self).pending() == old(self).pending(),
    {
        self.frames.push(Frame::new(new_scope));
        proof {
            assert(self@.frames =~= old(self)@.after_push(new_scope).frames);
            lemma_push_keeps_entries(old(self)@, new_scope);
        }
    }

    /// Leaves the innermost scope and drops what it bound. The global frame
    /// cannot be left.
    pub fn pop(&mut self)
        requires
            old(self).inv(),
            old(self)@.frames.len() >= 2,
        ensures
            final(self).inv(),
            final(self)@ == old(self)@.after_pop(),
            final(self).principal() == old(self).principal(),
            final(self).pending() == old(self).pending(),
    {
        let top = self.frames.len() - 1;
        assert(self@.frames[top as int] == self.frames@[top as int]@);
        if self.frames[top].has_exported() {
            self.export_cache = None;
        }
        self.frames.pop();
        proof {
            assert(self@.frames =~= old(self)@.after_pop().frames);
            if !old(self)@.frames.last().exports_any() {
                lemma_pop_keeps_entries(old(self)@);
            }
        }
    }

    /// The statuses of the last pipeline.
    pub fn get_last_statuses(&self) -> (r: Statuses)
        ensures
            r@ == self@.state.statuses,
    {
        self.state.statuses.clone()
    }

    /// Replaces the statuses of the last pipeline as a whole.
    pub fn set_last_statuses(&mut self, statuses: Statuses)
        requires
            old(self).inv(),
        ensures
            final(self).inv(),
            final(self)@ == (StackView {
                state: ShellStateView { statuses: statuses@, ..old(self)@.state },
                ..old(self)@
            }),
            final(self).principal() == old(self).principal(),
            final(self).pending() == old(self).pending(),
    {
        self.state.statuses = statuses;
        proof {
            lemma_same_entries(old(self)@, self@);
        }
    }

    /// Sets how deeply shells are nested.
    pub fn set_shell_level(&mut self, level: i32)
        requires
            old(self).inv(),
        ensures
            final(self).inv(),
            final(self)@ == (StackView {
                state: ShellStateView { shell_level: level, ..old(self)@.state },
                ..old(self)@
            }),
            final(self).principal() == old(self).principal(),
            final(self).pending() == old(self).pending(),
    {
        self.export_cache = None;
        self.state.shell_level = level;
    }

    /// Where the local scope ends, and whether a function boundary encloses
    /// the innermost scope.
    fn local_bounds(&self) -> (r: (usize, bool))
        requires
            self@.frames.len() >= 1,
        ensures
            r.0 == self@.local_floor(),
            r.1 == self@.in_function(),
            1 <= r.0 <= self@.frames.len(),
    {
        let mut n: usize = self.frames.len();
        while n > 1
            invariant
                1 <= n <= self.frames.len(),
                self@.local_floor() == self@.floor_upto(n as int),
                self@.in_function() == self@.function_upto(n as int),
            decreases n,
        {
            if self.frames[n - 1].is_new_scope() {
                return (n - 1, true);
            }
            n -= 1;
        }
        (1, false)
    }

    /// The frames that a scope searches, as a range of indices.
    fn range(&self, scope: Scope) -> (r: (usize, usize))
        requires
            self@.frames.len() >= 1,
        ensures
            r.0 == self@.range_lo(scope),
            r.1 == self@.range_hi(scope),
            r.0 <= r.1 <= self@.frames.len(),
    {
        match scope {
            Scope::Any => (0, self.frames.len()),
            Scope::Local => (self.local_bounds().0, self.frames.len()),
            Scope::Global => (0, 1),
            Scope::Universal => (0, 0),
        }
    }

    /// The cell of `name` as the mode selects it.
    pub(crate) fn lookup(&self, name: &str, mode: EnvMode) -> (r: Option<EnvVar>)
        requires
            self.inv(),
        ensures
            option_view(r) == self@.resolve(name@, mode),
    {
        match ElectricVar::for_name(name) {
            Some(ev) => {
                return Some(ev.read(&self.state));
            },
            None => {},
        }
        let key = name.to_owned();
        let scope = mode.get_scope();
        let filter = mode.get_export_filter();
        let (lo, hi) = self.range(scope);
        let mut i: usize = hi;
        while i > lo
            invariant
                lo <= i <= hi <= self.frames.len(),
                key@ == name@,
                ElectricVar::named(name@) is None,
                scope == mode.scope(),
                filter == mode.export_filter(),
                lo == self@.range_lo(scope),
                hi == self@.range_hi(scope),
                self@.lookup_between(lo as int, hi as int, name@, filter) == self@.lookup_between(
                    lo as int,
                    i as int,
                    name@,
                    filter,
                ),
            decreases i,
        {
            i -= 1;
            assert(self@.frames[i as int] == self.frames@[i as int]@);
            match self.frames[i].hit(&key, filter) {
                Some(v) => {
                    assert(self@.lookup_between(lo as int, i + 1, name@, filter) == Some(v@));
                    return Some(v.clone());
                },
                None => {},
            }
        }
        match scope {
            Scope::Any | Scope::Universal => match self.universal.hit(&key, filter) {
                Some(v) => Some(v.clone()),
                None => None,
            },
            _ => None,
        }
    }
}

impl EnvStack {
    /// The innermost of the frames `lo..hi` that binds `key`.
    fn holder(&self, lo: usize, hi: usize, key: &String) -> (r: Option<usize>)
        requires
            lo <= hi <= self@.frames.len(),
        ensures
            match r {
                Some(i) => lo <= i < hi && self@.holder_between(lo as int, hi as int, key@) == Some(i as int),
                None => self@.holder_between(lo as int, hi as int, key@) is None,
            },
    {
        let mut i: usize = hi;
        while i > lo
            invariant
                lo <= i <= hi <= self.frames.len(),
                self@.holder_between(lo as int, hi as int, key@) == self@.holder_between(lo as int, i as int, key@),
            decreases i,
        {
            i -= 1;
            assert(self@.frames[i as int] == self.frames@[i as int]@);
            match self.frames[i].get(key) {
                Some(_) => {
                    return Some(i);
                },
                None => {},
            }
        }
        None
    }

    /// The flags of the cell that an assignment makes.
    fn flags_for_set(name: &str, mode: EnvMode, existing: Option<&EnvVar>) -> (f: EnvVarFlags)
        ensures
            f == new_flags(
                name@,
                mode,
                match existing {
                    Some(v) => Some(v@),
                    None => None,
                },
            ),
    {
        let exports = match mode.get_export_filter() {
            Some(e) => e,
            None => match existing {
                Some(v) => v.exports(),
                None => false,
            },
        };
        let read_only = match existing {
            Some(v) => v.is_read_only(),
            None => false,
        };
        let pathvar = match existing {
            Some(v) => v.is_pathvar(),
            None => name_is_path_like(name),
        };
        EnvVarFlags { exports, read_only, pathvar }
    }

    /// Records a notice of a change.
    fn notify(&mut self, name: &str, universal: bool)
        ensures
            final(self)@ == old(self)@,
            final(self).export_cache == old(self).export_cache,
            final(self).principal() == old(self).principal(),
            final(self).pending() == old(self).pending().push(ChangeView { name: name@, universal }),
    {
        self.pending.push(Change { name: name.to_owned(), universal });
        assert(self.pending() =~= old(self).pending().push(ChangeView { name: name@, universal }));
    }

    /// Assigns `values` to `name` as the mode selects.
    pub fn set(&mut self, name: &str, mode: EnvMode, values: Vec<String>) -> (r: EnvStackSetResult)
        requires
            old(self).inv(),
        ensures
            final(self).inv(),
            r == old(self)@.set_result(name@, mode, strings_view(values@)),
            final(self)@ == old(self)@.after_set(name@, mode, strings_view(values@)),
            final(self).principal() == old(self).principal(),
            final(self).pending() == (if r == EnvStackSetResult::ENV_OK {
                old(self).pending().push(ChangeView { name: name@, universal: mode.scope() == Scope::Universal && ElectricVar::named(name@) is None })
            } else {
                old(self).pending()
            }),
    {
        match ElectricVar::for_name(name) {
            Some(ev) => {
                let r = ev.write(&mut self.state, &values);
                match r {
                    EnvStackSetResult::ENV_OK => {
                        self.export_cache = None;
                        self.notify(name, false);
                    },
                    _ => {},
                }
                return r;
            },
            None => {},
        }
        if !is_valid_name(name) {
            return EnvStackSetResult::ENV_INVALID;
        }
        let key = name.to_owned();
        let scope = mode.get_scope();
        match scope {
            Scope::Universal => {
                let existing = self.universal.get(&key);
                match existing {
                    Some(v) => if v.is_read_only() {
                        return EnvStackSetResult::ENV_PERM;
                    },
                    None => {},
                }
                let flags = EnvStack::flags_for_set(name, mode, existing);
                if flags.pathvar && !values_path_shaped(&values) {
                    return EnvStackSetResult::ENV_INVALID;
                }
                let var = EnvVar::new_vec(values, flags);
                proof {
                    lemma_tier_ok(self@.universal, name@, 0, var@, None);
                }
                self.export_cache = None;
                self.universal.put(key, var);
                self.notify(name, true);
                EnvStackSetResult::ENV_OK
            },
            _ => {
                let (_, in_function) = self.local_bounds();
                let i: usize = match scope {
                    Scope::Local => {
                        if !in_function {
                            return EnvStackSetResult::ENV_SCOPE;
                        }
                        self.frames.len() - 1
                    },
                    Scope::Global => 0,
                    _ => match self.holder(0, self.frames.len(), &key) {
                        Some(i) => i,
                        None => self.frames.len() - 1,
                    },
                };
                assert(i == self@.set_frame(name@, scope));
                assert(self@.frames[i as int] == self.frames@[i as int]@);
                let existing = self.frames[i].get(&key);
                let guard = match existing {
                    Some(v) => Some(v),
                    None => match scope {
                        Scope::Any => self.universal.get(&key),
                        _ => None,
                    },
                };
                match guard {
                    Some(v) => if v.is_read_only() {
                        return EnvStackSetResult::ENV_PERM;
                    },
                    None => {},
                }
                let flags = EnvStack::flags_for_set(name, mode, guard);
                if flags.pathvar && !values_path_shaped(&values) {
                    return EnvStackSetResult::ENV_INVALID;
                }
                let was_exported = match existing {
                    Some(v) => v.exports(),
                    None => false,
                };
                let var = EnvVar::new_vec(values, flags);
                proof {
                    lemma_frame_ok_with(self@.frames[i as int], name@, var@);
                }
                if was_exported || flags.exports {
                    self.export_cache = None;
                }
                self.frames[i].put(key, var);
                proof {
                    assert(self@.frames =~= old(self)@.frames.update(
                        i as int,
                        old(self)@.frames[i as int].with(name@, var@),
                    ));
                    if !(was_exported || flags.exports) {
                        lemma_with_keeps_exports(old(self)@.frames[i as int], name@, var@);
                        lemma_same_entries(old(self)@, self@);
                    }
                }
                self.notify(name, false);
                EnvStackSetResult::ENV_OK
            },
        }
    }

    /// Assigns the one value to `name` as the mode selects.
    pub fn set_one(&mut self, name: &str, mode: EnvMode, value: String) -> (r: EnvStackSetResult)
        requires
            old(self).inv(),
        ensures
            final(self).inv(),
            r == old(self)@.set_result(name@, mode, seq![value@]),
            final(self)@ == old(self)@.after_set(name@, mode, seq![value@]),
            final(self).principal() == old(self).principal(),
            final(self).pending() == (if r == EnvStackSetResult::ENV_OK {
                old(self).pending().push(ChangeView { name: name@, universal: mode.scope() == Scope::Universal && ElectricVar::named(name@) is None })
            } else {
                old(self).pending()
            }),
    {
        let mut values: Vec<String> = Vec::new();
        values.push(value);
        assert(strings_view(values@) =~= seq![value@]);
        self.set(name, mode, values)
    }

    /// Takes over a variable of the environment that the process was
    /// started with. `SHLVL` makes this shell one level deeper than the
    /// shell that started it; any other variable becomes a global exported
    /// variable, as far as an assignment takes it.
    pub fn inherit(&mut self, name: &str, value: &str) -> (r: EnvStackSetResult)
        requires
            old(self).inv(),
        ensures
            final(self).inv(),
            r == old(self)@.inherit_result(name@, value@),
            final(self)@ == old(self)@.after_inherit(name@, value@),
            final(self).principal() == old(self).principal(),
            final(self).pending() == (if r == EnvStackSetResult::ENV_OK && ElectricVar::named(name@) != Some(
                ElectricVar::ShellLevel,
            ) {
                old(self).pending().push(ChangeView { name: name@, universal: false })
            } else {
                old(self).pending()
            }),
    {
        match ElectricVar::for_name(name) {
            Some(ElectricVar::ShellLevel) => {
                self.set_shell_level(next_shell_level(value));
                EnvStackSetResult::ENV_OK
            },
            _ => {
                let mode = EnvMode { local: false, global: true, universal: false, export: true, unexport: false };
                self.set_one(name, mode, value.to_owned())
            },
        }
    }

    /// Removes `name` from the layer that the mode selects.
    pub fn remove(&mut self, name: &str, mode: EnvMode) -> (r: EnvStackSetResult)
        requires
            old(self).inv(),
        ensures
            final(self).inv(),
            r == old(self)@.remove_result(name@, mode),
            final(self)@ == old(self)@.after_remove(name@, mode),
            final(self).principal() == old(self).principal(),
            final(self).pending() == (if r == EnvStackSetResult::ENV_OK {
                old(self).pending().push(ChangeView { name: name@, universal: mode.scope() == Scope::Universal })
            } else {
                old(self).pending()
            }),
    {
        match ElectricVar::for_name(name) {
            Some(_) => {
                return EnvStackSetResult::ENV_PERM;
            },
            None => {},
        }
        let key = name.to_owned();
        let scope = mode.get_scope();
        match scope {
            Scope::Universal => {
                match self.universal.get(&key) {
                    Some(v) => if v.is_read_only() {
                        return EnvStackSetResult::ENV_PERM;
                    },
                    None => {
                        return EnvStackSetResult::ENV_NOT_FOUND;
                    },
                }
                proof {
                    lemma_index_from(self@.universal.names(), name@, 0);
                    let k = self@.universal.index_of(name@)->0;
                    assert(storable(self@.universal.entries[k].name));
                    lemma_tier_ok(self@.universal, name@, 0, arbitrary(), None);
                }
                self.export_cache = None;
                self.universal.erase(key);
                self.notify(name, true);
                EnvStackSetResult::ENV_OK
            },
            _ => {
                let (floor, in_function) = self.local_bounds();
                let i: usize = match scope {
                    Scope::Local => {
                        if !in_function {
                            return EnvStackSetResult::ENV_SCOPE;
                        }
                        match self.holder(floor, self.frames.len(), &key) {
                            Some(i) => i,
                            None => self.frames.len() - 1,
                        }
                    },
                    Scope::Global => 0,
                    _ => match self.holder(0, self.frames.len(), &key) {
                        Some(i) => i,
                        None => self.frames.len() - 1,
                    },
                };
                assert(i == self@.remove_frame(name@, scope));
                assert(self@.frames[i as int] == self.frames@[i as int]@);
                let was_exported = match self.frames[i].get(&key) {
                    Some(v) => {
                        if v.is_read_only() {
                            return EnvStackSetResult::ENV_PERM;
                        }
                        v.exports()
                    },
                    None => {
                        return EnvStackSetResult::ENV_NOT_FOUND;
                    },
                };
                proof {
                    lemma_frame_ok_without(self@.frames[i as int], name@);
                }
                if was_exported {
                    self.export_cache = None;
                }
                self.frames[i].remove(&key);
                proof {
                    assert(self@.frames =~= old(self)@.frames.update(
                        i as int,
                        old(self)@.frames[i as int].without(name@),
                    ));
                    if !was_exported {
                        lemma_without_keeps_exports(old(self)@.frames[i as int], name@);
                        lemma_same_entries(old(self)@, self@);
                    }
                }
                self.notify(name, false);
                EnvStackSetResult::ENV_OK
            },
        }
    }

    /// Folds a change from the other shells into the universal tier: `var`
    /// is the new cell of `name`, or `None` where the variable was erased.
    /// The change is dropped where the name is not storable, or where the
    /// tier holds a change of that name with the same or a later sequence
    /// number. Says whether the change was taken.
    pub fn apply_universal_change(&mut self, name: &str, seq: u64, var: Option<EnvVar>) -> (taken: bool)
        requires
            old(self).inv(),
        ensures
            final(self).inv(),
            taken == (storable(name@) && old(self)@.universal.accepts(name@, seq)),
            final(self)@ == old(self)@.after_change(name@, seq, option_view(var)),
            final(self).principal() == old(self).principal(),
            final(self).pending() == old(self).pending(),
    {
        match ElectricVar::for_name(name) {
            Some(_) => {
                return false;
            },
            None => {},
        }
        if !is_valid_name(name) {
            return false;
        }
        proof {
            lemma_tier_ok(self@.universal, name@, seq, arbitrary(), option_view(var));
        }
        self.export_cache = None;
        self.universal.fold(name.to_owned(), seq, var)
    }

    /// Takes the notices of the changes made since the last call, oldest
    /// first.
    pub fn take_changes(&mut self) -> (r: Vec<Change>)
        requires
            old(self).inv(),
        ensures
            final(self).inv(),
            final(self)@ == old(self)@,
            changes_view(r@) == old(self).pending(),
            final(self).pending() == Seq::<ChangeView>::empty(),
            final(self).principal() == old(self).principal(),
    {
        let mut r: Vec<Change> = Vec::new();
        std::mem::swap(&mut r, &mut self.pending);
        assert(self.pending() =~= Seq::<ChangeView>::empty());
        r
    }
}

impl EnvStack {
    /// Appends to `out` the names that the frames `lo..hi` bind with an
    /// export flag that passes the filter, innermost frame first.
    fn push_frame_names(&self, lo: usize, hi: usize, filter: Option<bool>, out: &mut Vec<String>)
        requires
            lo <= hi <= self@.frames.len(),
        ensures
            strings_view(final(out)@) == strings_view(old(out)@) + self@.names_between(lo as int, hi as int, filter),
    {
        let ghost base = strings_view(out@);
        let ghost all = self@.names_between(lo as int, hi as int, filter);
        let mut i: usize = hi;
        assert(strings_view(out@) + all =~= base + all);
        while i > lo
            invariant
                lo <= i <= hi <= self.frames.len(),
                all == self@.names_between(lo as int, hi as int, filter),
                strings_view(out@) + self@.names_between(lo as int, i as int, filter) == base + all,
            decreases i,
        {
            let ghost before = strings_view(out@);
            i -= 1;
            assert(self@.frames[i as int] == self.frames@[i as int]@);
            self.frames[i].push_names(filter, out);
            assert(strings_view(out@) + self@.names_between(lo as int, i as int, filter) =~= before + self@.names_between(
                lo as int,
                i + 1,
                filter,
            ));
        }
        assert(strings_view(out@) =~= strings_view(out@) + self@.names_between(lo as int, lo as int, filter));
    }

    /// Appends to `out` the names that the layers of the mode's scope bind
    /// with an export flag that passes the mode's filter.
    fn push_bound_names(&self, mode: EnvMode, out: &mut Vec<String>)
        requires
            self@.frames.len() >= 1,
        ensures
            strings_view(final(out)@) == strings_view(old(out)@) + self@.bound_names(mode),
    {
        let scope = mode.get_scope();
        let filter = mode.get_export_filter();
        let (lo, hi) = self.range(scope);
        let ghost base = strings_view(out@);
        self.push_frame_names(lo, hi, filter, out);
        match scope {
            Scope::Any | Scope::Universal => {
                self.universal.push_names(filter, out);
            },
            _ => {},
        }
        assert(strings_view(out@) =~= base + self@.bound_names(mode));
    }

    /// The names that a query by this mode can find: the electric names,
    /// then the names bound in the layers of the mode's scope, each once.
    pub(crate) fn list_names(&self, mode: EnvMode) -> (r: Vec<String>)
        requires
            self.inv(),
        ensures
            strings_view(r@) == self@.names(mode),
    {
        let mut names: Vec<String> = Vec::new();
        let mut i: usize = 0;
        while i < ELECTRIC_COUNT
            invariant
                i <= ELECTRIC_COUNT,
                names.len() == i,
                forall|j: int| 0 <= j < i ==> names@[j]@ == ElectricVar::at(j).name_of(),
            decreases ELECTRIC_COUNT - i,
        {
            names.push(ElectricVar::nth(i).name().to_owned());
            i += 1;
        }
        assert(strings_view(names@) =~= ElectricVar::all_names());
        self.push_bound_names(mode, &mut names);
        dedup_names(names)
    }

    /// The entry `NAME=value` of an exported variable.
    fn export_entry(&self, name: &str) -> (r: String)
        requires
            self.inv(),
        ensures
            r@ == self@.export_entry(name@),
    {
        proof {
            reveal_strlit("=");
            assert("="@ =~= seq!['=']);
        }
        let mut entry = name.to_owned();
        entry.append("=");
        match self.lookup(name, EnvMode::export_mode()) {
            Some(v) => {
                let value = v.as_string();
                entry.append(value.as_str());
            },
            None => {},
        }
        entry
    }

    /// The entries handed to child processes, computed from the layers.
    fn compute_exports(&self) -> (r: Vec<String>)
        requires
            self.inv(),
        ensures
            strings_view(r@) == self@.export_entries(),
    {
        let mut names: Vec<String> = Vec::new();
        names.push(ElectricVar::Pwd.name().to_owned());
        names.push(ElectricVar::ShellLevel.name().to_owned());
        assert(strings_view(names@) =~= ElectricVar::exported_names());
        self.push_bound_names(EnvMode::export_mode(), &mut names);
        let names = dedup_names(names);
        let mut out: Vec<String> = Vec::new();
        let mut i: usize = 0;
        while i < names.len()
            invariant
                self.inv(),
                i <= names.len(),
                out.len() == i,
                strings_view(names@) == self@.export_names(),
                forall|j: int| 0 <= j < i ==> out@[j]@ == self@.export_entry(self@.export_names()[j]),
            decreases names.len() - i,
        {
            assert(strings_view(names@)[i as int] == names@[i as int]@);
            out.push(self.export_entry(names[i].as_str()));
            i += 1;
        }
        assert(strings_view(out@) =~= self@.export_entries());
        out
    }

    /// The exported variables as `NAME=value` entries, owned by the caller.
    /// They are computed when the layers have changed since the last call,
    /// and remembered until they change again.
    pub fn export_array(&mut self) -> (r: Vec<String>)
        requires
            old(self).inv(),
        ensures
            final(self).inv(),
            final(self)@ == old(self)@,
            strings_view(r@) == old(self)@.export_entries(),
            final(self).principal() == old(self).principal(),
            final(self).pending() == old(self).pending(),
    {
        match &self.export_cache {
            Some(c) => {
                return clone_strings(c);
            },
            None => {},
        }
        let entries = self.compute_exports();
        let r = clone_strings(&entries);
        self.export_cache = Some(entries);
        r
    }

    /// The working directory with a `/` at its end.
    pub fn get_pwd_slash(&self) -> (r: String)
        ensures
            r@ == self@.pwd_slash(),
    {
        proof {
            reveal_strlit("/");
            assert("/"@ =~= seq!['/']);
        }
        let mut pwd = self.state.pwd.clone();
        if !ends_with(pwd.as_str(), "/") {
            pwd.append("/");
            assert(pwd@ =~= self@.state.pwd.push('/'));
        }
        pwd
    }

    /// Takes `cwd`, the working directory of the process as the system
    /// reports it, as the shell's working directory. An empty `cwd` stands
    /// for a directory that could not be determined, and changes nothing.
    pub fn set_pwd_from_getcwd(&mut self, cwd: &str)
        requires
            old(self).inv(),
        ensures
            final(self).inv(),
            final(self)@ == (if cwd@.len() == 0 {
                old(self)@
            } else {
                old(self)@.with_pwd(cwd@)
            }),
            final(self).principal() == old(self).principal(),
            final(self).pending() == (if cwd@.len() == 0 {
                old(self).pending()
            } else {
                old(self).pending().push(ChangeView { name: ElectricVar::Pwd.name_of(), universal: false })
            }),
    {
        if cwd.is_empty() {
            return ;
        }
        proof {
            reveal_strlit("PWD");
            reveal_strlit("status");
            reveal_strlit("pipestatus");
            reveal_strlit("fish_kill_signal");
            assert("PWD"@.len() == 3);
            assert("status"@.len() == 6);
            assert("pipestatus"@.len() == 10);
            assert("fish_kill_signal"@.len() == 16);
            assert(ElectricVar::named("PWD"@) == Some(ElectricVar::Pwd));
        }
        let mode = EnvMode { local: false, global: true, universal: false, export: true, unexport: false };
        let r = self.set_one("PWD", mode, cwd.to_owned());
        assert(r == EnvStackSetResult::ENV_OK);
    }

    /// A copy of the layers and the state, with nothing pending, that is
    /// not the principal stack.
    pub fn frozen_copy(&self) -> (r: EnvStack)
        requires
            self.inv(),
        ensures
            r.inv(),
            r@ == self@,
            !r.principal(),
            r.pending() == Seq::<ChangeView>::empty(),
    {
        let mut frames: Vec<Frame> = Vec::new();
        let mut i: usize = 0;
        while i < self.frames.len()
            invariant
                i <= self.frames.len(),
                frames.len() == i,
                forall|j: int| 0 <= j < i ==> frames@[j]@ == self.frames@[j]@,
            decreases self.frames.len() - i,
        {
            frames.push(self.frames[i].clone());
            i += 1;
        }
        let r = EnvStack {
            frames,
            universal: self.universal.clone(),
            state: self.state.clone(),
            principal: false,
            pending: Vec::new(),
            export_cache: None,
        };
        assert(r@.frames =~= self@.frames);
        assert(r.pending() =~= Seq::<ChangeView>::empty());
        r
    }
}

} // verus!
