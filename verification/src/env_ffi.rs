//! The environment as it is offered across a language boundary: modes and
//! flags as bit sets, optional results as optional boxes, and the statuses
//! of a pipeline as a C++ vector.

use crate::electric::{ElectricVar, ShellStateView};
use crate::environment::{unless_empty, EnvDyn, EnvNull, Environment};
use crate::mode::{EnvMode, EnvStackSetResult, Scope};
use crate::model::StackView;
use crate::stack::{ChangeView, EnvStack};
use crate::status::{Statuses, StatusesView};
use crate::text::strings_view;
use crate::var::{clone_strings, EnvVar, EnvVarFlags, VarView};
use vstd::prelude::*;

verus! {

/// `cxx::CxxVector<T>`, the binding to a C++ `std::vector<T>`. Nothing of
/// its inside is known here; it is only ever handed on by reference.
#[verifier::external_type_specification]
#[verifier::external_body]
#[verifier::reject_recursive_types(T)]
pub struct ExCxxVector<T>(cxx::CxxVector<T>);

/// The elements that a C++ vector of `i32` holds, in order.
pub uninterp spec fn cxx_vector_items(v: cxx::CxxVector<i32>) -> Seq<i32>;

/// Calls `cxx::CxxVector::<i32>::as_slice`, which hands out the vector's
/// elements as one slice, and copies the slice. Trusted: the copy holds the
/// elements of the vector, in order.
#[verifier::external_body]
fn cxx_vector_to_vec(v: &cxx::CxxVector<i32>) -> (items: Vec<i32>)
    ensures
        items@ == cxx_vector_items(*v),
{
    v.as_slice().to_vec()
}

/// What an optional boxed cell is.
pub open spec fn boxed_view(var: Option<Box<EnvVar>>) -> Option<VarView> {
    match var {
        Some(b) => Some((*b)@),
        None => None,
    }
}

/// An optional cell, boxed.
fn boxed(var: Option<EnvVar>) -> (r: Option<Box<EnvVar>>)
    ensures
        boxed_view(r) == crate::universal::option_view(var),
{
    match var {
        None => None,
        Some(v) => Some(Box::new(v)),
    }
}

impl EnvVar {
    /// Two cells are equal where their elements and their flags are.
    pub fn equals_ffi(&self, rhs: &EnvVar) -> (r: bool)
        ensures
            r == (self@ == rhs@),
    {
        self.equals(rhs)
    }

    /// The scalar form: the elements joined by the delimiter.
    pub fn as_string_ffi(&self) -> (s: String)
        ensures
            s@ == self@.as_string(),
    {
        self.as_string()
    }

    /// A copy of the elements.
    pub fn as_list_ffi(&self) -> (l: Vec<String>)
        ensures
            strings_view(l@) == self@.values,
    {
        clone_strings(self.as_list())
    }

    /// Replaces what `out` holds by the elements.
    pub fn to_list_ffi(&self, out: &mut Vec<String>)
        ensures
            strings_view(final(out)@) == self@.values,
    {
        out.clear();
        let list = self.as_list();
        let mut i: usize = 0;
        while i < list.len()
            invariant
                i <= list.len(),
                out@ == list@.take(i as int),
            decreases list.len() - i,
        {
            out.push(list[i].clone());
            assert(list@.take(i + 1) =~= list@.take(i as int).push(list@[i as int]));
            i += 1;
        }
        assert(list@.take(list@.len() as int) =~= list@);
    }

    /// A copy of the cell, boxed.
    pub fn clone_box_ffi(&self) -> (r: Box<EnvVar>)
        ensures
            (*r)@ == self@,
    {
        Box::new(self.clone())
    }

    /// The flags as a bit set: 1 for exported, 2 for read-only, 4 for path.
    pub fn get_flags_ffi(&self) -> (b: u8)
        ensures
            b == self@.flags.bits_of(),
    {
        self.get_flags().bits()
    }

    /// The delimiter as a wide character.
    pub fn get_delimiter_ffi(&self) -> (c: u32)
        ensures
            c == self@.delimiter() as u32,
    {
        self.get_delimiter() as u32
    }
}

/// A cell of the elements `vals` with the flags of the bit set `flags`.
pub fn env_var_create_ffi(vals: &Vec<String>, flags: u8) -> (r: Box<EnvVar>)
    requires
        flags < 8,
    ensures
        (*r)@ == (VarView { values: strings_view(vals@), flags: EnvVarFlags::of_bits(flags as int) }),
{
    Box::new(EnvVar::new_vec(clone_strings(vals), EnvVarFlags::from_bits(flags).unwrap()))
}

/// A cell of the elements `values` with the flags that the name calls for.
pub fn env_var_create_from_name_ffi(name: &str, values: &Vec<String>) -> (r: Box<EnvVar>)
    ensures
        (*r)@ == (VarView { values: strings_view(values@), flags: EnvVar::flags_for_name(name@) }),
{
    Box::new(EnvVar::new_from_name_vec(name, clone_strings(values)))
}

/// The empty environment, boxed.
pub fn env_null_create_ffi() -> (r: Box<EnvNull>) {
    Box::new(EnvNull::new())
}

/// The queries of an environment, with the mode as a bit set.
trait EnvironmentFFI: Environment {
    /// The cell of `name` as the mode selects it: a box, or `None`.
    fn getf_ffi(&self, name: &str, mode: u16) -> (r: Option<Box<EnvVar>>)
        requires
            self.env_inv(),
            mode < 32,
        ensures
            boxed_view(r) == self.resolved(name@, EnvMode::of_bits(mode as int)),
    {
        boxed(self.getf(name, EnvMode::from_bits(mode).unwrap()))
    }

    /// The cell of `name` as the mode selects it, unless it is empty: a
    /// box, or `None`.
    fn getf_unless_empty_ffi(&self, name: &str, mode: u16) -> (r: Option<Box<EnvVar>>)
        requires
            self.env_inv(),
            mode < 32,
        ensures
            boxed_view(r) == unless_empty(self.resolved(name@, EnvMode::of_bits(mode as int))),
    {
        match self.getf(name, EnvMode::from_bits(mode).unwrap()) {
            None => None,
            Some(var) => {
                if var.is_empty() {
                    None
                } else {
                    Some(Box::new(var))
                }
            },
        }
    }

    /// Appends to `out` the names that a query by this mode can find.
    fn get_names_ffi(&self, mode: u16, out: &mut Vec<String>)
        requires
            self.env_inv(),
            mode < 32,
        ensures
            strings_view(final(out)@) == strings_view(old(out)@) + self.visible(EnvMode::of_bits(mode as int)),
    {
        let mut names = self.get_names(EnvMode::from_bits(mode).unwrap());
        let ghost before = strings_view(out@);
        let ghost added = strings_view(names@);
        out.append(&mut names);
        assert(strings_view(out@) =~= before + added);
    }
}

impl<T: Environment> EnvironmentFFI for T {}

impl EnvNull {
    /// No cell: the empty environment binds no name.
    pub fn getf_ffi(&self, name: &str, mode: u16) -> (r: Option<Box<EnvVar>>)
        requires
            mode < 32,
        ensures
            r is None,
    {
        EnvironmentFFI::getf_ffi(self, name, mode)
    }

    /// Appends nothing to `out`: the empty environment binds no name.
    pub fn get_names_ffi(&self, flags: u16, out: &mut Vec<String>)
        requires
            flags < 32,
        ensures
            strings_view(final(out)@) == strings_view(old(out)@),
    {
        EnvironmentFFI::get_names_ffi(self, flags, out);
        assert(strings_view(out@) =~= strings_view(old(out)@));
    }
}

/// A snapshot, as it is handed across the boundary.
pub struct EnvDynFFI(pub EnvDyn);

impl EnvDynFFI {
    /// The cell of `name` as the mode selects it in the snapshot.
    pub fn getf(&self, name: &str, mode: u16) -> (r: Option<Box<EnvVar>>)
        requires
            self.0.inv(),
            mode < 32,
        ensures
            boxed_view(r) == self.0@.resolve(name@, EnvMode::of_bits(mode as int)),
    {
        EnvironmentFFI::getf_ffi(&self.0, name, mode)
    }

    /// Appends to `out` the names that a query by this mode can find in
    /// the snapshot.
    pub fn get_names(&self, flags: u16, out: &mut Vec<String>)
        requires
            self.0.inv(),
            flags < 32,
        ensures
            strings_view(final(out)@) == strings_view(old(out)@) + self.0@.names(EnvMode::of_bits(flags as int)),
    {
        EnvironmentFFI::get_names_ffi(&self.0, flags, out)
    }
}

/// An environment stack, as it is handed across the boundary.
pub struct EnvStackRefFFI(pub EnvStack);

impl EnvStackRefFFI {
    /// Assigns the one value to `name` as the mode selects.
    pub fn set_one(&mut self, name: &str, flags: u16, value: &str) -> (r: EnvStackSetResult)
        requires
            old(self).0.inv(),
            flags < 32,
        ensures
            final(self).0.inv(),
            r == old(self).0@.set_result(name@, EnvMode::of_bits(flags as int), seq![value@]),
            final(self).0@ == old(self).0@.after_set(name@, EnvMode::of_bits(flags as int), seq![value@]),
            final(self).0.principal() == old(self).0.principal(),
            final(self).0.pending() == (if r == EnvStackSetResult::ENV_OK {
                old(self).0.pending().push(ChangeView { name: name@, universal: EnvMode::of_bits(flags as int).scope() == Scope::Universal && ElectricVar::named(name@) is None })
            } else {
                old(self).0.pending()
            }),
    {
        self.0.set_one(name, EnvMode::from_bits(flags).unwrap(), value.to_owned())
    }

    /// The cell of `name`, searched in every layer.
    pub fn get(&self, name: &str) -> (r: Option<Box<EnvVar>>)
        requires
            self.0.inv(),
        ensures
            boxed_view(r) == self.0@.resolve(name@, EnvMode::plain()),
    {
        EnvironmentFFI::getf_ffi(&self.0, name, 0)
    }

    /// The cell of `name` as the mode selects it.
    pub fn getf(&self, name: &str, mode: u16) -> (r: Option<Box<EnvVar>>)
        requires
            self.0.inv(),
            mode < 32,
        ensures
            boxed_view(r) == self.0@.resolve(name@, EnvMode::of_bits(mode as int)),
    {
        EnvironmentFFI::getf_ffi(&self.0, name, mode)
    }

    /// The cell of `name`, searched in every layer, unless it is empty.
    pub fn get_unless_empty(&self, name: &str) -> (r: Option<Box<EnvVar>>)
        requires
            self.0.inv(),
        ensures
            boxed_view(r) == unless_empty(self.0@.resolve(name@, EnvMode::plain())),
    {
        EnvironmentFFI::getf_unless_empty_ffi(&self.0, name, 0)
    }

    /// The cell of `name` as the mode selects it, unless it is empty.
    pub fn getf_unless_empty(&self, name: &str, mode: u16) -> (r: Option<Box<EnvVar>>)
        requires
            self.0.inv(),
            mode < 32,
        ensures
            boxed_view(r) == unless_empty(self.0@.resolve(name@, EnvMode::of_bits(mode as int))),
    {
        EnvironmentFFI::getf_unless_empty_ffi(&self.0, name, mode)
    }

    /// Appends to `out` the names that a query by this mode can find.
    pub fn get_names(&self, flags: u16, out: &mut Vec<String>)
        requires
            self.0.inv(),
            flags < 32,
        ensures
            strings_view(final(out)@) == strings_view(old(out)@) + self.0@.names(EnvMode::of_bits(flags as int)),
    {
        EnvironmentFFI::get_names_ffi(&self.0, flags, out)
    }

    /// Whether this is the one stack that stands for the shell itself.
    pub fn is_principal(&self) -> (r: bool)
        ensures
            r == self.0.principal(),
    {
        self.0.is_principal()
    }

    /// The working directory with a `/` at its end.
    pub fn get_pwd_slash(&self) -> (r: String)
        ensures
            r@ == self.0@.pwd_slash(),
    {
        self.0.get_pwd_slash()
    }

    /// Enters a scope: a function call where `new_scope` is set, else a block.
    pub fn push(&mut self, new_scope: bool)
        requires
            old(self).0.inv(),
        ensures
            final(self).0.inv(),
            final(self).0@ == old(self).0@.after_push(new_scope),
            final(self).0.principal() == old(self).0.principal(),
            final(self).0.pending() == old(self).0.pending(),
    {
        self.0.push(new_scope)
    }

    /// Leaves the innermost scope and drops what it bound. The global frame
    /// cannot be left.
    pub fn pop(&mut self)
        requires
            old(self).0.inv(),
            old(self).0@.frames.len() >= 2,
        ensures
            final(self).0.inv(),
            final(self).0@ == old(self).0@.after_pop(),
            final(self).0.principal() == old(self).0.principal(),
            final(self).0.pending() == old(self).0.pending(),
    {
        self.0.pop()
    }

    /// The statuses of the last pipeline, boxed.
    pub fn get_last_statuses(&self) -> (r: Box<Statuses>)
        ensures
            (*r)@ == self.0@.state.statuses,
    {
        Box::new(self.0.get_last_statuses())
    }

    /// Replaces the statuses of the last pipeline as a whole. A
    /// `kill_signal` of zero says that no signal ended the command.
    pub fn set_last_statuses(&mut self, status: i32, kill_signal: i32, pipestatus: &cxx::CxxVector<i32>)
        requires
            old(self).0.inv(),
        ensures
            final(self).0.inv(),
            final(self).0@ == (StackView {
                state: ShellStateView {
                    statuses: StatusesView {
                        status,
                        kill_signal: if kill_signal == 0 {
                            None
                        } else {
                            Some(kill_signal)
                        },
                        pipestatus: cxx_vector_items(*pipestatus),
                    },
                    ..old(self).0@.state
                },
                ..old(self).0@
            }),
            final(self).0.principal() == old(self).0.principal(),
            final(self).0.pending() == old(self).0.pending(),
    {
        let statuses = Statuses::from_parts(status, kill_signal, cxx_vector_to_vec(pipestatus));
        self.0.set_last_statuses(statuses)
    }

    /// Takes `cwd`, the working directory of the process as the system
    /// reports it, as the shell's working directory, unless it is empty.
    pub fn set_pwd_from_getcwd(&mut self, cwd: &str)
        requires
            old(self).0.inv(),
        ensures
            final(self).0.inv(),
            final(self).0@ == (if cwd@.len() == 0 {
                old(self).0@
            } else {
                old(self).0@.with_pwd(cwd@)
            }),
            final(self).0.principal() == old(self).0.principal(),
            final(self).0.pending() == (if cwd@.len() == 0 {
                old(self).0.pending()
            } else {
                old(self).0.pending().push(ChangeView { name: ElectricVar::Pwd.name_of(), universal: false })
            }),
    {
        self.0.set_pwd_from_getcwd(cwd)
    }

    /// Assigns `vals` to `name` as the mode selects.
    pub fn set(&mut self, name: &str, flags: u16, vals: &Vec<String>) -> (r: EnvStackSetResult)
        requires
            old(self).0.inv(),
            flags < 32,
        ensures
            final(self).0.inv(),
            r == old(self).0@.set_result(name@, EnvMode::of_bits(flags as int), strings_view(vals@)),
            final(self).0@ == old(self).0@.after_set(name@, EnvMode::of_bits(flags as int), strings_view(vals@)),
            final(self).0.principal() == old(self).0.principal(),
            final(self).0.pending() == (if r == EnvStackSetResult::ENV_OK {
                old(self).0.pending().push(ChangeView { name: name@, universal: EnvMode::of_bits(flags as int).scope() == Scope::Universal && ElectricVar::named(name@) is None })
            } else {
                old(self).0.pending()
            }),
    {
        let mode = EnvMode::from_bits(flags).unwrap();
        self.0.set(name, mode, clone_strings(vals))
    }

    /// Removes `name` from the layer that the mode selects.
    pub fn remove(&mut self, name: &str, flags: u16) -> (r: EnvStackSetResult)
        requires
            old(self).0.inv(),
            flags < 32,
        ensures
            final(self).0.inv(),
            r == old(self).0@.remove_result(name@, EnvMode::of_bits(flags as int)),
            final(self).0@ == old(self).0@.after_remove(name@, EnvMode::of_bits(flags as int)),
            final(self).0.principal() == old(self).0.principal(),
            final(self).0.pending() == (if r == EnvStackSetResult::ENV_OK {
                old(self).0.pending().push(ChangeView { name: name@, universal: EnvMode::of_bits(flags as int).scope() == Scope::Universal })
            } else {
                old(self).0.pending()
            }),
    {
        let mode = EnvMode::from_bits(flags).unwrap();
        self.0.remove(name, mode)
    }

    /// The exported variables as `NAME=value` entries, owned by the caller.
    pub fn export_array(&mut self) -> (r: Vec<String>)
        requires
            old(self).0.inv(),
        ensures
            final(self).0.inv(),
            final(self).0@ == old(self).0@,
            strings_view(r@) == old(self).0@.export_entries(),
            final(self).0.principal() == old(self).0.principal(),
            final(self).0.pending() == old(self).0.pending(),
    {
        self.0.export_array()
    }

    /// A snapshot of the stack as it is now, boxed.
    pub fn snapshot(&self) -> (r: Box<EnvDynFFI>)
        requires
            self.0.inv(),
        ensures
            (*r).0.inv(),
            (*r).0@ == self.0@,
    {
        Box::new(EnvDynFFI(self.0.snapshot()))
    }
}

/// The statuses of a pipeline of one command that exited with `s`, boxed.
pub fn statuses_just_ffi(s: i32) -> (r: Box<Statuses>)
    ensures
        (*r)@ == (StatusesView { status: s, kill_signal: None, pipestatus: seq![s] }),
{
    Box::new(Statuses::just(s))
}

impl Statuses {
    /// The exit code of the last command of the pipeline.
    pub fn get_status_ffi(&self) -> (r: i32)
        ensures
            r == self@.status,
    {
        self.status
    }

    /// The exit codes of the stages of the pipeline, in order.
    pub fn get_pipestatus_ffi(&self) -> (r: &Vec<i32>)
        ensures
            r@ == self@.pipestatus,
    {
        &self.pipestatus
    }

    /// The number of the signal that ended the command, or zero if none did.
    pub fn get_kill_signal_ffi(&self) -> (r: i32)
        ensures
            r == (match self@.kill_signal {
                Some(k) => k,
                None => 0,
            }),
    {
        self.kill_signal_code()
    }
}

/// Whether `name` is the name of an electric variable.
pub fn var_is_electric_ffi(name: &str) -> (r: bool)
    ensures
        r == ElectricVar::named(name@) is Some,
{
    ElectricVar::for_name(name).is_some()
}

/// The flags that a fresh variable of this name gets, as a bit set.
pub fn env_flags_for_ffi(name: &str) -> (b: u8)
    ensures
        b == EnvVar::flags_for_name(name@).bits_of(),
{
    EnvVar::flags_for(name).bits()
}

} // verus!
