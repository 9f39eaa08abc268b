//! The electric variables: names whose value is computed from the shell's
//! state instead of being stored in a frame.

use crate::mode::EnvStackSetResult;
use crate::status::{Statuses, StatusesView};
use crate::text::{all_digits, chars_equal, decimal, decimal_string, digits_value, parse_count, strings_view, to_chars};
use crate::var::{EnvVar, EnvVarFlags, VarView};
use vstd::prelude::*;

verus! {

/// The state of the shell that the electric variables read and write.
#[derive(Debug)]
pub struct ShellState {
    /// The statuses of the last pipeline.
    pub statuses: Statuses,
    /// The working directory.
    pub pwd: String,
    /// How deeply shells are nested.
    pub shell_level: i32,
}

/// What the shell's state is.
pub struct ShellStateView {
    pub statuses: StatusesView,
    pub pwd: Seq<char>,
    pub shell_level: i32,
}

impl View for ShellState {
    type V = ShellStateView;

    open spec fn view(&self) -> ShellStateView {
        ShellStateView { statuses: self.statuses@, pwd: self.pwd@, shell_level: self.shell_level }
    }
}

impl Clone for ShellState {
    fn clone(&self) -> (r: ShellState)
        ensures
            r@ == self@,
    {
        ShellState { statuses: self.statuses.clone(), pwd: self.pwd.clone(), shell_level: self.shell_level }
    }
}

/// The decimal rendering of each exit code.
pub open spec fn decimals(codes: Seq<i32>) -> Seq<Seq<char>> {
    Seq::new(codes.len(), |i: int| decimal(codes[i] as int))
}

/// The level of a shell that is started within one whose `SHLVL` reads
/// `inherited`: one more than the count that it holds, the greatest `i32`
/// at most; 1 where it holds no count.
pub open spec fn next_level(inherited: Seq<char>) -> i32 {
    if !all_digits(inherited) {
        1
    } else if digits_value(inherited) >= i32::MAX {
        i32::MAX
    } else {
        (digits_value(inherited) + 1) as i32
    }
}

/// The level of a shell that is started within one whose `SHLVL` reads
/// `inherited`.
pub fn next_shell_level(inherited: &str) -> (level: i32)
    ensures
        level == next_level(inherited@),
        level >= 1,
{
    match parse_count(inherited) {
        Some(n) => if n < i32::MAX {
            n + 1
        } else {
            i32::MAX
        },
        None => 1,
    }
}

/// An entry of the registry of electric variables.
#[derive(Clone, Copy, PartialEq, Eq, Debug, Structural)]
pub enum ElectricVar {
    /// `status`: the exit code of the last pipeline.
    Status,
    /// `pipestatus`: the exit codes of the stages of the last pipeline.
    Pipestatus,
    /// `fish_kill_signal`: the signal that ended the last command, or 0.
    KillSignal,
    /// `PWD`: the working directory; writing it changes the directory.
    Pwd,
    /// `SHLVL`: how deeply shells are nested.
    ShellLevel,
}

/// How many electric variables there are.
pub const ELECTRIC_COUNT: usize = 5;

impl ElectricVar {
    /// The variable's name.
    pub open spec fn name_of(self) -> Seq<char> {
        match self {
            ElectricVar::Status => "status"@,
            ElectricVar::Pipestatus => "pipestatus"@,
            ElectricVar::KillSignal => "fish_kill_signal"@,
            ElectricVar::Pwd => "PWD"@,
            ElectricVar::ShellLevel => "SHLVL"@,
        }
    }

    /// The electric variable of this name, if the name is in the registry.
    pub open spec fn named(name: Seq<char>) -> Option<ElectricVar> {
        if name == "status"@ {
            Some(ElectricVar::Status)
        } else if name == "pipestatus"@ {
            Some(ElectricVar::Pipestatus)
        } else if name == "fish_kill_signal"@ {
            Some(ElectricVar::KillSignal)
        } else if name == "PWD"@ {
            Some(ElectricVar::Pwd)
        } else if name == "SHLVL"@ {
            Some(ElectricVar::ShellLevel)
        } else {
            None
        }
    }

    /// The entry at a position of the registry.
    pub open spec fn at(i: int) -> ElectricVar {
        if i == 0 {
            ElectricVar::Status
        } else if i == 1 {
            ElectricVar::Pipestatus
        } else if i == 2 {
            ElectricVar::KillSignal
        } else if i == 3 {
            ElectricVar::Pwd
        } else {
            ElectricVar::ShellLevel
        }
    }

    /// Whether an assignment to the variable is taken.
    pub open spec fn writable(self) -> bool {
        self == ElectricVar::Pwd
    }

    /// Whether the variable is handed to child processes.
    pub open spec fn exported(self) -> bool {
        self == ElectricVar::Pwd || self == ElectricVar::ShellLevel
    }

    /// The flags of the cell that a read makes.
    pub open spec fn flags(self) -> EnvVarFlags {
        EnvVarFlags { exports: self.exported(), read_only: !self.writable(), pathvar: false }
    }

    /// The cell that a read makes in a given state.
    pub open spec fn value(self, state: ShellStateView) -> VarView {
        VarView {
            values: match self {
                ElectricVar::Status => seq![decimal(state.statuses.status as int)],
                ElectricVar::Pipestatus => decimals(state.statuses.pipestatus),
                ElectricVar::KillSignal => seq![
                    decimal(
                        match state.statuses.kill_signal {
                            Some(k) => k as int,
                            None => 0,
                        },
                    ),
                ],
                ElectricVar::Pwd => seq![state.pwd],
                ElectricVar::ShellLevel => seq![decimal(state.shell_level as int)],
            },
            flags: self.flags(),
        }
    }

    /// What an assignment answers in a given state.
    pub open spec fn write_result(self, values: Seq<Seq<char>>) -> EnvStackSetResult {
        if !self.writable() {
            EnvStackSetResult::ENV_PERM
        } else if values.len() != 1 {
            EnvStackSetResult::ENV_INVALID
        } else {
            EnvStackSetResult::ENV_OK
        }
    }

    /// The state after an assignment.
    pub open spec fn write_state(self, state: ShellStateView, values: Seq<Seq<char>>) -> ShellStateView {
        if self.write_result(values) == EnvStackSetResult::ENV_OK {
            ShellStateView { pwd: values[0], ..state }
        } else {
            state
        }
    }

    /// The names of the registry, in its order.
    pub open spec fn all_names() -> Seq<Seq<char>> {
        Seq::new(ELECTRIC_COUNT as nat, |i: int| ElectricVar::at(i).name_of())
    }

    /// The names of the exported entries, in the registry's order.
    pub open spec fn exported_names() -> Seq<Seq<char>> {
        seq![ElectricVar::Pwd.name_of(), ElectricVar::ShellLevel.name_of()]
    }

    /// The entry at a position of the registry.
    pub fn nth(i: usize) -> (ev: ElectricVar)
        requires
            i < ELECTRIC_COUNT,
        ensures
            ev == ElectricVar::at(i as int),
    {
        if i == 0 {
            ElectricVar::Status
        } else if i == 1 {
            ElectricVar::Pipestatus
        } else if i == 2 {
            ElectricVar::KillSignal
        } else if i == 3 {
            ElectricVar::Pwd
        } else {
            ElectricVar::ShellLevel
        }
    }

    /// The variable's name.
    pub fn name(&self) -> (n: &'static str)
        ensures
            n@ == self.name_of(),
    {
        match self {
            ElectricVar::Status => "status",
            ElectricVar::Pipestatus => "pipestatus",
            ElectricVar::KillSignal => "fish_kill_signal",
            ElectricVar::Pwd => "PWD",
            ElectricVar::ShellLevel => "SHLVL",
        }
    }

    /// The electric variable of this name, if the name is in the registry.
    pub fn for_name(name: &str) -> (r: Option<ElectricVar>)
        ensures
            r == ElectricVar::named(name@),
    {
        let chars = to_chars(name);
        if chars_equal(&chars, "status") {
            Some(ElectricVar::Status)
        } else if chars_equal(&chars, "pipestatus") {
            Some(ElectricVar::Pipestatus)
        } else if chars_equal(&chars, "fish_kill_signal") {
            Some(ElectricVar::KillSignal)
        } else if chars_equal(&chars, "PWD") {
            Some(ElectricVar::Pwd)
        } else if chars_equal(&chars, "SHLVL") {
            Some(ElectricVar::ShellLevel)
        } else {
            None
        }
    }

    /// Whether an assignment to the variable is taken.
    pub fn is_writable(&self) -> (r: bool)
        ensures
            r == self.writable(),
    {
        match self {
            ElectricVar::Pwd => true,
            _ => false,
        }
    }

    /// Whether a user may not assign to the variable.
    pub fn readonly(&self) -> (r: bool)
        ensures
            r == !self.writable(),
    {
        !self.is_writable()
    }

    /// Whether the variable is handed to child processes.
    pub fn exports(&self) -> (r: bool)
        ensures
            r == self.exported(),
    {
        match self {
            ElectricVar::Pwd => true,
            ElectricVar::ShellLevel => true,
            _ => false,
        }
    }

    /// Reads the variable: a fresh cell computed from the state.
    pub fn read(&self, state: &ShellState) -> (r: EnvVar)
        ensures
            r@ == self.value(state@),
    {
        let flags = EnvVarFlags { exports: self.exports(), read_only: self.readonly(), pathvar: false };
        match self {
            ElectricVar::Status => EnvVar::new(decimal_string(state.statuses.status), flags),
            ElectricVar::Pipestatus => {
                let codes = &state.statuses.pipestatus;
                let mut values: Vec<String> = Vec::new();
                let mut i: usize = 0;
                while i < codes.len()
                    invariant
                        i <= codes.len(),
                        values.len() == i,
                        strings_view(values@) == decimals(codes@.take(i as int)),
                    decreases codes.len() - i,
                {
                    let ghost before = values@;
                    values.push(decimal_string(codes[i]));
                    proof {
                        assert forall|j: int| 0 <= j < i + 1 implies strings_view(values@)[j] == decimals(
                            codes@.take(i + 1),
                        )[j] by {
                            if j < i {
                                assert(strings_view(before)[j] == decimals(codes@.take(i as int))[j]);
                            }
                        }
                        assert(strings_view(values@) =~= decimals(codes@.take(i + 1)));
                    }
                    i += 1;
                }
                assert(codes@.take(codes@.len() as int) =~= codes@);
                EnvVar::new_vec(values, flags)
            },
            ElectricVar::KillSignal => EnvVar::new(decimal_string(state.statuses.kill_signal_code()), flags),
            ElectricVar::Pwd => EnvVar::new(state.pwd.clone(), flags),
            ElectricVar::ShellLevel => EnvVar::new(decimal_string(state.shell_level), flags),
        }
    }

    /// Assigns to the variable. Only `PWD` takes an assignment, of exactly
    /// one value, which becomes the working directory.
    pub fn write(&self, state: &mut ShellState, values: &Vec<String>) -> (r: EnvStackSetResult)
        ensures
            r == self.write_result(strings_view(values@)),
            final(state)@ == self.write_state(old(state)@, strings_view(values@)),
    {
        if !self.is_writable() {
            EnvStackSetResult::ENV_PERM
        } else if values.len() != 1 {
            EnvStackSetResult::ENV_INVALID
        } else {
            state.pwd = values[0].clone();
            EnvStackSetResult::ENV_OK
        }
    }
}

} // verus!
