//! How a query or a mutation selects its scope, and what a mutation answers.

use vstd::prelude::*;

verus! {

/// No scope and no filter.
pub const ENV_DEFAULT: u16 = 0;

/// Bit of a mode: the local scope.
pub const ENV_LOCAL: u16 = 1;

/// Bit of a mode: the global frame.
pub const ENV_GLOBAL: u16 = 2;

/// Bit of a mode: the universal tier.
pub const ENV_UNIVERSAL: u16 = 4;

/// Bit of a mode: exported variables only; on a mutation, export the variable.
pub const ENV_EXPORT: u16 = 8;

/// Bit of a mode: unexported variables only; on a mutation, stop exporting.
pub const ENV_UNEXPORT: u16 = 16;

/// The layers that a mode selects.
#[derive(Clone, Copy, PartialEq, Eq, Debug, Structural)]
pub enum Scope {
    /// Every frame from the innermost to the global one, then the universal tier.
    Any,
    /// The frames from the innermost down to the nearest function boundary.
    Local,
    /// The global frame.
    Global,
    /// The universal tier.
    Universal,
}

/// The mode of a query or a mutation.
///
/// Two scope flags exclude each other, and so do the two export flags. Where
/// a caller sets several all the same, the first of local, global, universal
/// counts, and export counts before unexport.
#[derive(Clone, Copy, PartialEq, Eq, Debug, Structural)]
pub struct EnvMode {
    pub local: bool,
    pub global: bool,
    pub universal: bool,
    pub export: bool,
    pub unexport: bool,
}

impl EnvMode {
    /// The scope that the mode selects.
    pub open spec fn scope(self) -> Scope {
        if self.local {
            Scope::Local
        } else if self.global {
            Scope::Global
        } else if self.universal {
            Scope::Universal
        } else {
            Scope::Any
        }
    }

    /// The export flag that the mode asks for, if it asks for one.
    pub open spec fn export_filter(self) -> Option<bool> {
        if self.export {
            Some(true)
        } else if self.unexport {
            Some(false)
        } else {
            None
        }
    }

    /// The mode as a bit set.
    pub open spec fn bits_of(self) -> int {
        (if self.local { 1int } else { 0 }) + (if self.global { 2int } else { 0 }) + (if self.universal { 4int } else { 0 })
            + (if self.export { 8int } else { 0 }) + (if self.unexport { 16int } else { 0 })
    }

    /// The mode that a bit set stands for.
    pub open spec fn of_bits(bits: int) -> EnvMode {
        EnvMode {
            local: bits % 2 == 1,
            global: (bits / 2) % 2 == 1,
            universal: (bits / 4) % 2 == 1,
            export: (bits / 8) % 2 == 1,
            unexport: (bits / 16) % 2 == 1,
        }
    }

    /// The mode without scope or filter.
    pub open spec fn plain() -> EnvMode {
        EnvMode { local: false, global: false, universal: false, export: false, unexport: false }
    }

    /// The mode that asks for exported variables in every layer.
    pub open spec fn exported() -> EnvMode {
        EnvMode { local: false, global: false, universal: false, export: true, unexport: false }
    }

    /// The mode without scope or filter.
    pub fn default_mode() -> (m: EnvMode)
        ensures
            m == EnvMode::plain(),
    {
        EnvMode { local: false, global: false, universal: false, export: false, unexport: false }
    }

    /// The mode that asks for exported variables in every layer.
    pub fn export_mode() -> (m: EnvMode)
        ensures
            m == EnvMode::exported(),
    {
        EnvMode { local: false, global: false, universal: false, export: true, unexport: false }
    }

    /// The scope that the mode selects.
    pub fn get_scope(&self) -> (s: Scope)
        ensures
            s == self.scope(),
    {
        if self.local {
            Scope::Local
        } else if self.global {
            Scope::Global
        } else if self.universal {
            Scope::Universal
        } else {
            Scope::Any
        }
    }

    /// The export flag that the mode asks for, if it asks for one.
    pub fn get_export_filter(&self) -> (f: Option<bool>)
        ensures
            f == self.export_filter(),
    {
        if self.export {
            Some(true)
        } else if self.unexport {
            Some(false)
        } else {
            None
        }
    }

    /// The mode as a bit set.
    pub fn bits(&self) -> (b: u16)
        ensures
            b == self.bits_of(),
            b < 32,
    {
        let mut b: u16 = 0;
        if self.local {
            b = b + ENV_LOCAL;
        }
        if self.global {
            b = b + ENV_GLOBAL;
        }
        if self.universal {
            b = b + ENV_UNIVERSAL;
        }
        if self.export {
            b = b + ENV_EXPORT;
        }
        if self.unexport {
            b = b + ENV_UNEXPORT;
        }
        b
    }

    /// The mode of a bit set, or `None` where a bit beyond the five is set.
    pub fn from_bits(bits: u16) -> (r: Option<EnvMode>)
        ensures
            bits < 32 ==> r == Some(EnvMode::of_bits(bits as int)),
            bits >= 32 ==> r is None,
    {
        if bits >= 32 {
            None
        } else {
            Some(
                EnvMode {
                    local: bits % 2 == 1,
                    global: (bits / 2) % 2 == 1,
                    universal: (bits / 4) % 2 == 1,
                    export: (bits / 8) % 2 == 1,
                    unexport: (bits / 16) % 2 == 1,
                },
            )
        }
    }
}

/// A mode and its bit set determine each other.
pub proof fn law_mode_bits_round_trip(m: EnvMode, bits: int)
    ensures
        0 <= m.bits_of() < 32,
        EnvMode::of_bits(m.bits_of()) == m,
        0 <= bits < 32 ==> EnvMode::of_bits(bits).bits_of() == bits,
{
}

/// Whether a cell's export flag passes the filter of a mode.
pub open spec fn passes(filter: Option<bool>, exports: bool) -> bool {
    match filter {
        Some(want) => want == exports,
        None => true,
    }
}

/// Whether a cell's export flag passes the filter of a mode.
pub fn filter_passes(filter: Option<bool>, exports: bool) -> (r: bool)
    ensures
        r == passes(filter, exports),
{
    match filter {
        Some(want) => want == exports,
        None => true,
    }
}

/// What a mutation answers.
#[allow(non_camel_case_types)]
#[derive(Clone, Copy, PartialEq, Eq, Debug, Structural)]
pub enum EnvStackSetResult {
    /// The mutation was made.
    ENV_OK,
    /// The variable is read-only, or computed without a way to write it.
    ENV_PERM,
    /// The scope asked for is not there.
    ENV_SCOPE,
    /// The name or a value is malformed.
    ENV_INVALID,
    /// There is no such variable in the layer asked for.
    ENV_NOT_FOUND,
}

impl Default for EnvStackSetResult {
    fn default() -> (r: EnvStackSetResult)
        ensures
            r == EnvStackSetResult::ENV_OK,
    {
        EnvStackSetResult::ENV_OK
    }
}

} // verus!
