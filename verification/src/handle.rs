//! Handles on a stack that is shared: the handle on the whole stack, and
//! the handle that reaches its global frame alone.

use crate::mode::EnvMode;
use crate::stack::EnvStack;
use vstd::prelude::*;

verus! {

/// What a handle on a stack reaches.
#[derive(Clone, Copy, PartialEq, Eq, Debug, Structural)]
pub enum Reach {
    /// Every layer of the stack.
    Whole,
    /// The global frame alone. Such a handle neither enters nor leaves a
    /// scope, and is never the principal one.
    Globals,
}

impl Reach {
    /// The mode in which a query or a mutation through the handle is made:
    /// the mode asked for through the handle on the whole stack; through the
    /// other, the global scope with the export flags asked for.
    pub open spec fn mode_of(self, mode: EnvMode) -> EnvMode {
        match self {
            Reach::Whole => mode,
            Reach::Globals => EnvMode {
                local: false,
                global: true,
                universal: false,
                export: mode.export,
                unexport: mode.unexport,
            },
        }
    }

    /// The mode in which a query or a mutation through the handle is made.
    pub fn mode(&self, mode: EnvMode) -> (m: EnvMode)
        ensures
            m == self.mode_of(mode),
    {
        match self {
            Reach::Whole => mode,
            Reach::Globals => EnvMode {
                local: false,
                global: true,
                universal: false,
                export: mode.export,
                unexport: mode.unexport,
            },
        }
    }

    /// The bit set of the mode in which a query or a mutation through the
    /// handle is made, or `None` where `bits` is not the bit set of a mode.
    pub fn mode_bits(&self, bits: u16) -> (r: Option<u16>)
        ensures
            bits < 32 ==> r == Some(self.mode_of(EnvMode::of_bits(bits as int)).bits_of() as u16),
            bits < 32 ==> r->0 < 32,
            bits >= 32 ==> r is None,
    {
        match EnvMode::from_bits(bits) {
            Some(mode) => Some(self.mode(mode).bits()),
            None => None,
        }
    }

    /// Whether the handle is the principal one: the handle on the whole of
    /// the principal stack.
    pub fn is_principal(&self, stack: &EnvStack) -> (r: bool)
        ensures
            r == (*self == Reach::Whole && stack.principal()),
    {
        match self {
            Reach::Whole => stack.is_principal(),
            Reach::Globals => false,
        }
    }

    /// Whether a scope may be entered through the handle.
    pub fn can_push(&self) -> (r: bool)
        ensures
            r == (*self == Reach::Whole),
    {
        match self {
            Reach::Whole => true,
            Reach::Globals => false,
        }
    }

    /// Whether the innermost scope may be left through the handle: there
    /// is one above the global frame, and the handle reaches it.
    pub fn can_pop(&self, stack: &EnvStack) -> (r: bool)
        ensures
            r == (*self == Reach::Whole && stack@.frames.len() >= 2),
    {
        match self {
            Reach::Whole => stack.depth() >= 2,
            Reach::Globals => false,
        }
    }
}

} // verus!
