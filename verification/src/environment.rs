//! What can be asked of an environment without changing it, and the two
//! environments that can only be asked: the empty one and the snapshot.

use crate::mode::EnvMode;
use crate::model::StackView;
use crate::stack::EnvStack;
use crate::text::strings_view;
use crate::universal::option_view;
use crate::var::{EnvVar, VarView};
use vstd::prelude::*;

verus! {

/// The cell unless it is empty.
pub open spec fn unless_empty(var: Option<VarView>) -> Option<VarView> {
    match var {
        Some(v) => if v.is_empty() {
            None
        } else {
            Some(v)
        },
        None => None,
    }
}

/// An environment that can be queried.
pub trait Environment {
    /// What must hold of the environment for a query.
    spec fn env_inv(&self) -> bool;

    /// What a query for `name` returns.
    spec fn resolved(&self, name: Seq<char>, mode: EnvMode) -> Option<VarView>;

    /// The names that a query by this mode can find.
    spec fn visible(&self, mode: EnvMode) -> Seq<Seq<char>>;

    /// The cell of `name` as the mode selects it.
    fn getf(&self, name: &str, mode: EnvMode) -> (r: Option<EnvVar>)
        requires
            self.env_inv(),
        ensures
            option_view(r) == self.resolved(name@, mode),
    ;

    /// The names that a query by this mode can find, each once.
    fn get_names(&self, mode: EnvMode) -> (r: Vec<String>)
        requires
            self.env_inv(),
        ensures
            strings_view(r@) == self.visible(mode),
    ;

    /// The cell of `name`, searched in every layer.
    fn get(&self, name: &str) -> (r: Option<EnvVar>)
        requires
            self.env_inv(),
        ensures
            option_view(r) == self.resolved(name@, EnvMode::plain()),
    {
        self.getf(name, EnvMode::default_mode())
    }

    /// The cell of `name` as the mode selects it; an empty cell counts as
    /// none.
    fn getf_unless_empty(&self, name: &str, mode: EnvMode) -> (r: Option<EnvVar>)
        requires
            self.env_inv(),
        ensures
            option_view(r) == unless_empty(self.resolved(name@, mode)),
    {
        match self.getf(name, mode) {
            Some(v) => if v.is_empty() {
                None
            } else {
                Some(v)
            },
            None => None,
        }
    }

    /// The cell of `name`, searched in every layer; an empty cell counts as
    /// none.
    fn get_unless_empty(&self, name: &str) -> (r: Option<EnvVar>)
        requires
            self.env_inv(),
        ensures
            option_view(r) == unless_empty(self.resolved(name@, EnvMode::plain())),
    {
        self.getf_unless_empty(name, EnvMode::default_mode())
    }
}

impl Environment for EnvStack {
    open spec fn env_inv(&self) -> bool {
        self.inv()
    }

    open spec fn resolved(&self, name: Seq<char>, mode: EnvMode) -> Option<VarView> {
        self@.resolve(name, mode)
    }

    open spec fn visible(&self, mode: EnvMode) -> Seq<Seq<char>> {
        self@.names(mode)
    }

    fn getf(&self, name: &str, mode: EnvMode) -> (r: Option<EnvVar>) {
        self.lookup(name, mode)
    }

    fn get_names(&self, mode: EnvMode) -> (r: Vec<String>) {
        self.list_names(mode)
    }
}

/// The environment without any variable, electric ones included.
#[derive(Clone, Copy, Debug)]
pub struct EnvNull {}

impl EnvNull {
    /// The empty environment.
    pub fn new() -> (r: EnvNull) {
        EnvNull {  }
    }
}

impl Environment for EnvNull {
    open spec fn env_inv(&self) -> bool {
        true
    }

    open spec fn resolved(&self, name: Seq<char>, mode: EnvMode) -> Option<VarView> {
        None
    }

    open spec fn visible(&self, mode: EnvMode) -> Seq<Seq<char>> {
        Seq::empty()
    }

    fn getf(&self, name: &str, mode: EnvMode) -> (r: Option<EnvVar>) {
        None
    }

    fn get_names(&self, mode: EnvMode) -> (r: Vec<String>) {
        let r: Vec<String> = Vec::new();
        assert(strings_view(r@) =~= Seq::empty());
        r
    }
}

/// A snapshot: the layers and the state of a stack as they were when it was
/// taken. It can be queried as the stack could, and offers no mutation.
#[derive(Debug)]
pub struct EnvDyn {
    inner: EnvStack,
}

impl View for EnvDyn {
    type V = StackView;

    closed spec fn view(&self) -> StackView {
        self.inner@
    }
}

impl EnvDyn {
    /// The snapshot holds a well-formed copy.
    pub closed spec fn inv(&self) -> bool {
        self.inner.inv()
    }
}

impl Environment for EnvDyn {
    open spec fn env_inv(&self) -> bool {
        self.inv()
    }

    open spec fn resolved(&self, name: Seq<char>, mode: EnvMode) -> Option<VarView> {
        self@.resolve(name, mode)
    }

    open spec fn visible(&self, mode: EnvMode) -> Seq<Seq<char>> {
        self@.names(mode)
    }

    fn getf(&self, name: &str, mode: EnvMode) -> (r: Option<EnvVar>) {
        self.inner.lookup(name, mode)
    }

    fn get_names(&self, mode: EnvMode) -> (r: Vec<String>) {
        self.inner.list_names(mode)
    }
}

impl EnvStack {
    /// A snapshot of the stack as it is now. What the stack goes through
    /// later does not reach it.
    pub fn snapshot(&self) -> (r: EnvDyn)
        requires
            self.inv(),
        ensures
            r.inv(),
            r@ == self@,
    {
        EnvDyn { inner: self.frozen_copy() }
    }
}

} // verus!
