//! The statuses of the last pipeline.

use vstd::prelude::*;

verus! {

/// A signal that ended a command. Its number is never zero.
#[derive(Clone, Copy, PartialEq, Eq, Debug, Structural)]
pub struct Signal {
    code: i32,
}

impl Signal {
    #[verifier::type_invariant]
    spec fn nonzero(self) -> bool {
        self.code != 0
    }

    /// The signal's number.
    pub closed spec fn number(self) -> i32 {
        self.code
    }

    /// The signal of the given number.
    pub fn new(code: i32) -> (s: Signal)
        requires
            code != 0,
        ensures
            s.number() == code,
    {
        Signal { code }
    }

    /// The signal's number, which is not zero.
    pub fn code(&self) -> (c: i32)
        ensures
            c == self.number(),
            c != 0,
    {
        proof {
            use_type_invariant(self);
        }
        self.code
    }
}

/// What the statuses of a pipeline are.
pub struct StatusesView {
    pub status: i32,
    pub kill_signal: Option<i32>,
    pub pipestatus: Seq<i32>,
}

/// The statuses of the last pipeline.
#[derive(Debug)]
pub struct Statuses {
    /// Exit code of the last command of the pipeline.
    pub status: i32,
    /// The signal that ended the last command, if one did.
    pub kill_signal: Option<Signal>,
    /// Exit codes of the stages of the pipeline, in order.
    pub pipestatus: Vec<i32>,
}

impl View for Statuses {
    type V = StatusesView;

    open spec fn view(&self) -> StatusesView {
        StatusesView {
            status: self.status,
            kill_signal: match self.kill_signal {
                Some(s) => Some(s.number()),
                None => None,
            },
            pipestatus: self.pipestatus@,
        }
    }
}

impl Clone for Statuses {
    fn clone(&self) -> (r: Statuses)
        ensures
            r@ == self@,
    {
        let mut pipestatus: Vec<i32> = Vec::new();
        let mut i: usize = 0;
        while i < self.pipestatus.len()
            invariant
                i <= self.pipestatus.len(),
                pipestatus@ == self.pipestatus@.take(i as int),
            decreases self.pipestatus.len() - i,
        {
            pipestatus.push(self.pipestatus[i]);
            assert(self.pipestatus@.take(i + 1) =~= self.pipestatus@.take(i as int).push(self.pipestatus@[i as int]));
            i += 1;
        }
        assert(self.pipestatus@.take(self.pipestatus@.len() as int) =~= self.pipestatus@);
        Statuses { status: self.status, kill_signal: self.kill_signal, pipestatus }
    }
}

impl Statuses {
    /// The statuses of a pipeline of one command that exited with `status`.
    pub fn just(status: i32) -> (r: Statuses)
        ensures
            r@ == (StatusesView { status, kill_signal: None, pipestatus: seq![status] }),
    {
        let mut pipestatus: Vec<i32> = Vec::new();
        pipestatus.push(status);
        assert(pipestatus@ =~= seq![status]);
        Statuses { status, kill_signal: None, pipestatus }
    }

    /// The statuses made of their three parts, where `kill_signal` is the
    /// number of the signal that ended the command, or zero if none did.
    pub fn from_parts(status: i32, kill_signal: i32, pipestatus: Vec<i32>) -> (r: Statuses)
        ensures
            r@ == (StatusesView {
                status,
                kill_signal: if kill_signal == 0 { None } else { Some(kill_signal) },
                pipestatus: pipestatus@,
            }),
    {
        Statuses {
            status,
            kill_signal: if kill_signal == 0 {
                None
            } else {
                Some(Signal::new(kill_signal))
            },
            pipestatus,
        }
    }

    /// The number of the signal that ended the command, or zero if none did.
    pub fn kill_signal_code(&self) -> (c: i32)
        ensures
            c == (match self@.kill_signal {
                Some(k) => k,
                None => 0,
            }),
            c == 0 <==> self@.kill_signal is None,
    {
        match self.kill_signal {
            Some(sig) => sig.code(),
            None => 0,
        }
    }
}

} // verus!
