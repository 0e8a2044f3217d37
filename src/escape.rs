//! Escape-time bookkeeping for the quadratic recurrence `z <- z*z + c`.
//!
//! The arithmetic on complex numbers happens outside the library; after each step
//! the caller reports whether `|z|^2 > 4` held, and `EscapeCounter` decides whether
//! to go on and what the result of the evaluation is.
use vstd::prelude::*;

verus! {

/// The index of the first step, among the first `bail_out`, whose flag is set:
/// `Some(k)` when step `k` escaped and none before it did, `None` when no step
/// within the bound (and within `flags`) escaped.
pub open spec fn escape_time(flags: Seq<bool>, bail_out: nat) -> Option<nat>
    decreases flags.len(),
{
    if flags.len() == 0 {
        None
    } else {
        let last = (flags.len() - 1) as nat;
        match escape_time(flags.drop_last(), bail_out) {
            Some(k) => Some(k),
            None => if last < bail_out && flags[last as int] {
                Some(last)
            } else {
                None
            },
        }
    }
}

/// Step `k` is the first escaping step of `flags` within the bound.
pub open spec fn first_escape_at(flags: Seq<bool>, bail_out: nat, k: nat) -> bool {
    &&& k < bail_out
    &&& k < flags.len()
    &&& flags[k as int]
    &&& forall|j: int| 0 <= j < k ==> !#[trigger] flags[j]
}

/// No step of `flags` within the bound escapes.
pub open spec fn quiet_within(flags: Seq<bool>, bail_out: nat) -> bool {
    forall|j: int| 0 <= j < flags.len() && j < bail_out ==> !#[trigger] flags[j]
}

/// What `escape_time` is, stated directly.
pub proof fn lemma_escape_time_meaning(flags: Seq<bool>, bail_out: nat)
    ensures
        match escape_time(flags, bail_out) {
            Some(k) => first_escape_at(flags, bail_out, k),
            None => quiet_within(flags, bail_out),
        },
    decreases flags.len(),
{
    if flags.len() > 0 {
        let prefix = flags.drop_last();
        lemma_escape_time_meaning(prefix, bail_out);
        assert(forall|j: int| 0 <= j < prefix.len() ==> prefix[j] == flags[j]);
    }
}

/// There is at most one first escaping step.
pub proof fn lemma_first_escape_unique(flags: Seq<bool>, bail_out: nat, k1: nat, k2: nat)
    requires
        first_escape_at(flags, bail_out, k1),
        first_escape_at(flags, bail_out, k2),
    ensures
        k1 == k2,
{
    if k1 < k2 {
        assert(!flags[k1 as int]);
    } else if k2 < k1 {
        assert(!flags[k2 as int]);
    }
}

/// `escape_time` is the first escaping step where there is one, `None` otherwise.
pub proof fn lemma_escape_time_is_first(flags: Seq<bool>, bail_out: nat, k: nat)
    ensures
        first_escape_at(flags, bail_out, k) <==> escape_time(flags, bail_out) == Some(k),
        quiet_within(flags, bail_out) <==> escape_time(flags, bail_out) is None,
{
    lemma_escape_time_meaning(flags, bail_out);
    if first_escape_at(flags, bail_out, k) {
        if let Some(k2) = escape_time(flags, bail_out) {
            lemma_first_escape_unique(flags, bail_out, k, k2);
        }
    }
    if let Some(k2) = escape_time(flags, bail_out) {
        assert(!quiet_within(flags, bail_out)) by {
            assert(flags[k2 as int]);
        }
    }
}

/// Raising the bound never changes an escape already found, and turns "did not
/// escape" into an escape only at a step that lies beyond the old bound and within
/// the new one.
pub proof fn lemma_escape_time_monotone(flags: Seq<bool>, b1: nat, b2: nat)
    requires
        b1 <= b2,
    ensures
        escape_time(flags, b1) is Some ==> escape_time(flags, b2) == escape_time(flags, b1),
        escape_time(flags, b1) is None && escape_time(flags, b2) is Some ==> b1
            <= escape_time(flags, b2)->0 < b2,
{
    lemma_escape_time_meaning(flags, b1);
    lemma_escape_time_meaning(flags, b2);
    if let Some(k) = escape_time(flags, b1) {
        lemma_escape_time_is_first(flags, b2, k);
    }
    if let Some(k) = escape_time(flags, b2) {
        if escape_time(flags, b1) is None && k < b1 {
            assert(!flags[k as int]);
        }
    }
}

/// The result depends on nothing but the flags of the steps within the bound.
pub proof fn lemma_escape_time_deterministic(f1: Seq<bool>, f2: Seq<bool>, bail_out: nat)
    requires
        f1.len() == f2.len(),
        forall|j: int| 0 <= j < f1.len() && j < bail_out ==> f1[j] == f2[j],
    ensures
        escape_time(f1, bail_out) == escape_time(f2, bail_out),
{
    lemma_escape_time_meaning(f1, bail_out);
    lemma_escape_time_meaning(f2, bail_out);
    if let Some(k) = escape_time(f1, bail_out) {
        lemma_escape_time_is_first(f2, bail_out, k);
    }
    if let Some(k) = escape_time(f2, bail_out) {
        lemma_escape_time_is_first(f1, bail_out, k);
    }
}

/// An orbit whose magnitude never exceeds the threshold (such as that of `z0 = 0`,
/// `c = 0`) does not escape, whatever the bound.
pub proof fn lemma_quiet_orbit_never_escapes(flags: Seq<bool>, bail_out: nat)
    requires
        forall|j: int| 0 <= j < flags.len() ==> !#[trigger] flags[j],
    ensures
        escape_time(flags, bail_out) is None,
{
    lemma_escape_time_is_first(flags, bail_out, 0);
}

/// An orbit that is beyond the threshold after the first step (such as that of
/// `z0 = 0`, `c = 2 + 2i`) escapes at step 0, whatever the bound from 1 up.
pub proof fn lemma_immediate_escape(flags: Seq<bool>, bail_out: nat)
    requires
        flags.len() > 0,
        flags[0],
        bail_out >= 1,
    ensures
        escape_time(flags, bail_out) == Some(0nat),
{
    lemma_escape_time_is_first(flags, bail_out, 0);
}

/// Where an evaluation stands.
#[derive(Clone, Copy, Debug, PartialEq, Eq, Structural)]
pub enum Escape {
    /// Neither an escape nor the bound has been reached: take another step.
    Running,
    /// The orbit escaped at this 0-based step.
    Escaped(u32),
    /// The bound was reached without an escape.
    Bounded,
}

/// The status after the steps whose flags are `flags`, with bound `bail_out`.
pub open spec fn outcome(flags: Seq<bool>, bail_out: nat) -> Escape {
    match escape_time(flags, bail_out) {
        Some(k) => Escape::Escaped(k as u32),
        None => if flags.len() >= bail_out {
            Escape::Bounded
        } else {
            Escape::Running
        },
    }
}

/// Counts the steps of one escape-time evaluation.
pub struct EscapeCounter {
    steps: u32,
    bail_out: u32,
    escaped: Option<u32>,
    history: Ghost<Seq<bool>>,
}

impl EscapeCounter {
    /// The flags reported so far, one per step.
    pub closed spec fn history(&self) -> Seq<bool> {
        self.history@
    }

    /// The largest number of steps the evaluation takes.
    pub closed spec fn bail_out(&self) -> nat {
        self.bail_out as nat
    }

    /// One step is counted per flag, never more than the bound, and the escape
    /// found so far is `escape_time` of the flags.
    pub closed spec fn wf(&self) -> bool {
        &&& self.steps as nat == self.history@.len()
        &&& self.steps <= self.bail_out
        &&& self.escaped == match escape_time(self.history@, self.bail_out as nat) {
            Some(k) => Some(k as u32),
            None => None::<u32>,
        }
    }

    /// The status of the evaluation so far.
    pub open spec fn status_spec(&self) -> Escape {
        outcome(self.history(), self.bail_out())
    }

    /// A fresh evaluation that takes at most `bail_out` steps.
    pub fn new(bail_out: u32) -> (r: Self)
        ensures
            r.wf(),
            r.history() == Seq::<bool>::empty(),
            r.bail_out() == bail_out as nat,
    {
        EscapeCounter { steps: 0, bail_out, escaped: None, history: Ghost(Seq::empty()) }
    }

    /// The status of the evaluation so far: `Running` until a step escaped or
    /// `bail_out` steps passed without one.
    pub fn status(&self) -> (r: Escape)
        requires
            self.wf(),
        ensures
            r == self.status_spec(),
    {
        proof {
            lemma_escape_time_meaning(self.history@, self.bail_out as nat);
        }
        match self.escaped {
            Some(k) => Escape::Escaped(k),
            None => if self.steps >= self.bail_out {
                Escape::Bounded
            } else {
                Escape::Running
            },
        }
    }

    /// Reports the next step: `escaped` tells whether `|z|^2 > 4` after it.
    /// Returns the status that follows.
    pub fn record(&mut self, escaped: bool) -> (r: Escape)
        requires
            old(self).wf(),
            old(self).status_spec() == Escape::Running,
        ensures
            final(self).wf(),
            final(self).history() == old(self).history().push(escaped),
            final(self).bail_out() == old(self).bail_out(),
            r == final(self).status_spec(),
    {
        let ghost h = self.history@;
        proof {
            lemma_escape_time_meaning(h, self.bail_out as nat);
            assert(h.push(escaped).drop_last() =~= h);
        }
        if escaped {
            self.escaped = Some(self.steps);
        }
        self.steps = self.steps + 1;
        self.history = Ghost(h.push(escaped));
        self.status()
    }
}

} // verus!
