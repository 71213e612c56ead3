//! While running a simulation, we often want control over some simulation
//! parameters: the temperature, the momentum, the position of molecules in
//! the cell. Every control algorithm implements the `Control` trait.
use vstd::prelude::*;

verus! {

/// An algorithm run on the system during a simulation. `S` is the system
/// that it reads and changes.
pub trait Control<S> {
    /// Called once at the beginning of the simulation.
    fn setup(&mut self, system: &S) {
    }

    /// What a call of `control` does: from this control on `before`, it
    /// leaves the control as `after_self` and the system as `after`. An
    /// implementation states here what its `control` does; by default
    /// nothing is stated.
    open spec fn controlled(&self, before: S, after_self: &Self, after: S) -> bool {
        true
    }

    /// Does the work of the control algorithm on `system`.
    fn control(&mut self, system: &mut S)
        ensures
            old(self).controlled(*old(system), &*final(self), *final(system)),
    ;

    /// Called once at the end of the simulation.
    fn finish(&mut self, system: &S) {
    }
}

/// Controls usable as thermostats.
pub trait Thermostat<S>: Control<S> {

}

/// Call counter of an alternator: `count` calls since the last run, out of
/// a period of `every` calls.
struct Cadence {
    every: u64,
    count: u64,
}

impl Cadence {
    #[verifier::type_invariant]
    spec fn well_formed(self) -> bool {
        0 < self.every && self.count < self.every
    }

    spec fn every(self) -> nat {
        self.every as nat
    }

    spec fn count(self) -> nat {
        self.count as nat
    }

    fn new(every: u64) -> (r: Self)
        requires
            every > 0,
        ensures
            r.every() == every,
            r.count() == 0,
    {
        Cadence { every, count: 0 }
    }

    fn tick(&mut self) -> (run: bool)
        ensures
            final(self).every() == old(self).every(),
            final(self).count() < final(self).every(),
            final(self).count() == (old(self).count() + 1) % old(self).every(),
            run == (final(self).count() == 0),
    {
        proof {
            use_type_invariant(&*self);
        }
        if self.count + 1 == self.every {
            proof {
                vstd::arithmetic::div_mod::lemma_mod_self_0(self.every as int);
            }
            self.count = 0;
            true
        } else {
            proof {
                vstd::arithmetic::div_mod::lemma_small_mod((self.count + 1) as nat, self.every as nat);
            }
            self.count = self.count + 1;
            false
        }
    }
}

/// Runs an inner control every `every` calls only; the other calls leave
/// the system untouched.
pub struct Alternator<T> {
    cadence: Cadence,
    inner: T,
}

impl<T> Alternator<T> {
    /// The period: the inner control runs once every `every()` calls.
    pub closed spec fn every(self) -> nat {
        self.cadence.every()
    }

    /// Number of calls since the inner control last ran (or since creation).
    pub closed spec fn count(self) -> nat {
        self.cadence.count()
    }

    /// The wrapped control.
    pub closed spec fn inner(self) -> T {
        self.inner
    }

    /// Wraps `inner`, to run it on every `every`-th call.
    pub fn new(every: u64, inner: T) -> (r: Self)
        requires
            every > 0,
        ensures
            r.every() == every,
            r.count() == 0,
            r.inner() == inner,
    {
        Alternator { cadence: Cadence::new(every), inner }
    }

    /// Counts one call, and says whether the inner control runs on it.
    pub fn can_run(&mut self) -> (run: bool)
        ensures
            final(self).every() == old(self).every(),
            final(self).inner() == old(self).inner(),
            final(self).count() < final(self).every(),
            final(self).count() == (old(self).count() + 1) % old(self).every(),
            run == (final(self).count() == 0),
    {
        self.cadence.tick()
    }

    /// The wrapped control.
    pub fn as_ref(&self) -> (r: &T)
        ensures
            *r == self.inner(),
    {
        &self.inner
    }

    /// Unwraps the inner control.
    pub fn into_inner(self) -> (r: T)
        ensures
            r == self.inner(),
    {
        self.inner
    }

    /// Counts one call, and runs the inner control on `system` when the
    /// period has elapsed. Returns whether it ran. When it did not, neither
    /// the system nor the inner control changed.
    pub fn step<S>(&mut self, system: &mut S) -> (run: bool)
        where
            T: Control<S>,
        ensures
            final(self).every() == old(self).every(),
            final(self).count() < final(self).every(),
            final(self).count() == (old(self).count() + 1) % old(self).every(),
            run == (final(self).count() == 0),
            run ==> old(self).inner().controlled(*old(system), &final(self).inner(), *final(system)),
            !run ==> *final(system) == *old(system) && final(self).inner() == old(self).inner(),
    {
        let run = self.can_run();
        if run {
            self.inner.control(system);
        }
        run
    }
}

impl<S, T: Control<S>> Control<S> for Alternator<T> {
    /// One call counts, and runs the inner control exactly when the count
    /// returns to zero; otherwise the system and the inner control stay.
    open spec fn controlled(&self, before: S, after_self: &Self, after: S) -> bool {
        &&& after_self.every() == self.every()
        &&& after_self.count() == (self.count() + 1) % self.every()
        &&& if after_self.count() == 0 {
            self.inner().controlled(before, &after_self.inner(), after)
        } else {
            after == before && after_self.inner() == self.inner()
        }
    }

    /// Counts one call, and runs the inner control on `system` when the
    /// period has elapsed; on the other calls nothing changes but the count.
    fn control(&mut self, system: &mut S)
        ensures
            final(self).every() == old(self).every(),
            final(self).count() < final(self).every(),
            final(self).count() == (old(self).count() + 1) % old(self).every(),
            final(self).count() == 0 ==> old(self).inner().controlled(
                *old(system),
                &final(self).inner(),
                *final(system),
            ),
            final(self).count() != 0 ==> *final(system) == *old(system) && final(self).inner()
                == old(self).inner(),
    {
        self.step(system);
    }
}

/// Along a run of calls on a fresh alternator, where `states[k]` is the
/// alternator after `k` calls (each state follows from the one before it as
/// `can_run`, `step` and `control` make it), the count after `k` calls is `k` modulo the
/// period. So the call that leads to `states[k]` runs the inner control
/// exactly when `k` is a multiple of the period: on calls `N`, `2N`, ... and
/// on no other.
pub proof fn lemma_runs_every_nth_call<T>(states: Seq<Alternator<T>>)
    requires
        states.len() > 0,
        states[0].every() > 0,
        states[0].count() == 0,
        forall|k: int|
            0 < k < states.len() ==> #[trigger] states[k].every() == states[k - 1].every()
                && states[k].count() == (states[k - 1].count() + 1) % states[k - 1].every(),
    ensures
        forall|k: int| 0 <= k < states.len() ==> #[trigger] states[k].every() == states[0].every(),
        forall|k: int| 0 <= k < states.len() ==> #[trigger] states[k].count() == k % (states[0].every() as int),
        forall|k: int|
            0 < k < states.len() ==> (#[trigger] states[k].count() == 0 <==> k % (states[0].every() as int) == 0),
    decreases states.len(),
{
    let n = states.len() - 1;
    vstd::arithmetic::div_mod::lemma_small_mod(0, states[0].every());
    if n > 0 {
        let prefix = states.drop_last();
        assert forall|k: int| 0 < k < prefix.len() implies #[trigger] prefix[k].every() == prefix[k - 1].every()
            && prefix[k].count() == (prefix[k - 1].count() + 1) % prefix[k - 1].every() by {
            assert(states[k].every() == states[k - 1].every());
        }
        lemma_runs_every_nth_call(prefix);
        let every = states[0].every() as int;
        assert(prefix[n - 1] == states[n - 1]);
        assert(states[n].every() == states[n - 1].every());
        vstd::arithmetic::div_mod::lemma_add_mod_noop_right(1, n - 1, every);
        assert(states[n - 1].count() == (n - 1) % every);
        assert(states[n].count() == n % every);
        assert forall|k: int| 0 <= k < states.len() implies #[trigger] states[k].count() == k % every && states[k].every() == states[0].every() by {
            if k < n {
                assert(prefix[k] == states[k]);
            }
        }
    }
}

/// Number of the calls `1..=k` of a run of calls (`states[j]` the alternator
/// after `j` calls) on which the inner control ran: those after which the
/// count is zero.
pub open spec fn runs_up_to<T>(states: Seq<Alternator<T>>, k: int) -> nat
    decreases k,
{
    if k <= 0 {
        0
    } else {
        runs_up_to(states, k - 1) + if states[k].count() == 0 {
            1nat
        } else {
            0nat
        }
    }
}

/// Along a run of calls on a fresh alternator of period `N` (as in
/// `lemma_runs_every_nth_call`), the inner control has run `k / N` times
/// over the first `k` calls.
pub proof fn lemma_runs_count<T>(states: Seq<Alternator<T>>)
    requires
        states.len() > 0,
        states[0].every() > 0,
        states[0].count() == 0,
        forall|k: int|
            0 < k < states.len() ==> #[trigger] states[k].every() == states[k - 1].every()
                && states[k].count() == (states[k - 1].count() + 1) % states[k - 1].every(),
    ensures
        forall|k: int|
            0 <= k < states.len() ==> #[trigger] runs_up_to(states, k) == k / (states[0].every() as int),
{
    lemma_runs_every_nth_call(states);
    assert forall|k: int| 0 <= k < states.len() implies #[trigger] runs_up_to(states, k) == k / (
    states[0].every() as int) by {
        lemma_runs_count_to(states, k);
    }
}

proof fn lemma_runs_count_to<T>(states: Seq<Alternator<T>>, k: int)
    requires
        0 <= k < states.len(),
        states[0].every() > 0,
        forall|j: int|
            0 <= j < states.len() ==> #[trigger] states[j].count() == j % (states[0].every() as int),
    ensures
        runs_up_to(states, k) == k / (states[0].every() as int),
    decreases k,
{
    let every = states[0].every() as int;
    if k == 0 {
        assert(0int / every == 0) by {
            vstd::arithmetic::div_mod::lemma_basic_div(0, every);
        }
    } else {
        lemma_runs_count_to(states, k - 1);
        let q = (k - 1) / every;
        let r = (k - 1) % every;
        vstd::arithmetic::div_mod::lemma_fundamental_div_mod(k - 1, every);
        assert(states[k].count() == k % every);
        if r + 1 == every {
            assert(k == (q + 1) * every + 0) by (nonlinear_arith)
                requires
                    k - 1 == every * q + r,
                    r + 1 == every,
            ;
            vstd::arithmetic::div_mod::lemma_fundamental_div_mod_converse(k, every, q + 1, 0);
        } else {
            vstd::arithmetic::div_mod::lemma_fundamental_div_mod_converse(k, every, q, r + 1);
        }
    }
}

} // verus!
