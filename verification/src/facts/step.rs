//! A fact with a state, made from two functions: one that names the value
//! that is expected in a state, and one that takes a state to the next.
//!
//! In a sequence the state moves on by one step with every item, so that,
//! starting at 2 and doubling, the items 2, 4, 8, 16 are expected in turn.

use vstd::prelude::*;
use crate::error::{Flaw, Mutation};
use crate::fact::Fact;
use crate::generator::Generator;
use crate::target::Target;

verus! {

/// A fact that a value is the one that its state expects. Use [`stepped`] to
/// make one.
pub struct StepFact<S, T, E, N> {
    label: String,
    state: S,
    expect: E,
    step: N,
    _phantom: core::marker::PhantomData<T>,
}

/// What a [`StepFact`] stands for.
pub struct StepRule<S, E, N> {
    /// The failure of a value that is not the expected one.
    pub label: Seq<char>,
    /// The present state.
    pub state: S,
    /// The function that names the value that a state expects.
    pub expect: E,
    /// The function that takes a state to the next.
    pub step: N,
}

/// Whether `expect` may name a value with model `m` for the state `state`.
pub open spec fn names<S, T: Target, E: Fn(&S) -> T>(expect: E, state: S, m: T::Model) -> bool {
    exists|value: T| value.model() == m && call_ensures(expect, (&state,), value)
}

/// The model of the value that `expect` names for the state `state`.
pub open spec fn expected<S, T: Target, E: Fn(&S) -> T>(expect: E, state: S) -> T::Model {
    choose|m: T::Model| names::<S, T, E>(expect, state, m)
}

/// The state that `step` takes the state `state` to.
pub open spec fn following<S, N: Fn(&S) -> S>(step: N, state: S) -> S {
    choose|after: S| call_ensures(step, (&state,), after)
}

/// Whether `expect` and `step` can be called on every state, and what they
/// give depends on the state alone.
pub open spec fn steps<S, T: Target, E: Fn(&S) -> T, N: Fn(&S) -> S>(expect: E, step: N) -> bool {
    &&& forall|state: S| call_requires(expect, (&state,))
    &&& forall|state: S| call_requires(step, (&state,))
    &&& forall|state: S, value: T| #[trigger]
        call_ensures(expect, (&state,), value) ==> value.model() == expected::<S, T, E>(
            expect,
            state,
        )
    &&& forall|state: S, after: S| #[trigger]
        call_ensures(step, (&state,), after) ==> after == following::<S, N>(step, state)
}

/// A fact with a state: a value must be the one that `expect` names for the
/// state, and with every value processed the state moves on by `step`. The
/// two functions must decide by the state alone. The failure of a value that
/// is not the expected one is `label`.
pub fn stepped<S: Copy, T: Target, E: Fn(&S) -> T + Copy, N: Fn(&S) -> S + Copy>(
    label: &str,
    state: S,
    expect: E,
    step: N,
) -> (f: StepFact<S, T, E, N>)
    requires
        steps::<S, T, E, N>(expect, step),
    ensures
        f.wf(),
        f.rule() == (StepRule { label: label@, state, expect, step }),
{
    StepFact {
        label: String::from_str(label),
        state,
        expect,
        step,
        _phantom: core::marker::PhantomData,
    }
}

impl<S: Copy, T: Target, E: Fn(&S) -> T + Copy, N: Fn(&S) -> S + Copy> Fact<T> for StepFact<
    S,
    T,
    E,
    N,
> {
    type Rule = StepRule<S, E, N>;

    closed spec fn rule(&self) -> StepRule<S, E, N> {
        StepRule { label: self.label@, state: self.state, expect: self.expect, step: self.step }
    }

    open spec fn wf(&self) -> bool {
        steps::<S, T, E, N>(self.rule().expect, self.rule().step)
    }

    open spec fn verdict(rule: StepRule<S, E, N>, v: T::Model) -> Option<Flaw> {
        if v == expected::<S, T, E>(rule.expect, rule.state) {
            None
        } else {
            Some(Flaw::Check(rule.label))
        }
    }

    /// Only the expected value remedies a mismatch.
    open spec fn remedy(rule: StepRule<S, E, N>, v: T::Model, out: T::Model) -> bool {
        out == expected::<S, T, E>(rule.expect, rule.state)
    }

    /// Build mode never fails.
    open spec fn failure(rule: StepRule<S, E, N>, v: T::Model, flaw: Flaw) -> bool {
        false
    }

    /// The state moves on by one step, whatever the value was.
    open spec fn next(rule: StepRule<S, E, N>, v: T::Model) -> StepRule<S, E, N> {
        StepRule {
            label: rule.label,
            state: following::<S, N>(rule.step, rule.state),
            expect: rule.expect,
            step: rule.step,
        }
    }

    fn mutate(&self, g: &mut Generator<'_>, obj: T) -> (r: Mutation<T>)
        ensures
            !old(g).is_check() ==> (r matches Ok(x) && x.model() == expected::<S, T, E>(
                self.rule().expect,
                self.rule().state,
            )),
            final(g).entropy() == old(g).entropy(),
    {
        let want = (self.expect)(&self.state);
        if !obj.same(&want) {
            g.fail(self.label.as_str())?;
            assert(Self::remedy(self.rule(), obj.model(), want.model()));
            return Ok(want);
        }
        Ok(obj)
    }

    fn advance(&mut self, obj: &T) {
        self.state = (self.step)(&self.state);
    }

    fn fork(&self) -> (r: Self) {
        StepFact {
            label: self.label.clone(),
            state: self.state,
            expect: self.expect,
            step: self.step,
            _phantom: core::marker::PhantomData,
        }
    }
}

/// Every remedy of a fact with a state meets it, and its mutation is sure to
/// succeed.
pub proof fn step_is_steady_and_sure<S: Copy, T: Target, E: Fn(&S) -> T + Copy, N: Fn(&S) -> S + Copy>(
    rule: StepRule<S, E, N>,
    v: T::Model,
)
    ensures
        crate::fact::steady::<T, StepFact<S, T, E, N>>(rule),
        crate::fact::sure::<T, StepFact<S, T, E, N>>(rule, v),
{
}

} // verus!
