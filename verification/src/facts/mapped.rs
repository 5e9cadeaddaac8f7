//! A fact that is chosen by the value it is applied to.
//!
//! This serves piecewise constraints, where what is asked of a value depends
//! on the shape of that value. The chosen fact is made afresh for every
//! value, so it cannot carry state from one item of a sequence to the next.

use vstd::prelude::*;
use crate::error::{prefix_check_err, ContrafactResult, Flaw, Mutation, MutationError};
use crate::fact::Fact;
use crate::generator::Generator;
use crate::target::Target;

verus! {

/// A fact which is mapped from the data to be checked or mutated. Use
/// [`mapped`] to make one.
pub struct MappedFact<T, F, O> {
    reason: String,
    f: F,
    _phantom: core::marker::PhantomData<(T, O)>,
}

/// What a [`MappedFact`] stands for.
pub struct MappedRule<F> {
    /// The name of the fact in failure messages.
    pub reason: Seq<char>,
    /// The function that chooses the fact to apply.
    pub f: F,
}

/// Whether `f` may choose a fact with the rule `rule` for a value with model
/// `v`.
pub open spec fn selects<T: Target, O: Fact<T>, F: Fn(&T) -> O>(
    f: F,
    v: T::Model,
    rule: O::Rule,
) -> bool {
    exists|value: T, chosen: O|
        value.model() == v && chosen.rule() == rule && call_ensures(f, (&value,), chosen)
}

/// The rule of the fact that `f` chooses for a value with model `v`.
pub open spec fn selected<T: Target, O: Fact<T>, F: Fn(&T) -> O>(f: F, v: T::Model) -> O::Rule {
    choose|rule: O::Rule| selects::<T, O, F>(f, v, rule)
}

/// Whether `f` can be called on every value, chooses facts that are well put
/// together, and chooses by the model of the value alone.
pub open spec fn selector<T: Target, O: Fact<T>, F: Fn(&T) -> O>(f: F) -> bool {
    &&& forall|value: T| call_requires(f, (&value,))
    &&& forall|value: T, chosen: O| #[trigger]
        call_ensures(f, (&value,), chosen) ==> chosen.wf() && chosen.rule() == selected::<T, O, F>(
            f,
            value.model(),
        )
}

/// The text that is put before the failure of the chosen fact.
pub open spec fn mapped_prefix(reason: Seq<char>) -> Seq<char> {
    "mapped("@ + reason + ") > "@
}

/// A fact which is defined by the data to which it is applied: `f` maps the
/// value to the fact that is asked of it. `f` must be a selector.
pub fn mapped<T: Target, O: Fact<T>, F: Fn(&T) -> O + Copy>(
    reason: &str,
    f: F,
) -> (fact: MappedFact<T, F, O>)
    requires
        selector::<T, O, F>(f),
    ensures
        fact.wf(),
        fact.rule() == (MappedRule { reason: reason@, f }),
{
    MappedFact { reason: String::from_str(reason), f, _phantom: core::marker::PhantomData }
}

impl<T: Target, O: Fact<T>, F: Fn(&T) -> O + Copy> MappedFact<T, F, O> {
    fn prefix(&self) -> (text: String)
        ensures
            text@ == mapped_prefix(self.reason@),
    {
        let mut text = String::from_str("mapped(");
        text.append(self.reason.as_str());
        text.append(") > ");
        text
    }
}

impl<T: Target, O: Fact<T>, F: Fn(&T) -> O + Copy> Fact<T> for MappedFact<T, F, O> {
    type Rule = MappedRule<F>;

    closed spec fn rule(&self) -> MappedRule<F> {
        MappedRule { reason: self.reason@, f: self.f }
    }

    open spec fn wf(&self) -> bool {
        selector::<T, O, F>(self.rule().f)
    }

    /// The verdict of the chosen rule, with the name of this fact put before
    /// a failure.
    open spec fn verdict(rule: MappedRule<F>, v: T::Model) -> Option<Flaw> {
        match O::verdict(selected::<T, O, F>(rule.f, v), v) {
            Some(flaw) => Some(flaw.within(mapped_prefix(rule.reason))),
            None => None,
        }
    }

    /// A remedy of the chosen rule.
    open spec fn remedy(rule: MappedRule<F>, v: T::Model, out: T::Model) -> bool {
        O::remedy(selected::<T, O, F>(rule.f, v), v, out)
    }

    /// The chosen fact may fail.
    open spec fn failure(rule: MappedRule<F>, v: T::Model, flaw: Flaw) -> bool {
        O::failure(selected::<T, O, F>(rule.f, v), v, flaw)
    }

    open spec fn next(rule: MappedRule<F>, v: T::Model) -> MappedRule<F> {
        rule
    }

    fn mutate(&self, g: &mut Generator<'_>, obj: T) -> (r: Mutation<T>) {
        let chosen = (self.f)(&obj);
        let outcome = chosen.mutate(g, obj);
        let named = prefix_check_err(outcome, self.prefix().as_str());
        proof {
            if let Err(e) = &named {
                if !g.is_check() {
                    assert(Self::failure(self.rule(), obj.model(), e@));
                }
            }
        }
        let made = named?;
        proof {
            if Self::verdict(self.rule(), obj.model()) is Some && !g.is_check() {
                assert(Self::remedy(self.rule(), obj.model(), made.model()));
            }
        }
        Ok(made)
    }

    fn advance(&mut self, obj: &T) {
    }

    fn fork(&self) -> (r: Self) {
        MappedFact { reason: self.reason.clone(), f: self.f, _phantom: core::marker::PhantomData }
    }
}

/// A fact which is mapped from the data by a function that may fail. Use
/// [`mapped_fallible`] to make one.
pub struct MappedFallibleFact<T, F, O> {
    reason: String,
    f: F,
    _phantom: core::marker::PhantomData<(T, O)>,
}

/// The model of what a function that may fail chooses: the rule of the
/// chosen fact, or the text of the error.
pub open spec fn choice_model<T: Target, O: Fact<T>>(choice: ContrafactResult<O>) -> Result<
    O::Rule,
    Seq<char>,
> {
    match choice {
        Ok(chosen) => Ok(chosen.rule()),
        Err(e) => Err(e@),
    }
}

/// Whether `f` may come to the choice `choice` for a value with model `v`.
pub open spec fn tries<T: Target, O: Fact<T>, F: Fn(&T) -> ContrafactResult<O>>(
    f: F,
    v: T::Model,
    choice: Result<O::Rule, Seq<char>>,
) -> bool {
    exists|value: T, made: ContrafactResult<O>|
        value.model() == v && choice_model::<T, O>(made) == choice && call_ensures(
            f,
            (&value,),
            made,
        )
}

/// What `f` comes to for a value with model `v`.
pub open spec fn tried<T: Target, O: Fact<T>, F: Fn(&T) -> ContrafactResult<O>>(
    f: F,
    v: T::Model,
) -> Result<O::Rule, Seq<char>> {
    choose|choice: Result<O::Rule, Seq<char>>| tries::<T, O, F>(f, v, choice)
}

/// Whether `f` can be called on every value, chooses facts that are well put
/// together, and chooses by the model of the value alone.
pub open spec fn fallible_selector<T: Target, O: Fact<T>, F: Fn(&T) -> ContrafactResult<O>>(
    f: F,
) -> bool {
    &&& forall|value: T| call_requires(f, (&value,))
    &&& forall|value: T, made: ContrafactResult<O>| #[trigger]
        call_ensures(f, (&value,), made) ==> (made matches Ok(chosen) ==> chosen.wf())
            && choice_model::<T, O>(made) == tried::<T, O, F>(f, value.model())
}

/// A version of [`mapped`] whose function may fail. A failure of the
/// function is a defect of the fact, and is reported as an error of the
/// internal kind.
pub fn mapped_fallible<T: Target, O: Fact<T>, F: Fn(&T) -> ContrafactResult<O> + Copy>(
    reason: &str,
    f: F,
) -> (fact: MappedFallibleFact<T, F, O>)
    requires
        fallible_selector::<T, O, F>(f),
    ensures
        fact.wf(),
        fact.rule() == (MappedRule { reason: reason@, f }),
{
    MappedFallibleFact { reason: String::from_str(reason), f, _phantom: core::marker::PhantomData }
}

impl<T: Target, O: Fact<T>, F: Fn(&T) -> ContrafactResult<O> + Copy> Fact<T> for MappedFallibleFact<
    T,
    F,
    O,
> {
    type Rule = MappedRule<F>;

    closed spec fn rule(&self) -> MappedRule<F> {
        MappedRule { reason: self.reason@, f: self.f }
    }

    open spec fn wf(&self) -> bool {
        fallible_selector::<T, O, F>(self.rule().f)
    }

    /// The verdict of the chosen rule, with the name of this fact put before
    /// a failure; the error of the function where it fails.
    open spec fn verdict(rule: MappedRule<F>, v: T::Model) -> Option<Flaw> {
        match tried::<T, O, F>(rule.f, v) {
            Ok(chosen) => match O::verdict(chosen, v) {
                Some(flaw) => Some(flaw.within(mapped_prefix(rule.reason))),
                None => None,
            },
            Err(text) => Some(Flaw::Internal(text)),
        }
    }

    /// A remedy of the chosen rule.
    open spec fn remedy(rule: MappedRule<F>, v: T::Model, out: T::Model) -> bool {
        match tried::<T, O, F>(rule.f, v) {
            Ok(chosen) => O::remedy(chosen, v, out),
            Err(_) => false,
        }
    }

    /// The function may fail, and so may the chosen fact.
    open spec fn failure(rule: MappedRule<F>, v: T::Model, flaw: Flaw) -> bool {
        match tried::<T, O, F>(rule.f, v) {
            Ok(chosen) => O::failure(chosen, v, flaw),
            Err(text) => flaw == Flaw::Internal(text),
        }
    }

    open spec fn next(rule: MappedRule<F>, v: T::Model) -> MappedRule<F> {
        rule
    }

    fn mutate(&self, g: &mut Generator<'_>, obj: T) -> (r: Mutation<T>) {
        let chosen = match (self.f)(&obj) {
            Ok(chosen) => chosen,
            Err(e) => {
                return Err(MutationError::Internal(e));
            },
        };
        let outcome = chosen.mutate(g, obj);
        let mut prefix = String::from_str("mapped(");
        prefix.append(self.reason.as_str());
        prefix.append(") > ");
        let named = prefix_check_err(outcome, prefix.as_str());
        proof {
            if let Err(e) = &named {
                if !g.is_check() {
                    assert(Self::failure(self.rule(), obj.model(), e@));
                }
            }
        }
        let made = named?;
        proof {
            if Self::verdict(self.rule(), obj.model()) is Some && !g.is_check() {
                assert(Self::remedy(self.rule(), obj.model(), made.model()));
            }
        }
        Ok(made)
    }

    fn advance(&mut self, obj: &T) {
    }

    fn fork(&self) -> (r: Self) {
        MappedFallibleFact {
            reason: self.reason.clone(),
            f: self.f,
            _phantom: core::marker::PhantomData,
        }
    }
}

} // verus!
