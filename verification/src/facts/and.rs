//! The conjunction of two facts.

use vstd::prelude::*;
use crate::error::{Flaw, Mutation};
use crate::fact::{yields, Fact};
use crate::generator::Generator;
use crate::target::Target;

verus! {

/// A fact which applies two facts, one after the other. This is the primary
/// way to build up a complex fact from simpler facts.
#[derive(Debug, Clone, PartialEq, Eq)]
pub struct AndFact<F1, F2> {
    pub(crate) a: F1,
    pub(crate) b: F2,
}

/// A fact which applies two other facts.
pub fn and<F1, F2>(a: F1, b: F2) -> (f: AndFact<F1, F2>)
    ensures
        f.first() == a,
        f.second() == b,
{
    AndFact::new(a, b)
}

impl<F1, F2> AndFact<F1, F2> {
    /// The conjunction of `a` and `b`.
    pub fn new(a: F1, b: F2) -> (f: Self)
        ensures
            f.first() == a,
            f.second() == b,
    {
        AndFact { a, b }
    }

    /// The fact that is applied first.
    pub closed spec fn first(&self) -> F1 {
        self.a
    }

    /// The fact that is applied second.
    pub closed spec fn second(&self) -> F2 {
        self.b
    }
}

impl<T: Target, F1: Fact<T>, F2: Fact<T>> Fact<T> for AndFact<F1, F2> {
    type Rule = (F1::Rule, F2::Rule);

    open spec fn rule(&self) -> (F1::Rule, F2::Rule) {
        (self.first().rule(), self.second().rule())
    }

    open spec fn wf(&self) -> bool {
        self.first().wf() && self.second().wf()
    }

    /// The flaw of the first fact where it finds one, else the verdict of the
    /// second.
    open spec fn verdict(rule: (F1::Rule, F2::Rule), v: T::Model) -> Option<Flaw> {
        match F1::verdict(rule.0, v) {
            Some(flaw) => Some(flaw),
            None => F2::verdict(rule.1, v),
        }
    }

    /// What the second fact may make of what the first fact may make of the
    /// value.
    open spec fn remedy(rule: (F1::Rule, F2::Rule), v: T::Model, out: T::Model) -> bool {
        exists|between: T::Model| #[trigger]
            yields::<T, F1>(rule.0, v, between) && yields::<T, F2>(rule.1, between, out)
    }

    /// The first fact may fail on the value, and the second on what the
    /// first made of it.
    open spec fn failure(rule: (F1::Rule, F2::Rule), v: T::Model, flaw: Flaw) -> bool {
        ||| F1::verdict(rule.0, v) is Some && F1::failure(rule.0, v, flaw)
        ||| exists|between: T::Model| second_fails::<T, F1, F2>(rule, v, between, flaw)
    }

    open spec fn next(rule: (F1::Rule, F2::Rule), v: T::Model) -> (F1::Rule, F2::Rule) {
        (F1::next(rule.0, v), F2::next(rule.1, v))
    }

    fn mutate(&self, g: &mut Generator<'_>, obj: T) -> (r: Mutation<T>) {
        let ghost first = obj.model();
        let begun = self.a.mutate(g, obj);
        proof {
            if let Err(e) = &begun {
                if !g.is_check() {
                    assert(Self::failure(self.rule(), first, e@));
                }
            }
        }
        let between = begun?;
        let outcome = self.b.mutate(g, between);
        proof {
            if let Err(e) = &outcome {
                if !g.is_check() {
                    assert(yields::<T, F1>(self.rule().0, first, between.model()));
                    assert(second_fails::<T, F1, F2>(self.rule(), first, between.model(), e@));
                    assert(Self::failure(self.rule(), first, e@));
                }
            }
            if let Ok(out) = &outcome {
                assert(yields::<T, F1>(self.rule().0, first, between.model()));
                assert(yields::<T, F2>(self.rule().1, between.model(), out.model()));
                if Self::verdict(self.rule(), first) is Some && !g.is_check() {
                    assert(Self::remedy(self.rule(), first, out.model()));
                }
            }
        }
        outcome
    }

    fn advance(&mut self, obj: &T) {
        self.a.advance(obj);
        self.b.advance(obj);
    }

    fn fork(&self) -> (r: Self) {
        AndFact { a: self.a.fork(), b: self.b.fork() }
    }
}

/// Whether the first fact may make a value with model `between` of one with
/// model `v`, and the second fact may fail on that with the error `flaw`.
pub open spec fn second_fails<T: Target, F1: Fact<T>, F2: Fact<T>>(
    rule: (F1::Rule, F2::Rule),
    v: T::Model,
    between: T::Model,
    flaw: Flaw,
) -> bool {
    yields::<T, F1>(rule.0, v, between) && F2::verdict(rule.1, between) is Some && F2::failure(
        rule.1,
        between,
        flaw,
    )
}

/// A conjunction rejects a value exactly if one of its two facts rejects it.
pub proof fn and_fails_iff_either_fails<T: Target, F1: Fact<T>, F2: Fact<T>>(
    rule: (F1::Rule, F2::Rule),
    v: T::Model,
)
    ensures
        <AndFact<F1, F2> as Fact<T>>::verdict(rule, v) is Some <==> F1::verdict(rule.0, v) is Some
            || F2::verdict(rule.1, v) is Some,
{
}

/// Where both facts of a conjunction settle on a valid value in one mutation
/// and the second leaves alone what the first asks for, the conjunction
/// settles in one mutation as well.
pub proof fn and_is_steady<T: Target, F1: Fact<T>, F2: Fact<T>>(rule: (F1::Rule, F2::Rule))
    requires
        crate::fact::steady::<T, F1>(rule.0),
        crate::fact::steady::<T, F2>(rule.1),
        forall|v: T::Model, out: T::Model|
            F1::verdict(rule.0, v) is None && #[trigger] F2::remedy(rule.1, v, out) ==> F1::verdict(
                rule.0,
                out,
            ) is None,
    ensures
        crate::fact::steady::<T, AndFact<F1, F2>>(rule),
{
    assert forall|v: T::Model, out: T::Model|
        <AndFact<F1, F2> as Fact<T>>::verdict(rule, v) is Some && #[trigger] <AndFact<
            F1,
            F2,
        > as Fact<T>>::remedy(rule, v, out) implies <AndFact<F1, F2> as Fact<T>>::verdict(
        rule,
        out,
    ) is None by {
        let between = choose|between: T::Model| #[trigger]
            yields::<T, F1>(rule.0, v, between) && yields::<T, F2>(rule.1, between, out);
        assert(F1::verdict(rule.0, between) is None);
        if F2::verdict(rule.1, between) is Some {
            assert(F2::remedy(rule.1, between, out));
        }
    }
}

} // verus!
