//! One of two facts, decided when the fact is made, and a fact in a box.

use vstd::prelude::*;
use crate::error::{Flaw, Mutation};
use crate::fact::Fact;
use crate::generator::Generator;
use crate::target::Target;

verus! {

/// A fact that is either a fact of one type or a fact of another. This lets
/// a function return one of two differently typed facts.
#[derive(Debug, Clone, PartialEq, Eq)]
pub enum EitherFact<A, B> {
    Left(A),
    Right(B),
}

/// What an [`EitherFact`] stands for: the rule of the side that it holds.
pub enum EitherRule<A, B> {
    Left(A),
    Right(B),
}

impl<T: Target, A: Fact<T>, B: Fact<T>> Fact<T> for EitherFact<A, B> {
    type Rule = EitherRule<A::Rule, B::Rule>;

    open spec fn rule(&self) -> EitherRule<A::Rule, B::Rule> {
        match self {
            EitherFact::Left(f) => EitherRule::Left(f.rule()),
            EitherFact::Right(f) => EitherRule::Right(f.rule()),
        }
    }

    open spec fn wf(&self) -> bool {
        match self {
            EitherFact::Left(f) => f.wf(),
            EitherFact::Right(f) => f.wf(),
        }
    }

    open spec fn verdict(rule: EitherRule<A::Rule, B::Rule>, v: T::Model) -> Option<Flaw> {
        match rule {
            EitherRule::Left(r) => A::verdict(r, v),
            EitherRule::Right(r) => B::verdict(r, v),
        }
    }

    open spec fn remedy(rule: EitherRule<A::Rule, B::Rule>, v: T::Model, out: T::Model) -> bool {
        match rule {
            EitherRule::Left(r) => A::remedy(r, v, out),
            EitherRule::Right(r) => B::remedy(r, v, out),
        }
    }

    open spec fn failure(rule: EitherRule<A::Rule, B::Rule>, v: T::Model, flaw: Flaw) -> bool {
        match rule {
            EitherRule::Left(r) => A::failure(r, v, flaw),
            EitherRule::Right(r) => B::failure(r, v, flaw),
        }
    }

    open spec fn next(rule: EitherRule<A::Rule, B::Rule>, v: T::Model) -> EitherRule<
        A::Rule,
        B::Rule,
    > {
        match rule {
            EitherRule::Left(r) => EitherRule::Left(A::next(r, v)),
            EitherRule::Right(r) => EitherRule::Right(B::next(r, v)),
        }
    }

    fn mutate(&self, g: &mut Generator<'_>, obj: T) -> (r: Mutation<T>) {
        let outcome = match self {
            EitherFact::Left(f) => f.mutate(g, obj),
            EitherFact::Right(f) => f.mutate(g, obj),
        };
        proof {
            if Self::verdict(self.rule(), obj.model()) is Some && !g.is_check() {
                match &outcome {
                    Ok(out) => {
                        assert(Self::remedy(self.rule(), obj.model(), out.model()));
                    },
                    Err(e) => {
                        assert(Self::failure(self.rule(), obj.model(), e@));
                    },
                }
            }
        }
        outcome
    }

    fn advance(&mut self, obj: &T) {
        match self {
            EitherFact::Left(f) => f.advance(obj),
            EitherFact::Right(f) => f.advance(obj),
        }
    }

    fn fork(&self) -> (r: Self) {
        match self {
            EitherFact::Left(f) => EitherFact::Left(f.fork()),
            EitherFact::Right(f) => EitherFact::Right(f.fork()),
        }
    }
}

impl<T: Target, F: Fact<T>> Fact<T> for Box<F> {
    type Rule = F::Rule;

    open spec fn rule(&self) -> F::Rule {
        (**self).rule()
    }

    open spec fn wf(&self) -> bool {
        (**self).wf()
    }

    open spec fn verdict(rule: F::Rule, v: T::Model) -> Option<Flaw> {
        F::verdict(rule, v)
    }

    open spec fn remedy(rule: F::Rule, v: T::Model, out: T::Model) -> bool {
        F::remedy(rule, v, out)
    }

    open spec fn failure(rule: F::Rule, v: T::Model, flaw: Flaw) -> bool {
        F::failure(rule, v, flaw)
    }

    open spec fn next(rule: F::Rule, v: T::Model) -> F::Rule {
        F::next(rule, v)
    }

    fn mutate(&self, g: &mut Generator<'_>, obj: T) -> (r: Mutation<T>) {
        let outcome = (**self).mutate(g, obj);
        proof {
            if Self::verdict(self.rule(), obj.model()) is Some && !g.is_check() {
                match &outcome {
                    Ok(out) => {
                        assert(Self::remedy(self.rule(), obj.model(), out.model()));
                    },
                    Err(e) => {
                        assert(Self::failure(self.rule(), obj.model(), e@));
                    },
                }
            }
        }
        outcome
    }

    fn advance(&mut self, obj: &T) {
        (**self).advance(obj)
    }

    fn fork(&self) -> (r: Self) {
        Box::new((**self).fork())
    }
}

} // verus!
