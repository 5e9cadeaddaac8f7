//! The two constant facts: the one that every value meets, and the one that no
//! value meets.

use vstd::prelude::*;
use crate::error::{Flaw, Mutation, MutationError};
use crate::fact::Fact;
use crate::generator::Generator;
use crate::target::Target;

verus! {

/// A fact that either every value meets or no value meets. Use [`always`] or
/// [`never`] to make one.
#[derive(Debug, Clone, PartialEq, Eq)]
pub struct BoolFact(bool, String);

/// What a [`BoolFact`] stands for: whether it is met, and the failure it
/// reports where it is not.
pub struct BoolRule {
    pub met: bool,
    pub context: Seq<char>,
}

/// A constraint which is always met.
pub fn always() -> (f: BoolFact)
    ensures
        f.verdict_on() is None,
{
    BoolFact(true, String::from_str("always"))
}

/// A constraint which is never met. Its failure is `context`.
pub fn never(context: &str) -> (f: BoolFact)
    ensures
        f.verdict_on() == Some(Flaw::Check(context@)),
{
    BoolFact(false, String::from_str(context))
}

impl BoolFact {
    /// The rule of this fact.
    pub closed spec fn bool_rule(&self) -> BoolRule {
        BoolRule { met: self.0, context: self.1@ }
    }

    /// The verdict of this fact, which is the same on every value.
    pub open spec fn verdict_on(&self) -> Option<Flaw> {
        if self.bool_rule().met {
            None
        } else {
            Some(Flaw::Check(self.bool_rule().context))
        }
    }
}

impl<T: Target> Fact<T> for BoolFact {
    type Rule = BoolRule;

    open spec fn rule(&self) -> BoolRule {
        self.bool_rule()
    }

    open spec fn wf(&self) -> bool {
        true
    }

    open spec fn verdict(rule: BoolRule, v: T::Model) -> Option<Flaw> {
        if rule.met {
            None
        } else {
            Some(Flaw::Check(rule.context))
        }
    }

    /// Nothing remedies a value that the fact rejects except leaving it alone:
    /// build mode hands the value back as it is.
    open spec fn remedy(rule: BoolRule, v: T::Model, out: T::Model) -> bool {
        out == v
    }

    /// Build mode never fails.
    open spec fn failure(rule: BoolRule, v: T::Model, flaw: Flaw) -> bool {
        false
    }

    open spec fn next(rule: BoolRule, v: T::Model) -> BoolRule {
        rule
    }

    fn mutate(&self, g: &mut Generator<'_>, obj: T) -> (r: Mutation<T>)
        ensures
            !old(g).is_check() ==> r == Ok::<T, MutationError>(obj),
            final(g).entropy() == old(g).entropy(),
    {
        if !self.0 {
            g.fail(self.1.as_str())?;
        }
        assert(<BoolFact as Fact<T>>::remedy(self.bool_rule(), obj.model(), obj.model()));
        Ok(obj)
    }

    fn advance(&mut self, obj: &T) {
    }

    fn fork(&self) -> (r: Self) {
        BoolFact(self.0, self.1.clone())
    }
}

} // verus!
