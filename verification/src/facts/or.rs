//! The disjunction of two facts.

use vstd::prelude::*;
use crate::outside::coin;
use crate::error::{Flaw, Mutation, MutationError};
use crate::fact::Fact;
use crate::generator::Generator;
use crate::target::Target;

verus! {

/// A fact that is met where either of two facts is met. Use [`or`] to make
/// one.
#[derive(Debug, Clone, PartialEq, Eq)]
pub struct OrFact<F1, F2> {
    context: String,
    pub(crate) a: F1,
    pub(crate) b: F2,
}

/// The failure of a value that meets neither side, `first` and `second` being
/// the failures of the two sides.
pub open spec fn or_failure(first: Seq<char>, second: Seq<char>) -> Seq<char> {
    "expected either one of the following conditions to be met:\n    condition 1: "@ + first
        + "\n    condition 2: "@ + second
}

/// What is reported where both sides report a flaw: a flaw that is not of
/// the check kind as it is, the first side's before the second's; else one
/// failure that holds the text of both.
pub open spec fn both_flaws(first: Flaw, second: Flaw) -> Flaw {
    match (first, second) {
        (Flaw::Check(a), Flaw::Check(b)) => Flaw::Check(or_failure(a, b)),
        (Flaw::Check(_), other) => other,
        (other, _) => other,
    }
}

/// Combines two constraints so that either one may be satisfied.
pub fn or<F1, F2>(context: &str, a: F1, b: F2) -> (f: OrFact<F1, F2>)
    ensures
        f.first() == a,
        f.second() == b,
{
    OrFact { context: String::from_str(context), a, b }
}

impl<F1, F2> OrFact<F1, F2> {
    /// The first side.
    pub closed spec fn first(&self) -> F1 {
        self.a
    }

    /// The second side.
    pub closed spec fn second(&self) -> F2 {
        self.b
    }
}

/// The error that stands for both flaws.
fn both_errors(first: MutationError, second: MutationError) -> (e: MutationError)
    ensures
        e@ == both_flaws(first@, second@),
{
    match first {
        MutationError::Check(a) => match second {
            MutationError::Check(b) => {
                let mut text = String::from_str(
                    "expected either one of the following conditions to be met:\n    condition 1: ",
                );
                text.append(a.as_str());
                text.append("\n    condition 2: ");
                text.append(b.as_str());
                MutationError::Check(text)
            },
            other => other,
        },
        other => other,
    }
}

impl<T: Target, F1: Fact<T>, F2: Fact<T>> Fact<T> for OrFact<F1, F2> {
    type Rule = (F1::Rule, F2::Rule);

    open spec fn rule(&self) -> (F1::Rule, F2::Rule) {
        (self.first().rule(), self.second().rule())
    }

    open spec fn wf(&self) -> bool {
        self.first().wf() && self.second().wf()
    }

    /// A value passes where it passes either side. Where it passes neither,
    /// the flaws of both sides are reported as one.
    open spec fn verdict(rule: (F1::Rule, F2::Rule), v: T::Model) -> Option<Flaw> {
        match (F1::verdict(rule.0, v), F2::verdict(rule.1, v)) {
            (Some(first), Some(second)) => Some(both_flaws(first, second)),
            _ => None,
        }
    }

    /// A value that meets neither side is remedied by either side.
    open spec fn remedy(rule: (F1::Rule, F2::Rule), v: T::Model, out: T::Model) -> bool {
        F1::remedy(rule.0, v, out) || F2::remedy(rule.1, v, out)
    }

    /// A defect of a side is handed on; else the side that mutates may fail.
    open spec fn failure(rule: (F1::Rule, F2::Rule), v: T::Model, flaw: Flaw) -> bool {
        match (F1::verdict(rule.0, v), F2::verdict(rule.1, v)) {
            (Some(first), Some(second)) => if both_flaws(first, second) is Check {
                F1::failure(rule.0, v, flaw) || F2::failure(rule.1, v, flaw)
            } else {
                flaw == both_flaws(first, second)
            },
            _ => false,
        }
    }

    open spec fn next(rule: (F1::Rule, F2::Rule), v: T::Model) -> (F1::Rule, F2::Rule) {
        (F1::next(rule.0, v), F2::next(rule.1, v))
    }

    fn mutate(&self, g: &mut Generator<'_>, obj: T) -> (r: Mutation<T>) {
        let mut judge = Generator::check_mode();
        let first = match self.a.mutate(&mut judge, obj.copy()) {
            Ok(_) => {
                return Ok(obj);
            },
            Err(e) => e,
        };
        let second = match self.b.mutate(&mut judge, obj.copy()) {
            Ok(_) => {
                return Ok(obj);
            },
            Err(e) => e,
        };
        let both = both_errors(first, second);
        if g.checking() {
            return Err(both);
        }
        match both {
            MutationError::Check(_) => {},
            other => {
                return Err(other);
            },
        }
        let outcome = if coin() {
            self.a.mutate(g, obj)
        } else {
            self.b.mutate(g, obj)
        };
        proof {
            match &outcome {
                Ok(out) => {
                    assert(Self::remedy(self.rule(), obj.model(), out.model()));
                },
                Err(e) => {
                    assert(Self::failure(self.rule(), obj.model(), e@));
                },
            }
        }
        outcome
    }

    fn advance(&mut self, obj: &T) {
        self.a.advance(obj);
        self.b.advance(obj);
    }

    fn fork(&self) -> (r: Self) {
        OrFact { context: self.context.clone(), a: self.a.fork(), b: self.b.fork() }
    }
}

/// Where both sides settle on a valid value in one mutation, so does the
/// disjunction: what it builds meets one of the two sides.
pub proof fn or_is_steady<T: Target, F1: Fact<T>, F2: Fact<T>>(rule: (F1::Rule, F2::Rule))
    requires
        crate::fact::steady::<T, F1>(rule.0),
        crate::fact::steady::<T, F2>(rule.1),
    ensures
        crate::fact::steady::<T, OrFact<F1, F2>>(rule),
{
    assert forall|v: T::Model, out: T::Model|
        <OrFact<F1, F2> as Fact<T>>::verdict(rule, v) is Some && #[trigger] <OrFact<
            F1,
            F2,
        > as Fact<T>>::remedy(rule, v, out) implies <OrFact<F1, F2> as Fact<T>>::verdict(
        rule,
        out,
    ) is None by {
        if F1::remedy(rule.0, v, out) {
            assert(F1::verdict(rule.0, out) is None);
        } else {
            assert(F2::remedy(rule.1, v, out));
            assert(F2::verdict(rule.1, out) is None);
        }
    }
}

} // verus!
