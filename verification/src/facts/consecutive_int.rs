//! A counter: each value of a sequence must be one more than the one before.

use vstd::prelude::*;
use crate::outside::checked_add_wide;
use crate::error::{ContrafactError, Flaw, Mutation, MutationError};
use crate::fact::Fact;
use crate::generator::Generator;
use crate::integer::Int;

verus! {

/// A fact that a value equals a counter, which goes up by one with every
/// value processed. Use [`consecutive_int`] to make one.
///
/// Once the counter has passed the greatest value of its type, no value meets
/// the fact any more, and the fact reports itself as worn out.
#[derive(Debug, Clone, PartialEq, Eq)]
pub struct ConsecutiveIntFact<T> {
    context: String,
    counter: Option<T>,
}

/// What a [`ConsecutiveIntFact`] stands for.
pub struct ConsecutiveRule {
    /// The failure that a value reports which is not the expected one.
    pub context: Seq<char>,
    /// The value that is expected now, or nothing once the counter has run
    /// past the end of its type.
    pub counter: Option<int>,
}

/// Specifies that a value should be increasing by 1 at every check or
/// mutation, starting at `initial`.
pub fn consecutive_int<T: Int>(context: &str, initial: T) -> (f: ConsecutiveIntFact<T>)
    ensures
        f.rule() == (ConsecutiveRule { context: context@, counter: Some(initial.model()) }),
{
    ConsecutiveIntFact { context: String::from_str(context), counter: Some(initial) }
}

/// As [`consecutive_int`], with the context `consecutive_int`.
pub fn consecutive_int_<T: Int>(initial: T) -> (f: ConsecutiveIntFact<T>)
    ensures
        f.rule() == (ConsecutiveRule {
            context: "consecutive_int"@,
            counter: Some(initial.model()),
        }),
{
    consecutive_int("consecutive_int", initial)
}

/// The text of the error that a worn-out counter reports.
pub open spec fn worn_out_text(context: Seq<char>) -> Seq<char> {
    context + ": the counter has run past the greatest value of its type"@
}

impl<T: Int> Fact<T> for ConsecutiveIntFact<T> {
    type Rule = ConsecutiveRule;

    closed spec fn rule(&self) -> ConsecutiveRule {
        ConsecutiveRule {
            context: self.context@,
            counter: match self.counter {
                Some(c) => Some(c.model()),
                None => None,
            },
        }
    }

    open spec fn wf(&self) -> bool {
        true
    }

    open spec fn verdict(rule: ConsecutiveRule, v: int) -> Option<Flaw> {
        match rule.counter {
            Some(c) => if v == c {
                None
            } else {
                Some(Flaw::Check(rule.context))
            },
            None => Some(Flaw::Internal(worn_out_text(rule.context))),
        }
    }

    /// Only the expected value remedies a mismatch.
    open spec fn remedy(rule: ConsecutiveRule, v: int, out: int) -> bool {
        rule.counter == Some(out)
    }

    /// A counter that is not worn out always names its remedy; one that is
    /// worn out always gives the error that says so.
    open spec fn failure(rule: ConsecutiveRule, v: int, flaw: Flaw) -> bool {
        rule.counter is None && flaw == Flaw::Internal(worn_out_text(rule.context))
    }

    /// The counter goes up by one, whatever the value was; past the greatest
    /// value of the type it is worn out.
    open spec fn next(rule: ConsecutiveRule, v: int) -> ConsecutiveRule {
        ConsecutiveRule {
            context: rule.context,
            counter: match rule.counter {
                Some(c) => if c < T::highest() {
                    Some(c + 1)
                } else {
                    None
                },
                None => None,
            },
        }
    }

    fn mutate(&self, g: &mut Generator<'_>, obj: T) -> (r: Mutation<T>)
        ensures
            !old(g).is_check() && self.rule().counter is Some ==> r is Ok && final(g).entropy()
                == old(g).entropy(),
    {
        match self.counter {
            Some(c) => {
                if !obj.same(&c) {
                    g.fail(self.context.as_str())?;
                    assert(Self::remedy(self.rule(), obj.model(), c.model()));
                    return Ok(c);
                }
                Ok(obj)
            },
            None => {
                let mut text = self.context.clone();
                text.append(": the counter has run past the greatest value of its type");
                let e = MutationError::Internal(ContrafactError::Other(text));
                assert(Self::failure(self.rule(), obj.model(), e@));
                Err(e)
            },
        }
    }

    fn advance(&mut self, obj: &T) {
        proof {
            T::bounds();
        }
        let stepped = match self.counter {
            Some(c) => match checked_add_wide(c.widen(), 1) {
                Some(n) => if n <= T::greatest().widen() {
                    Some(T::narrow(n))
                } else {
                    None
                },
                None => None,
            },
            None => None,
        };
        self.counter = stepped;
    }

    fn fork(&self) -> (r: Self) {
        ConsecutiveIntFact { context: self.context.clone(), counter: self.counter }
    }
}

/// Every remedy of a counter that is not worn out meets it.
pub proof fn consecutive_int_is_steady<T: Int>(rule: ConsecutiveRule)
    ensures
        crate::fact::steady::<T, ConsecutiveIntFact<T>>(rule),
{
}

} // verus!
