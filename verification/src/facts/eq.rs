//! Equality and inequality with a constant.

use vstd::prelude::*;
use crate::error::{Flaw, Mutation};
use crate::fact::Fact;
use crate::generator::Generator;
use crate::target::Target;

verus! {

/// Which of the two comparisons an [`EqFact`] makes.
#[derive(Debug, Clone, Copy, PartialEq, Eq)]
pub enum EqOp {
    Equal,
    NotEqual,
}

/// A fact that compares a value with a constant. Use [`eq`] or [`ne`] to make
/// one.
#[derive(Debug, Clone, PartialEq, Eq)]
pub struct EqFact<T> {
    context: String,
    op: EqOp,
    constant: T,
}

/// What an [`EqFact`] stands for.
pub struct EqRule<M> {
    /// The text that failure messages start with.
    pub context: Seq<char>,
    /// Whether the value must equal the constant, or must differ from it.
    pub equal: bool,
    /// The model of the constant.
    pub constant: M,
}

/// The failure of a value rendered as `value` that should have equalled, or
/// differed from, a constant rendered as `constant`.
pub open spec fn eq_failure(
    context: Seq<char>,
    equal: bool,
    value: Seq<char>,
    constant: Seq<char>,
) -> Seq<char> {
    context + ": expected "@ + value + (if equal {
        " == "@
    } else {
        " != "@
    }) + constant
}

/// What an inequality says of a candidate with model `m`.
pub open spec fn ne_answer<T: Target>(rule: EqRule<T::Model>, m: T::Model) -> crate::fact::Answer {
    if m == rule.constant {
        crate::fact::Answer::Refused(
            eq_failure(rule.context, false, T::rendering(m), T::rendering(rule.constant)),
        )
    } else {
        crate::fact::Answer::Accepted
    }
}

/// Whether the search of an inequality may draw `drawn` along `cuts` and end
/// in `outcome`, leaving the entropy `end`; see [`crate::fact::searched`].
pub open spec fn ne_searched<T: Target>(
    rule: EqRule<T::Model>,
    first: T::Model,
    start: Seq<u8>,
    drawn: Seq<T::Model>,
    cuts: Seq<Seq<u8>>,
    outcome: Result<T::Model, Flaw>,
    end: Seq<u8>,
) -> bool {
    crate::fact::searched::<T>(
        |m: T::Model| ne_answer::<T>(rule, m),
        first,
        start,
        drawn,
        cuts,
        outcome,
        end,
    )
}

/// Specifies an equality constraint: the value must equal `constant`.
pub fn eq<T: Target>(context: &str, constant: T) -> (f: EqFact<T>)
    ensures
        f.rule() == (EqRule { context: context@, equal: true, constant: constant.model() }),
{
    EqFact { context: String::from_str(context), op: EqOp::Equal, constant }
}

/// Specifies an equality constraint with the context `eq`.
pub fn eq_<T: Target>(constant: T) -> (f: EqFact<T>)
    ensures
        f.rule() == (EqRule { context: "eq"@, equal: true, constant: constant.model() }),
{
    eq("eq", constant)
}

/// Specifies an inequality constraint: the value must differ from `constant`.
pub fn ne<T: Target>(context: &str, constant: T) -> (f: EqFact<T>)
    ensures
        f.rule() == (EqRule { context: context@, equal: false, constant: constant.model() }),
{
    EqFact { context: String::from_str(context), op: EqOp::NotEqual, constant }
}

/// Specifies an inequality constraint with the context `ne`.
pub fn ne_<T: Target>(constant: T) -> (f: EqFact<T>)
    ensures
        f.rule() == (EqRule { context: "ne"@, equal: false, constant: constant.model() }),
{
    ne("ne", constant)
}

impl<T: Target> EqFact<T> {
    fn failure_text(&self, obj: &T) -> (text: String)
        ensures
            text@ == eq_failure(
                self.context@,
                self.op == EqOp::Equal,
                T::rendering(obj.model()),
                T::rendering(self.constant.model()),
            ),
    {
        let mut text = self.context.clone();
        text.append(": expected ");
        text.append(obj.render().as_str());
        match self.op {
            EqOp::Equal => text.append(" == "),
            EqOp::NotEqual => text.append(" != "),
        }
        text.append(self.constant.render().as_str());
        text
    }
}

impl<T: Target> Fact<T> for EqFact<T> {
    type Rule = EqRule<T::Model>;

    closed spec fn rule(&self) -> EqRule<T::Model> {
        EqRule {
            context: self.context@,
            equal: self.op == EqOp::Equal,
            constant: self.constant.model(),
        }
    }

    open spec fn wf(&self) -> bool {
        true
    }

    open spec fn verdict(rule: EqRule<T::Model>, v: T::Model) -> Option<Flaw> {
        if (v == rule.constant) == rule.equal {
            None
        } else {
            Some(
                Flaw::Check(
                    eq_failure(rule.context, rule.equal, T::rendering(v), T::rendering(rule.constant)),
                ),
            )
        }
    }

    /// An equality is remedied by the constant, an inequality by any value
    /// that differs from it.
    open spec fn remedy(rule: EqRule<T::Model>, v: T::Model, out: T::Model) -> bool {
        (out == rule.constant) == rule.equal
    }

    /// An equality is always remedied. The search for a value that differs
    /// from the constant may find the value source failing, and may run into
    /// its limit, in which case the error carries the failure of the constant
    /// itself.
    open spec fn failure(rule: EqRule<T::Model>, v: T::Model, flaw: Flaw) -> bool {
        !rule.equal && ((flaw is Arbitrary && T::may_fail()) || flaw == Flaw::Internal(
            crate::fact::limit_text(
                eq_failure(
                    rule.context,
                    false,
                    T::rendering(rule.constant),
                    T::rendering(rule.constant),
                ),
            ),
        ))
    }

    open spec fn next(rule: EqRule<T::Model>, v: T::Model) -> EqRule<T::Model> {
        rule
    }

    fn mutate(&self, g: &mut Generator<'_>, obj: T) -> (r: Mutation<T>)
        ensures
            !old(g).is_check() && self.rule().equal ==> r is Ok && final(g).entropy() == old(
                g,
            ).entropy(),
            !old(g).is_check() && !self.rule().equal ==> exists|
                drawn: Seq<T::Model>,
                cuts: Seq<Seq<u8>>,
            |
                ne_searched::<T>(
                    self.rule(),
                    obj.model(),
                    old(g).entropy(),
                    drawn,
                    cuts,
                    crate::fact::mutation_model(r),
                    final(g).entropy(),
                ),
    {
        let ghost start = g.entropy();
        let ghost first = obj.model();
        match self.op {
            EqOp::Equal => {
                if !obj.same(&self.constant) {
                    g.fail(self.failure_text(&obj).as_str())?;
                    let fixed = self.constant.copy();
                    assert(Self::remedy(self.rule(), first, fixed.model()));
                    return Ok(fixed);
                }
                Ok(obj)
            },
            EqOp::NotEqual => {
                let ghost rule = self.rule();
                let ghost mut drawn = Seq::<T::Model>::empty();
                let ghost mut cuts = seq![start];
                let mut current = obj;
                let mut left: usize = crate::fact::BRUTE_ITERATION_LIMIT;
                loop
                    invariant
                        rule == self.rule(),
                        first == obj.model(),
                        g.is_check() == old(g).is_check(),
                        start == old(g).entropy(),
                        g.entropy().len() <= start.len(),
                        left <= crate::fact::BRUTE_ITERATION_LIMIT,
                        left == crate::fact::BRUTE_ITERATION_LIMIT ==> current.model() == first
                            && g.entropy() == start,
                        left < crate::fact::BRUTE_ITERATION_LIMIT ==> !g.is_check() && (
                            ne_answer::<T>(self.rule(), first)
                        ) is Refused,
                        self.op == EqOp::NotEqual,
                        crate::fact::drew::<T>(start, drawn, cuts),
                        drawn.len() == crate::fact::BRUTE_ITERATION_LIMIT - left,
                        cuts.last() == g.entropy(),
                        drawn.len() > 0 ==> current.model() == drawn.last(),
                        forall|i: int|
                            0 <= i < drawn.len() - 1 ==> (
                                ne_answer::<T>(self.rule(), #[trigger] drawn[i])
                            ) is Refused,
                    decreases left,
                {
                    let ghost here = current.model();
                    let answer = if current.same(&self.constant) {
                        Ok(Err(self.failure_text(&current)))
                    } else {
                        Ok(Ok(()))
                    };
                    match crate::fact::after_answer(current, answer, left) {
                        crate::fact::Search::Found(found) => {
                            proof {
                                assert(Self::remedy(self.rule(), first, found.model()));
                                if !g.is_check() {
                                    assert(ne_searched::<T>(
                                        rule,
                                        first,
                                        start,
                                        drawn,
                                        cuts,
                                        Ok(found.model()),
                                        g.entropy(),
                                    ));
                                }
                            }
                            return Ok(found);
                        },
                        crate::fact::Search::Stop(e) => {
                            proof {
                                assert(Self::failure(self.rule(), first, e@));
                                if !g.is_check() {
                                    assert(ne_searched::<T>(
                                        rule,
                                        first,
                                        start,
                                        drawn,
                                        cuts,
                                        Err(e@),
                                        g.entropy(),
                                    ));
                                }
                            }
                            return Err(e);
                        },
                        crate::fact::Search::Draw(message) => {
                            let made = g.arbitrary::<T>(message.as_str());
                            proof {
                                if let Err(e) = &made {
                                    if !g.is_check() {
                                        assert(Self::failure(self.rule(), first, e@));
                                        assert(ne_searched::<T>(
                                            rule,
                                            first,
                                            start,
                                            drawn,
                                            cuts,
                                            Err(e@),
                                            g.entropy(),
                                        ));
                                    }
                                }
                            }
                            current = made?;
                            proof {
                                let more = drawn.push(current.model());
                                let longer = cuts.push(g.entropy());
                                assert forall|i: int| 0 <= i < more.len() implies T::draws(
                                    #[trigger] longer[i],
                                    more[i],
                                    longer[i + 1],
                                ) by {
                                    if i < drawn.len() {
                                        assert(longer[i] == cuts[i]);
                                        assert(longer[i + 1] == cuts[i + 1]);
                                        assert(more[i] == drawn[i]);
                                    }
                                }
                                assert forall|i: int| 0 <= i < more.len() - 1 implies (
                                    ne_answer::<T>(self.rule(), #[trigger] more[i])
                                ) is Refused by {
                                    if i < drawn.len() - 1 {
                                        assert(more[i] == drawn[i]);
                                    } else {
                                        assert(more[i] == here);
                                    }
                                }
                                drawn = more;
                                cuts = longer;
                            }
                            left = left - 1;
                        },
                    }
                }
            },
        }
    }

    fn advance(&mut self, obj: &T) {
    }

    fn fork(&self) -> (r: Self) {
        EqFact { context: self.context.clone(), op: self.op, constant: self.constant.copy() }
    }
}

/// Every remedy of an equality or inequality meets it.
pub proof fn eq_is_steady<T: Target>(rule: EqRule<T::Model>)
    ensures
        crate::fact::steady::<T, EqFact<T>>(rule),
{
}

} // verus!
