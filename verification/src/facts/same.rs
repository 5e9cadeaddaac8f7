//! Facts about the two halves of a pair: that they agree, or that they differ.

use vstd::prelude::*;
use crate::error::{Flaw, Mutation};
use crate::fact::Fact;
use crate::facts::eq::EqOp;
use crate::generator::Generator;
use crate::target::Target;

verus! {

/// A fact about a pair: its halves must agree, or must differ. Use [`same`]
/// or [`different`] to make one.
#[derive(Debug)]
pub struct SameFact<T> {
    op: EqOp,
    _phantom: core::marker::PhantomData<T>,
}

/// What a [`SameFact`] stands for: whether the halves must agree.
pub struct SameRule {
    pub equal: bool,
}

/// The failure of a pair whose halves are rendered as `first` and `second`.
pub open spec fn same_failure(equal: bool, first: Seq<char>, second: Seq<char>) -> Seq<char> {
    if equal {
        "must be same: expected "@ + first + " == "@ + second
    } else {
        "must be different: expected "@ + first + " != "@ + second
    }
}

/// What the search for a first half that differs from the second half
/// `second` says of a candidate with model `m`.
pub open spec fn different_answer<T: Target>(second: T::Model, m: T::Model) -> crate::fact::Answer {
    if m == second {
        crate::fact::Answer::Refused(same_failure(false, T::rendering(m), T::rendering(second)))
    } else {
        crate::fact::Answer::Accepted
    }
}

/// Whether the search for a first half of the pair `first` that differs from
/// its second half may draw `drawn` along `cuts` and end in `outcome`,
/// leaving the entropy `end`; see [`crate::fact::searched`].
pub open spec fn different_searched<T: Target>(
    first: (T::Model, T::Model),
    start: Seq<u8>,
    drawn: Seq<T::Model>,
    cuts: Seq<Seq<u8>>,
    outcome: Result<T::Model, Flaw>,
    end: Seq<u8>,
) -> bool {
    crate::fact::searched::<T>(
        |m: T::Model| different_answer::<T>(first.1, m),
        first.0,
        start,
        drawn,
        cuts,
        outcome,
        end,
    )
}

/// The model of the first half of the pair that a mutation arrived at, or of
/// its error.
pub open spec fn first_half<T: Target>(r: Mutation<(T, T)>) -> Result<T::Model, Flaw> {
    match r {
        Ok(pair) => Ok(pair.0.model()),
        Err(e) => Err(e@),
    }
}

/// Specifies an equality constraint between the two halves of a pair.
pub fn same<T: Target>() -> (f: SameFact<T>)
    ensures
        f.rule() == (SameRule { equal: true }),
{
    SameFact { op: EqOp::Equal, _phantom: core::marker::PhantomData }
}

/// Specifies an inequality constraint between the two halves of a pair.
pub fn different<T: Target>() -> (f: SameFact<T>)
    ensures
        f.rule() == (SameRule { equal: false }),
{
    SameFact { op: EqOp::NotEqual, _phantom: core::marker::PhantomData }
}

impl<T: Target> SameFact<T> {
    fn failure_text(&self, obj: &(T, T)) -> (text: String)
        ensures
            text@ == same_failure(
                self.op == EqOp::Equal,
                T::rendering(obj.0.model()),
                T::rendering(obj.1.model()),
            ),
    {
        match self.op {
            EqOp::Equal => {
                let mut text = String::from_str("must be same: expected ");
                text.append(obj.0.render().as_str());
                text.append(" == ");
                text.append(obj.1.render().as_str());
                text
            },
            EqOp::NotEqual => {
                let mut text = String::from_str("must be different: expected ");
                text.append(obj.0.render().as_str());
                text.append(" != ");
                text.append(obj.1.render().as_str());
                text
            },
        }
    }
}

impl<T: Target> Fact<(T, T)> for SameFact<T> {
    type Rule = SameRule;

    closed spec fn rule(&self) -> SameRule {
        SameRule { equal: self.op == EqOp::Equal }
    }

    open spec fn wf(&self) -> bool {
        true
    }

    open spec fn verdict(rule: SameRule, v: (T::Model, T::Model)) -> Option<Flaw> {
        if (v.0 == v.1) == rule.equal {
            None
        } else {
            Some(Flaw::Check(same_failure(rule.equal, T::rendering(v.0), T::rendering(v.1))))
        }
    }

    /// The second half stays; the first is made to agree with it, or is
    /// replaced by a value that differs from it.
    open spec fn remedy(
        rule: SameRule,
        v: (T::Model, T::Model),
        out: (T::Model, T::Model),
    ) -> bool {
        out.1 == v.1 && (out.0 == out.1) == rule.equal
    }

    /// Agreement is always reached. The search for a first half that differs
    /// from the second may find the value source failing, and may run into
    /// its limit, in which case the error carries the failure of a pair of
    /// two second halves.
    open spec fn failure(rule: SameRule, v: (T::Model, T::Model), flaw: Flaw) -> bool {
        !rule.equal && ((flaw is Arbitrary && T::may_fail()) || flaw == Flaw::Internal(
            crate::fact::limit_text(same_failure(false, T::rendering(v.1), T::rendering(v.1))),
        ))
    }

    open spec fn next(rule: SameRule, v: (T::Model, T::Model)) -> SameRule {
        rule
    }

    fn mutate(&self, g: &mut Generator<'_>, obj: (T, T)) -> (r: Mutation<(T, T)>)
        ensures
            !old(g).is_check() && self.rule().equal ==> r is Ok && final(g).entropy() == old(
                g,
            ).entropy(),
            !old(g).is_check() && !self.rule().equal ==> exists|
                drawn: Seq<T::Model>,
                cuts: Seq<Seq<u8>>,
            |
                different_searched::<T>(
                    obj.model(),
                    old(g).entropy(),
                    drawn,
                    cuts,
                    first_half::<T>(r),
                    final(g).entropy(),
                ),
    {
        let ghost start = g.entropy();
        let ghost first = obj.model();
        match self.op {
            EqOp::Equal => {
                if !obj.0.same(&obj.1) {
                    g.fail(self.failure_text(&obj).as_str())?;
                    let fixed = (obj.1.copy(), obj.1);
                    assert(Self::remedy(self.rule(), first, fixed.model()));
                    return Ok(fixed);
                }
                Ok(obj)
            },
            EqOp::NotEqual => {
                let ghost rule = self.rule();
                let ghost mut drawn = Seq::<T::Model>::empty();
                let ghost mut cuts = seq![start];
                let mut current = obj;
                let mut left: usize = crate::fact::BRUTE_ITERATION_LIMIT;
                loop
                    invariant
                        self.op == EqOp::NotEqual,
                        rule == self.rule(),
                        first == obj.model(),
                        g.is_check() == old(g).is_check(),
                        start == old(g).entropy(),
                        g.entropy().len() <= start.len(),
                        current.1.model() == first.1,
                        left <= crate::fact::BRUTE_ITERATION_LIMIT,
                        left == crate::fact::BRUTE_ITERATION_LIMIT ==> current.model() == first
                            && g.entropy() == start,
                        left < crate::fact::BRUTE_ITERATION_LIMIT ==> !g.is_check() && first.0 == first.1,
                        crate::fact::drew::<T>(start, drawn, cuts),
                        drawn.len() == crate::fact::BRUTE_ITERATION_LIMIT - left,
                        cuts.last() == g.entropy(),
                        drawn.len() > 0 ==> current.0.model() == drawn.last(),
                        forall|i: int|
                            0 <= i < drawn.len() - 1 ==> different_answer::<T>(
                                first.1,
                                #[trigger] drawn[i],
                            ) is Refused,
                    decreases left,
                {
                    let ghost here = current.0.model();
                    let second = current.1.copy();
                    let answer = if current.0.same(&current.1) {
                        Ok(Err(self.failure_text(&current)))
                    } else {
                        Ok(Ok(()))
                    };
                    match crate::fact::after_answer(current, answer, left) {
                        crate::fact::Search::Found(found) => {
                            proof {
                                assert(Self::remedy(self.rule(), first, found.model()));
                                if !g.is_check() {
                                    assert(different_searched::<T>(
                                        first,
                                        start,
                                        drawn,
                                        cuts,
                                        Ok(found.0.model()),
                                        g.entropy(),
                                    ));
                                }
                            }
                            return Ok(found);
                        },
                        crate::fact::Search::Stop(e) => {
                            proof {
                                assert(Self::failure(self.rule(), first, e@));
                                if !g.is_check() {
                                    assert(different_searched::<T>(
                                        first,
                                        start,
                                        drawn,
                                        cuts,
                                        Err(e@),
                                        g.entropy(),
                                    ));
                                }
                            }
                            return Err(e);
                        },
                        crate::fact::Search::Draw(message) => {
                            let made = g.arbitrary::<T>(message.as_str());
                            proof {
                                if let Err(e) = &made {
                                    if !g.is_check() {
                                        assert(Self::failure(self.rule(), first, e@));
                                        assert(different_searched::<T>(
                                            first,
                                            start,
                                            drawn,
                                            cuts,
                                            Err(e@),
                                            g.entropy(),
                                        ));
                                    }
                                }
                            }
                            current = (made?, second);
                            proof {
                                let more = drawn.push(current.0.model());
                                let longer = cuts.push(g.entropy());
                                assert forall|i: int| 0 <= i < more.len() implies T::draws(
                                    #[trigger] longer[i],
                                    more[i],
                                    longer[i + 1],
                                ) by {
                                    if i < drawn.len() {
                                        assert(longer[i] == cuts[i]);
                                        assert(longer[i + 1] == cuts[i + 1]);
                                        assert(more[i] == drawn[i]);
                                    }
                                }
                                assert forall|i: int| 0 <= i < more.len() - 1 implies different_answer::<T>(
                                    first.1,
                                    #[trigger] more[i],
                                ) is Refused by {
                                    if i < drawn.len() - 1 {
                                        assert(more[i] == drawn[i]);
                                    } else {
                                        assert(more[i] == here);
                                    }
                                }
                                drawn = more;
                                cuts = longer;
                            }
                            left = left - 1;
                        },
                    }
                }
            },
        }
    }

    fn advance(&mut self, obj: &(T, T)) {
    }

    fn fork(&self) -> (r: Self) {
        SameFact { op: self.op, _phantom: core::marker::PhantomData }
    }
}

/// Every remedy of a fact about the halves of a pair meets it.
pub proof fn same_is_steady<T: Target>(rule: SameRule)
    ensures
        crate::fact::steady::<(T, T), SameFact<T>>(rule),
{
}

} // verus!
