//! A fact given by a predicate alone, which is satisfied by brute force.

use vstd::prelude::*;
use crate::error::{ContrafactError, ContrafactResult, Flaw, Mutation, MutationError};
use crate::fact::Fact;
use crate::generator::Generator;
use crate::target::Target;

verus! {

/// A constraint defined only by a predicate. Mutation draws one fresh value
/// after the other until one meets the predicate, up to a fixed limit.
///
/// This is appropriate where the space of possible values is small, so that
/// a value that meets the predicate turns up soon. It is best placed at the
/// start of a chain of facts: what it draws has nothing in common with the
/// value it replaces, so it undoes what earlier mutations arrived at.
/// Use [`brute`] to make one.
pub struct BruteFact<T, F> {
    label: String,
    f: F,
    _phantom: core::marker::PhantomData<T>,
}

/// What a [`BruteFact`] stands for.
pub struct BruteRule<F> {
    /// The failure of a value that does not meet the predicate.
    pub label: Seq<char>,
    /// The predicate.
    pub f: F,
}

/// Whether the predicate `f` accepts a value with model `m`.
pub open spec fn accepts<T: Target, F: Fn(&T) -> bool>(f: F, m: T::Model) -> bool {
    exists|v: T| v.model() == m && call_ensures(f, (&v,), true)
}

/// Whether `f` can be called on every value, and what it returns depends on
/// the model of the value alone.
pub open spec fn decides<T: Target, F: Fn(&T) -> bool>(f: F) -> bool {
    &&& forall|v: T| call_requires(f, (&v,))
    &&& forall|v: T, b: bool| call_ensures(f, (&v,), b) ==> b == accepts(f, v.model())
}

/// What the predicate `f` of a brute fact with the failure `label` says of a
/// candidate with model `m`.
pub open spec fn brute_answer<T: Target, F: Fn(&T) -> bool>(f: F, label: Seq<char>, m: T::Model) -> crate::fact::Answer {
    if accepts::<T, F>(f, m) {
        crate::fact::Answer::Accepted
    } else {
        crate::fact::Answer::Refused(label)
    }
}

/// Whether the search of a brute fact may draw `drawn` along `cuts` and end
/// in `outcome`, leaving the entropy `end`; see [`crate::fact::searched`].
pub open spec fn brute_searched<T: Target, F: Fn(&T) -> bool>(
    rule: BruteRule<F>,
    first: T::Model,
    start: Seq<u8>,
    drawn: Seq<T::Model>,
    cuts: Seq<Seq<u8>>,
    outcome: Result<T::Model, Flaw>,
    end: Seq<u8>,
) -> bool {
    crate::fact::searched::<T>(
        |m: T::Model| brute_answer::<T, F>(rule.f, rule.label, m),
        first,
        start,
        drawn,
        cuts,
        outcome,
        end,
    )
}

/// A fact that a value meets the predicate `f`, which must decide on every
/// value by its model alone. The failure of a value that does not meet it is
/// `label`.
pub fn brute<T: Target, F: Fn(&T) -> bool + Copy>(label: &str, f: F) -> (fact: BruteFact<T, F>)
    requires
        decides::<T, F>(f),
    ensures
        fact.wf(),
        fact.rule() == (BruteRule { label: label@, f }),
{
    BruteFact { label: String::from_str(label), f, _phantom: core::marker::PhantomData }
}

impl<T: Target, F: Fn(&T) -> bool + Copy> Fact<T> for BruteFact<T, F> {
    type Rule = BruteRule<F>;

    closed spec fn rule(&self) -> BruteRule<F> {
        BruteRule { label: self.label@, f: self.f }
    }

    open spec fn wf(&self) -> bool {
        decides::<T, F>(self.rule().f)
    }

    open spec fn verdict(rule: BruteRule<F>, v: T::Model) -> Option<Flaw> {
        if accepts::<T, F>(rule.f, v) {
            None
        } else {
            Some(Flaw::Check(rule.label))
        }
    }

    /// A value that does not meet the predicate is replaced by one that does.
    open spec fn remedy(rule: BruteRule<F>, v: T::Model, out: T::Model) -> bool {
        accepts::<T, F>(rule.f, out)
    }

    open spec fn next(rule: BruteRule<F>, v: T::Model) -> BruteRule<F> {
        rule
    }

    /// The value source may fail, and the search may run into its limit.
    open spec fn failure(rule: BruteRule<F>, v: T::Model, flaw: Flaw) -> bool {
        (flaw is Arbitrary && T::may_fail()) || flaw == Flaw::Internal(
            crate::fact::limit_text(rule.label),
        )
    }

    fn mutate(&self, g: &mut Generator<'_>, obj: T) -> (r: Mutation<T>)
        ensures
            !old(g).is_check() ==> exists|drawn: Seq<T::Model>, cuts: Seq<Seq<u8>>|
                brute_searched::<T, F>(
                    self.rule(),
                    obj.model(),
                    old(g).entropy(),
                    drawn,
                    cuts,
                    crate::fact::mutation_model(r),
                    final(g).entropy(),
                ),
    {
        let ghost start = g.entropy();
        let ghost first = obj.model();
        let ghost rule = self.rule();
        let ghost mut drawn = Seq::<T::Model>::empty();
        let ghost mut cuts = seq![start];
        let mut current = obj;
        let mut left: usize = crate::fact::BRUTE_ITERATION_LIMIT;
        loop
            invariant
                self.wf(),
                rule == self.rule(),
                first == obj.model(),
                g.is_check() == old(g).is_check(),
                start == old(g).entropy(),
                g.entropy().len() <= start.len(),
                left <= crate::fact::BRUTE_ITERATION_LIMIT,
                left == crate::fact::BRUTE_ITERATION_LIMIT ==> current.model() == first
                    && g.entropy() == start,
                left < crate::fact::BRUTE_ITERATION_LIMIT ==> !g.is_check() && !accepts::<T, F>(
                    self.f,
                    first,
                ),
                crate::fact::drew::<T>(start, drawn, cuts),
                drawn.len() == crate::fact::BRUTE_ITERATION_LIMIT - left,
                cuts.last() == g.entropy(),
                drawn.len() > 0 ==> current.model() == drawn.last(),
                forall|i: int| 0 <= i < drawn.len() - 1 ==> !accepts::<T, F>(self.f, #[trigger] drawn[i]),
            decreases left,
        {
            let ghost here = current.model();
            let answer = if (self.f)(&current) {
                Ok(Ok(()))
            } else {
                Ok(Err(self.label.clone()))
            };
            match crate::fact::after_answer(current, answer, left) {
                crate::fact::Search::Found(found) => {
                    proof {
                        assert(Self::remedy(rule, first, found.model()));
                        if !g.is_check() {
                            assert(brute_searched::<T, F>(
                                rule,
                                first,
                                start,
                                drawn,
                                cuts,
                                Ok(found.model()),
                                g.entropy(),
                            ));
                        }
                    }
                    return Ok(found);
                },
                crate::fact::Search::Stop(e) => {
                    proof {
                        assert(Self::failure(rule, first, e@));
                        if !g.is_check() {
                            assert(brute_searched::<T, F>(
                                rule,
                                first,
                                start,
                                drawn,
                                cuts,
                                Err(e@),
                                g.entropy(),
                            ));
                        }
                    }
                    return Err(e);
                },
                crate::fact::Search::Draw(message) => {
                    let ghost before = g.entropy();
                    let made = g.arbitrary::<T>(message.as_str());
                    proof {
                        if let Err(e) = &made {
                            if !g.is_check() {
                                assert(Self::failure(rule, first, e@));
                                assert(brute_searched::<T, F>(
                                    rule,
                                    first,
                                    start,
                                    drawn,
                                    cuts,
                                    Err(e@),
                                    g.entropy(),
                                ));
                            }
                        }
                    }
                    current = made?;
                    proof {
                        let more = drawn.push(current.model());
                        let longer = cuts.push(g.entropy());
                        assert forall|i: int| 0 <= i < more.len() implies T::draws(
                            #[trigger] longer[i],
                            more[i],
                            longer[i + 1],
                        ) by {
                            if i < drawn.len() {
                                assert(longer[i] == cuts[i]);
                                assert(longer[i + 1] == cuts[i + 1]);
                                assert(more[i] == drawn[i]);
                            }
                        }
                        assert forall|i: int| 0 <= i < more.len() - 1 implies !accepts::<T, F>(
                            self.f,
                            #[trigger] more[i],
                        ) by {
                            if i < drawn.len() - 1 {
                                assert(more[i] == drawn[i]);
                            } else {
                                assert(more[i] == here);
                            }
                        }
                        drawn = more;
                        cuts = longer;
                    }
                    left = left - 1;
                },
            }
        }
    }

    fn advance(&mut self, obj: &T) {
    }

    fn fork(&self) -> (r: Self) {
        BruteFact { label: self.label.clone(), f: self.f, _phantom: core::marker::PhantomData }
    }
}

/// What a predicate with reasons says of a value: nothing where the value is
/// in order, else the reason why it is not.
pub type BruteResult = Result<(), String>;

/// A constraint defined by a predicate that gives the reason of a failure
/// itself, and that may fail to decide. Use [`brute_labeled`] to make one.
pub struct BruteLabeledFact<T, F> {
    f: F,
    _phantom: core::marker::PhantomData<T>,
}

/// What a [`BruteLabeledFact`] stands for: its predicate.
pub struct BruteLabeledRule<F> {
    pub f: F,
}

/// The flaw that an answer of a predicate with reasons stands for: none
/// where the value is in order, a failure with the reason where it is not,
/// and an error of the internal kind where the predicate could not decide.
pub open spec fn answer_flaw(answer: ContrafactResult<BruteResult>) -> Option<Flaw> {
    match answer {
        Ok(Ok(())) => None,
        Ok(Err(reason)) => Some(Flaw::Check(reason@)),
        Err(e) => Some(Flaw::Internal(e@)),
    }
}

/// Whether `f` may answer with the flaw `flaw` on a value with model `m`.
pub open spec fn answers<T: Target, F: Fn(&T) -> ContrafactResult<BruteResult>>(
    f: F,
    m: T::Model,
    flaw: Option<Flaw>,
) -> bool {
    exists|v: T, answer: ContrafactResult<BruteResult>|
        v.model() == m && answer_flaw(answer) == flaw && call_ensures(f, (&v,), answer)
}

/// The flaw that `f` finds in a value with model `m`.
pub open spec fn judged<T: Target, F: Fn(&T) -> ContrafactResult<BruteResult>>(
    f: F,
    m: T::Model,
) -> Option<Flaw> {
    choose|flaw: Option<Flaw>| answers::<T, F>(f, m, flaw)
}

/// Whether `f` can be called on every value, and what it answers depends on
/// the model of the value alone.
pub open spec fn judges<T: Target, F: Fn(&T) -> ContrafactResult<BruteResult>>(f: F) -> bool {
    &&& forall|v: T| call_requires(f, (&v,))
    &&& forall|v: T, answer: ContrafactResult<BruteResult>| #[trigger]
        call_ensures(f, (&v,), answer) ==> answer_flaw(answer) == judged::<T, F>(f, v.model())
}

/// Whether `f` fails to decide on a value with model `w`, with the error
/// `flaw`.
pub open spec fn undecided<T: Target, F: Fn(&T) -> ContrafactResult<BruteResult>>(
    f: F,
    w: T::Model,
    flaw: Flaw,
) -> bool {
    judged::<T, F>(f, w) == Some(flaw) && flaw is Internal
}

/// Whether `flaw` is the error of a search that ran into its limit on a
/// value with model `w`, which `f` refused.
pub open spec fn gives_up<T: Target, F: Fn(&T) -> ContrafactResult<BruteResult>>(
    f: F,
    w: T::Model,
    flaw: Flaw,
) -> bool {
    judged::<T, F>(f, w) matches Some(Flaw::Check(reason)) && flaw == Flaw::Internal(
        crate::fact::limit_text(reason),
    )
}

/// What the predicate `f` with reasons says of a candidate with model `m`.
pub open spec fn labeled_answer<T: Target, F: Fn(&T) -> ContrafactResult<BruteResult>>(
    f: F,
    m: T::Model,
) -> crate::fact::Answer {
    match judged::<T, F>(f, m) {
        None => crate::fact::Answer::Accepted,
        Some(Flaw::Check(reason)) => crate::fact::Answer::Refused(reason),
        Some(other) => crate::fact::Answer::Broken(other),
    }
}

/// Whether the search of a brute fact with reasons may draw `drawn` along
/// `cuts` and end in `outcome`, leaving the entropy `end`; see
/// [`crate::fact::searched`].
pub open spec fn labeled_searched<T: Target, F: Fn(&T) -> ContrafactResult<BruteResult>>(
    rule: BruteLabeledRule<F>,
    first: T::Model,
    start: Seq<u8>,
    drawn: Seq<T::Model>,
    cuts: Seq<Seq<u8>>,
    outcome: Result<T::Model, Flaw>,
    end: Seq<u8>,
) -> bool {
    crate::fact::searched::<T>(
        |m: T::Model| labeled_answer::<T, F>(rule.f, m),
        first,
        start,
        drawn,
        cuts,
        outcome,
        end,
    )
}

/// A version of [`brute`] whose predicate gives the reason for a failure,
/// and may fail to decide. `f` must answer by the model of the value alone.
pub fn brute_labeled<T: Target, F: Fn(&T) -> ContrafactResult<BruteResult> + Copy>(f: F) -> (fact:
    BruteLabeledFact<T, F>)
    requires
        judges::<T, F>(f),
    ensures
        fact.wf(),
        fact.rule() == (BruteLabeledRule { f }),
{
    BruteLabeledFact { f, _phantom: core::marker::PhantomData }
}

impl<T: Target, F: Fn(&T) -> ContrafactResult<BruteResult> + Copy> Fact<T> for BruteLabeledFact<
    T,
    F,
> {
    type Rule = BruteLabeledRule<F>;

    closed spec fn rule(&self) -> BruteLabeledRule<F> {
        BruteLabeledRule { f: self.f }
    }

    open spec fn wf(&self) -> bool {
        judges::<T, F>(self.rule().f)
    }

    open spec fn verdict(rule: BruteLabeledRule<F>, v: T::Model) -> Option<Flaw> {
        judged::<T, F>(rule.f, v)
    }

    /// A value that is not in order is replaced by one that is.
    open spec fn remedy(rule: BruteLabeledRule<F>, v: T::Model, out: T::Model) -> bool {
        judged::<T, F>(rule.f, out) is None
    }

    open spec fn next(rule: BruteLabeledRule<F>, v: T::Model) -> BruteLabeledRule<F> {
        rule
    }

    /// The value source may fail, the predicate may fail to decide on a value
    /// that was drawn, and the search may run into its limit, in which case
    /// the error carries the reason that the predicate gave last.
    open spec fn failure(rule: BruteLabeledRule<F>, v: T::Model, flaw: Flaw) -> bool {
        ||| flaw is Arbitrary && T::may_fail()
        ||| exists|w: T::Model| undecided::<T, F>(rule.f, w, flaw)
        ||| exists|w: T::Model| gives_up::<T, F>(rule.f, w, flaw)
    }

    fn mutate(&self, g: &mut Generator<'_>, obj: T) -> (r: Mutation<T>)
        ensures
            !old(g).is_check() ==> exists|drawn: Seq<T::Model>, cuts: Seq<Seq<u8>>|
                labeled_searched::<T, F>(
                    self.rule(),
                    obj.model(),
                    old(g).entropy(),
                    drawn,
                    cuts,
                    crate::fact::mutation_model(r),
                    final(g).entropy(),
                ),
    {
        let ghost start = g.entropy();
        let ghost first = obj.model();
        let ghost rule = self.rule();
        let ghost mut drawn = Seq::<T::Model>::empty();
        let ghost mut cuts = seq![start];
        let mut current = obj;
        let mut left: usize = crate::fact::BRUTE_ITERATION_LIMIT;
        loop
            invariant
            self.wf(),
                rule == self.rule(),
                first == obj.model(),
                g.is_check() == old(g).is_check(),
                start == old(g).entropy(),
                g.entropy().len() <= start.len(),
                left <= crate::fact::BRUTE_ITERATION_LIMIT,
                left == crate::fact::BRUTE_ITERATION_LIMIT ==> current.model() == first
                    && g.entropy() == start,
                left < crate::fact::BRUTE_ITERATION_LIMIT ==> !g.is_check() && (
                    labeled_answer::<T, F>(self.f, first)
                ) is Refused,
                crate::fact::drew::<T>(start, drawn, cuts),
                drawn.len() == crate::fact::BRUTE_ITERATION_LIMIT - left,
                cuts.last() == g.entropy(),
                drawn.len() > 0 ==> current.model() == drawn.last(),
                forall|i: int|
                    0 <= i < drawn.len() - 1 ==> (
                        labeled_answer::<T, F>(self.f, #[trigger] drawn[i])
                    ) is Refused,
            decreases left,
        {
            let ghost here = current.model();
            let answer = match (self.f)(&current) {
                Ok(said) => Ok(said),
                Err(e) => Err(MutationError::Internal(e)),
            };
            match crate::fact::after_answer(current, answer, left) {
                crate::fact::Search::Found(found) => {
                    proof {
                        assert(Self::remedy(self.rule(), first, found.model()));
                        if !g.is_check() {
                            assert(labeled_searched::<T, F>(
                                rule,
                                first,
                                start,
                                drawn,
                                cuts,
                                Ok(found.model()),
                                g.entropy(),
                            ));
                        }
                    }
                    return Ok(found);
                },
                crate::fact::Search::Stop(e) => {
                    proof {
                        if labeled_answer::<T, F>(self.f, here) is Broken {
                            assert(undecided::<T, F>(self.f, here, e@));
                        } else {
                            assert(gives_up::<T, F>(self.f, here, e@));
                        }
                        assert(Self::failure(self.rule(), first, e@));
                        if !g.is_check() {
                            assert(labeled_searched::<T, F>(
                                rule,
                                first,
                                start,
                                drawn,
                                cuts,
                                Err(e@),
                                g.entropy(),
                            ));
                        }
                    }
                    return Err(e);
                },
                crate::fact::Search::Draw(message) => {
                    let made = g.arbitrary::<T>(message.as_str());
                    proof {
                        if let Err(e) = &made {
                            if !g.is_check() {
                                assert(Self::failure(self.rule(), first, e@));
                                assert(labeled_searched::<T, F>(
                                    rule,
                                    first,
                                    start,
                                    drawn,
                                    cuts,
                                    Err(e@),
                                    g.entropy(),
                                ));
                            }
                        }
                    }
                    current = made?;
                    proof {
                        let more = drawn.push(current.model());
                        let longer = cuts.push(g.entropy());
                        assert forall|i: int| 0 <= i < more.len() implies T::draws(
                            #[trigger] longer[i],
                            more[i],
                            longer[i + 1],
                        ) by {
                            if i < drawn.len() {
                                assert(longer[i] == cuts[i]);
                                assert(longer[i + 1] == cuts[i + 1]);
                                assert(more[i] == drawn[i]);
                            }
                        }
                        assert forall|i: int| 0 <= i < more.len() - 1 implies (
                            labeled_answer::<T, F>(self.f, #[trigger] more[i])
                        ) is Refused by {
                            if i < drawn.len() - 1 {
                                assert(more[i] == drawn[i]);
                            } else {
                                assert(more[i] == here);
                            }
                        }
                        drawn = more;
                        cuts = longer;
                    }
                    left = left - 1;
                },
            }
        }
    }

    fn advance(&mut self, obj: &T) {
    }

    fn fork(&self) -> (r: Self) {
        BruteLabeledFact { f: self.f, _phantom: core::marker::PhantomData }
    }
}

/// Every remedy of a predicate meets it.
pub proof fn brute_is_steady<T: Target, F: Fn(&T) -> bool + Copy>(rule: BruteRule<F>)
    ensures
        crate::fact::steady::<T, BruteFact<T, F>>(rule),
{
}

} // verus!
