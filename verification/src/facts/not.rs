//! The negation of a fact.

use vstd::prelude::*;
use crate::error::{Flaw, Mutation, MutationError};
use crate::fact::Fact;
use crate::generator::Generator;
use crate::target::Target;

verus! {

/// A fact that is met exactly where another fact is not. Use [`not`] to make
/// one.
#[derive(Debug, Clone, PartialEq, Eq)]
pub struct NotFact<F> {
    context: String,
    fact: F,
}

/// What a [`NotFact`] stands for.
pub struct NotRule<R> {
    /// The text between the brackets of the failure message.
    pub context: Seq<char>,
    /// The rule that must not be met.
    pub inner: R,
}

/// The failure of a value that meets the negated fact.
pub open spec fn not_failure(context: Seq<char>) -> Seq<char> {
    "not("@ + context + ")"@
}

/// Whether the fact with the rule `inner` has the defect `flaw`, which is no
/// failure of the data, on a value with model `w`.
pub open spec fn defect<T: Target, F: Fact<T>>(inner: F::Rule, w: T::Model, flaw: Flaw) -> bool {
    F::verdict(inner, w) == Some(flaw) && !(flaw is Check)
}

/// What a negation says of a candidate with model `m`: it is in order where
/// the negated fact reports a failure of the data.
pub open spec fn not_answer<T: Target, F: Fact<T>>(rule: NotRule<F::Rule>, m: T::Model) -> crate::fact::Answer {
    match F::verdict(rule.inner, m) {
        None => crate::fact::Answer::Refused(not_failure(rule.context)),
        Some(Flaw::Check(_)) => crate::fact::Answer::Accepted,
        Some(other) => crate::fact::Answer::Broken(other),
    }
}

/// Whether the search of a negation may draw `drawn` along `cuts` and end in
/// `outcome`, leaving the entropy `end`; see [`crate::fact::searched`].
pub open spec fn not_searched<T: Target, F: Fact<T>>(
    rule: NotRule<F::Rule>,
    first: T::Model,
    start: Seq<u8>,
    drawn: Seq<T::Model>,
    cuts: Seq<Seq<u8>>,
    outcome: Result<T::Model, Flaw>,
    end: Seq<u8>,
) -> bool {
    crate::fact::searched::<T>(
        |m: T::Model| not_answer::<T, F>(rule, m),
        first,
        start,
        drawn,
        cuts,
        outcome,
        end,
    )
}

/// Negates a fact.
pub fn not<F>(context: &str, fact: F) -> (f: NotFact<F>)
    ensures
        f.context() == context@,
        f.inner() == fact,
{
    NotFact { context: String::from_str(context), fact }
}

/// Negates a fact, with the context `not`.
pub fn not_<F>(fact: F) -> (f: NotFact<F>)
    ensures
        f.context() == "not"@,
        f.inner() == fact,
{
    not("not", fact)
}

impl<F> NotFact<F> {
    /// The text between the brackets of the failure message.
    pub closed spec fn context(&self) -> Seq<char> {
        self.context@
    }

    /// The fact that must not be met.
    pub closed spec fn inner(&self) -> F {
        self.fact
    }

    fn failure_text(&self) -> (text: String)
        ensures
            text@ == not_failure(self.context()),
    {
        let mut text = String::from_str("not(");
        text.append(self.context.as_str());
        text.append(")");
        text
    }
}

impl<T: Target, F: Fact<T>> Fact<T> for NotFact<F> {
    type Rule = NotRule<F::Rule>;

    open spec fn rule(&self) -> NotRule<F::Rule> {
        NotRule { context: self.context(), inner: self.inner().rule() }
    }

    open spec fn wf(&self) -> bool {
        self.inner().wf()
    }

    /// A value passes where the negated fact reports a failure, and fails
    /// where the negated fact is met. A flaw of the negated fact that is not
    /// a failure of the data is handed on as it is.
    open spec fn verdict(rule: NotRule<F::Rule>, v: T::Model) -> Option<Flaw> {
        match F::verdict(rule.inner, v) {
            Some(Flaw::Check(_)) => None,
            Some(other) => Some(other),
            None => Some(Flaw::Check(not_failure(rule.context))),
        }
    }

    /// A value that meets the negated fact is replaced by one that fails it.
    open spec fn remedy(rule: NotRule<F::Rule>, v: T::Model, out: T::Model) -> bool {
        F::verdict(rule.inner, out) matches Some(Flaw::Check(_))
    }

    /// The value source may fail, the negated fact may turn out to have a
    /// defect on a value, and the search may run into its limit.
    open spec fn failure(rule: NotRule<F::Rule>, v: T::Model, flaw: Flaw) -> bool {
        ||| flaw is Arbitrary && T::may_fail()
        ||| flaw == Flaw::Internal(crate::fact::limit_text(not_failure(rule.context)))
        ||| exists|w: T::Model| defect::<T, F>(rule.inner, w, flaw)
    }

    open spec fn next(rule: NotRule<F::Rule>, v: T::Model) -> NotRule<F::Rule> {
        NotRule { context: rule.context, inner: F::next(rule.inner, v) }
    }

    fn mutate(&self, g: &mut Generator<'_>, obj: T) -> (r: Mutation<T>)
        ensures
            !old(g).is_check() ==> exists|drawn: Seq<T::Model>, cuts: Seq<Seq<u8>>|
                not_searched::<T, F>(
                    self.rule(),
                    obj.model(),
                    old(g).entropy(),
                    drawn,
                    cuts,
                    crate::fact::mutation_model(r),
                    final(g).entropy(),
                ),
    {
        let ghost start = g.entropy();
        let ghost first = obj.model();
        let ghost rule = self.rule();
        let ghost mut drawn = Seq::<T::Model>::empty();
        let ghost mut cuts = seq![start];
        let mut current = obj;
        let mut left: usize = crate::fact::BRUTE_ITERATION_LIMIT;
        loop
            invariant
            self.wf(),
                rule == self.rule(),
                first == obj.model(),
                g.is_check() == old(g).is_check(),
                start == old(g).entropy(),
                g.entropy().len() <= start.len(),
                left <= crate::fact::BRUTE_ITERATION_LIMIT,
                left == crate::fact::BRUTE_ITERATION_LIMIT ==> current.model() == first
                    && g.entropy() == start,
                left < crate::fact::BRUTE_ITERATION_LIMIT ==> !g.is_check() && (
                    not_answer::<T, F>(self.rule(), first)
                ) is Refused,
                crate::fact::drew::<T>(start, drawn, cuts),
                drawn.len() == crate::fact::BRUTE_ITERATION_LIMIT - left,
                cuts.last() == g.entropy(),
                drawn.len() > 0 ==> current.model() == drawn.last(),
                forall|i: int|
                    0 <= i < drawn.len() - 1 ==> (
                        not_answer::<T, F>(self.rule(), #[trigger] drawn[i])
                    ) is Refused,
            decreases left,
        {
            let ghost here = current.model();
            let mut judge = Generator::check_mode();
            let answer = match self.fact.mutate(&mut judge, current.copy()) {
                Ok(_) => Ok(Err(self.failure_text())),
                Err(MutationError::Check(_)) => Ok(Ok(())),
                Err(other) => Err(other),
            };
            match crate::fact::after_answer(current, answer, left) {
                crate::fact::Search::Found(found) => {
                    proof {
                        assert(Self::remedy(self.rule(), first, found.model()));
                        if !g.is_check() {
                            assert(not_searched::<T, F>(
                                rule,
                                first,
                                start,
                                drawn,
                                cuts,
                                Ok(found.model()),
                                g.entropy(),
                            ));
                        }
                    }
                    return Ok(found);
                },
                crate::fact::Search::Stop(e) => {
                    proof {
                        if not_answer::<T, F>(self.rule(), here) is Broken {
                            assert(defect::<T, F>(self.inner().rule(), here, e@));
                        }
                        assert(Self::failure(self.rule(), first, e@));
                        if !g.is_check() {
                            assert(not_searched::<T, F>(
                                rule,
                                first,
                                start,
                                drawn,
                                cuts,
                                Err(e@),
                                g.entropy(),
                            ));
                        }
                    }
                    return Err(e);
                },
                crate::fact::Search::Draw(message) => {
                    let made = g.arbitrary::<T>(message.as_str());
                    proof {
                        if let Err(e) = &made {
                            if !g.is_check() {
                                assert(Self::failure(self.rule(), first, e@));
                                assert(not_searched::<T, F>(
                                    rule,
                                    first,
                                    start,
                                    drawn,
                                    cuts,
                                    Err(e@),
                                    g.entropy(),
                                ));
                            }
                        }
                    }
                    current = made?;
                    proof {
                        let more = drawn.push(current.model());
                        let longer = cuts.push(g.entropy());
                        assert forall|i: int| 0 <= i < more.len() implies T::draws(
                            #[trigger] longer[i],
                            more[i],
                            longer[i + 1],
                        ) by {
                            if i < drawn.len() {
                                assert(longer[i] == cuts[i]);
                                assert(longer[i + 1] == cuts[i + 1]);
                                assert(more[i] == drawn[i]);
                            }
                        }
                        assert forall|i: int| 0 <= i < more.len() - 1 implies (
                            not_answer::<T, F>(self.rule(), #[trigger] more[i])
                        ) is Refused by {
                            if i < drawn.len() - 1 {
                                assert(more[i] == drawn[i]);
                            } else {
                                assert(more[i] == here);
                            }
                        }
                        drawn = more;
                        cuts = longer;
                    }
                    left = left - 1;
                },
            }
        }
    }

    fn advance(&mut self, obj: &T) {
        self.fact.advance(obj);
    }

    fn fork(&self) -> (r: Self) {
        NotFact { context: self.context.clone(), fact: self.fact.fork() }
    }
}

/// Every remedy of a negation meets it.
pub proof fn not_is_steady<T: Target, F: Fact<T>>(rule: NotRule<F::Rule>)
    ensures
        crate::fact::steady::<T, NotFact<F>>(rule),
{
}

} // verus!
