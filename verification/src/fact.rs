//! The constraint interface [`Fact`], and what is derived from it: checking,
//! and, in [`Retry`], the bounded retry that forces a value into compliance
//! and the building of a value from nothing. The retry and the searches by
//! resampling each have a step function that says what follows an attempt.

use vstd::prelude::*;
use crate::check::Check;
use crate::error::{ContrafactError, ContrafactResult, Failure, Flaw, Mutation, MutationError};
use crate::generator::Generator;
use crate::integer::decimal_text;
use crate::target::{render_list, Target};

verus! {

/// How often [`Retry::satisfy`] mutates and checks before it gives up, unless
/// a fact says otherwise.
pub const SATISFY_ATTEMPTS: usize = 7;

/// How many values a search by resampling draws before it gives up.
pub const BRUTE_ITERATION_LIMIT: usize = 1000;

/// A declarative constraint on values of type `T`, which can both judge a
/// value (check) and mould a value until it passes that same judgement
/// (mutate).
///
/// The meaning of a fact is its rule: the rule decides the verdict on every
/// value, the values that a mutation may produce, and the rule that applies
/// after a value has been processed. A fact in a sequence is advanced once
/// per item; a fact without state has a rule that never changes.
pub trait Fact<T: Target>: Sized {
    /// The mathematical content of the fact.
    type Rule;

    /// The rule that this fact stands for in its present state. Unless a
    /// fact says what its rule is, nothing is known of it.
    open spec fn rule(&self) -> Self::Rule {
        vstd::pervasive::arbitrary()
    }

    /// Whether the fact is well put together. Unless a fact says when it is,
    /// it never is, and verified code cannot use it.
    open spec fn wf(&self) -> bool {
        false
    }

    /// What a check says of a value with model `v`: `None` where the value
    /// meets the constraint, the flaw that is reported where it does not.
    open spec fn verdict(rule: Self::Rule, v: T::Model) -> Option<Flaw> {
        vstd::pervasive::arbitrary()
    }

    /// Whether a mutation in build mode may turn a value with model `v`, which
    /// does not meet the constraint, into one with model `out`.
    open spec fn remedy(rule: Self::Rule, v: T::Model, out: T::Model) -> bool {
        true
    }

    /// Whether a mutation in build mode of a value with model `v`, which does
    /// not meet the constraint, may end in an error with the model `flaw`.
    /// Unless a fact says which errors it may end in, every error is held
    /// possible.
    open spec fn failure(rule: Self::Rule, v: T::Model, flaw: Flaw) -> bool {
        true
    }

    /// The rule that applies once a value with model `v` has been processed.
    /// Unless a fact says otherwise, the rule stays as it is.
    open spec fn next(rule: Self::Rule, v: T::Model) -> Self::Rule {
        rule
    }

    /// Moves `obj` towards the constraint.
    ///
    /// A value that meets the constraint comes back with its model unchanged,
    /// and no entropy is used, whatever the mode. For a value that does not,
    /// check mode returns the flaw of the verdict and uses no entropy, while
    /// build mode returns a remedy, or one of the errors that the rule allows
    /// for, none of which is of the check kind.
    fn mutate(&self, g: &mut Generator<'_>, obj: T) -> (r: Mutation<T>)
        requires
            self.wf(),
        ensures
            final(g).is_check() == old(g).is_check(),
            final(g).entropy().len() <= old(g).entropy().len(),
            old(g).is_check() ==> final(g).entropy() == old(g).entropy(),
            match Self::verdict(self.rule(), obj.model()) {
                None => (r matches Ok(x) && x.model() == obj.model()) && final(g).entropy() == old(
                    g,
                ).entropy(),
                Some(flaw) => if old(g).is_check() {
                    r matches Err(e) && e@ == flaw
                } else {
                    match r {
                        Ok(x) => Self::remedy(self.rule(), obj.model(), x.model()),
                        Err(e) => !(e@ is Check) && Self::failure(self.rule(), obj.model(), e@),
                    }
                },
            },
    ;

    /// Gets the fact ready for the next item of a sequence, `obj` being the
    /// item that was just processed.
    fn advance(&mut self, obj: &T)
        requires
            old(self).wf(),
        ensures
            final(self).wf(),
            final(self).rule() == Self::next(old(self).rule(), obj.model()),
    ;

    /// A second fact with the same rule.
    fn fork(&self) -> (r: Self)
        requires
            self.wf(),
        ensures
            r.wf(),
            r.rule() == self.rule(),
    ;

    /// How often [`Retry::satisfy`] mutates and checks before it gives up: at
    /// least once, and [`SATISFY_ATTEMPTS`] times unless a fact says
    /// otherwise.
    fn satisfy_attempts(&self) -> (n: usize)
        ensures
            n >= 1,
        default_ensures
            n == SATISFY_ATTEMPTS,
    {
        SATISFY_ATTEMPTS
    }

    /// Judges `obj`: runs the mutation in check mode on a copy and reports
    /// what came of it.
    fn check(&self, obj: &T) -> (c: Check)
        requires
            self.wf(),
        ensures
            c@ == Check::of_outcome(Self::verdict(self.rule(), obj.model())),
            c.is_ok() <==> Self::verdict(self.rule(), obj.model()) is None,
    {
        let mut g = Generator::check_mode();
        let c = Check::from_mutation(self.mutate(&mut g, obj.copy()));
        proof {
            c.ok_means_passes();
            if let Some(Flaw::Check(text)) = Self::verdict(self.rule(), obj.model()) {
                assert(seq![text].len() == 1);
            }
        }
        c
    }

}

/// What is derived from a fact by retrying: forcing a value into compliance,
/// and building a value from nothing. Every fact has these.
pub trait Retry<T: Target>: Fact<T> {
    /// Mutates `obj` until it passes the check, at most
    /// [`Fact::satisfy_attempts`] times, and advances the fact over the value
    /// that passed. This is [`Retry::satisfy_within`] with that number of
    /// attempts.
    fn satisfy(&mut self, g: &mut Generator<'_>, obj: T) -> (r: ContrafactResult<T>)
        requires
            old(self).wf(),
        ensures
            final(self).wf(),
            final(g).is_check() == old(g).is_check(),
            final(g).entropy().len() <= old(g).entropy().len(),
            match r {
                Ok(v) => Self::verdict(old(self).rule(), v.model()) is None && final(self).rule()
                    == Self::next(old(self).rule(), v.model()),
                Err(_) => final(self).rule() == old(self).rule() && Self::verdict(
                    old(self).rule(),
                    obj.model(),
                ) is Some,
            },
            Self::verdict(old(self).rule(), obj.model()) is None ==> (r matches Ok(v) && v.model()
                == obj.model()) && final(g).entropy() == old(g).entropy(),
            old(g).is_check() ==> (Self::verdict(old(self).rule(), obj.model()) matches Some(flaw)
                ==> (r matches Err(e) && e@ == flaw.text())),
            !old(g).is_check() ==> exists|attempts: nat, trail: Seq<T::Model>|
                attempts >= 1 && #[trigger] retry_ends::<T, Self>(
                    old(self).rule(),
                    obj.model(),
                    attempts,
                    trail,
                    outcome_model(r),
                ),
            !old(g).is_check() && steady::<T, Self>(old(self).rule()) && sure::<T, Self>(
                old(self).rule(),
                obj.model(),
            ) ==> r is Ok,
    ;


    /// Mutates `obj` until it passes the check, at most `attempts` times,
    /// and advances the fact over the value that passed.
    ///
    /// Every attempt mutates the value that the attempt before arrived at,
    /// the first one `obj`, and checks what comes of it. A value that passes
    /// the check ends the retry with success: it meets the constraint as it
    /// stood before the call, and the fact is advanced over it. An error of
    /// the mutation or of the check ends the retry with that error. Where
    /// the attempts run out, the error carries their number and the
    /// failures of the last check. On any error the fact is left in the
    /// state it was in: a failed attempt leaves no trace.
    fn satisfy_within(&mut self, g: &mut Generator<'_>, obj: T, attempts: usize) -> (r:
        ContrafactResult<T>)
        requires
            old(self).wf(),
        ensures
            final(self).wf(),
            final(g).is_check() == old(g).is_check(),
            final(g).entropy().len() <= old(g).entropy().len(),
            match r {
                Ok(v) => Self::verdict(old(self).rule(), v.model()) is None && final(self).rule()
                    == Self::next(old(self).rule(), v.model()),
                Err(_) => final(self).rule() == old(self).rule() && (attempts >= 1
                    ==> Self::verdict(old(self).rule(), obj.model()) is Some),
            },
            attempts >= 1 && Self::verdict(old(self).rule(), obj.model()) is None ==> (r matches Ok(
                v,
            ) && v.model() == obj.model()) && final(g).entropy() == old(g).entropy(),
            attempts >= 1 && old(g).is_check() ==> (Self::verdict(
                old(self).rule(),
                obj.model(),
            ) matches Some(flaw) ==> (r matches Err(e) && e@ == flaw.text())),
            attempts == 0 ==> (r matches Err(e) && e@ == exhausted_text(
                0,
                Seq::<Seq<char>>::empty(),
            )) && final(g).entropy() == old(g).entropy(),
            !old(g).is_check() ==> exists|trail: Seq<T::Model>| #[trigger]
                retry_ends::<T, Self>(
                    old(self).rule(),
                    obj.model(),
                    attempts as nat,
                    trail,
                    outcome_model(r),
                ),
            attempts >= 1 && !old(g).is_check() && steady::<T, Self>(old(self).rule()) && sure::<
                T,
                Self,
            >(old(self).rule(), obj.model()) ==> r is Ok,
    ;

    /// Draws a fresh value and satisfies the constraint on it. A generator in
    /// check mode cannot build. In build mode the value that is drawn is
    /// handed to [`Retry::satisfy`], and what comes of that is returned;
    /// where the draw fails, its error is.
    fn build_fallible(&mut self, g: &mut Generator<'_>) -> (r: ContrafactResult<T>)
        requires
            old(self).wf(),
        ensures
            final(self).wf(),
            final(g).is_check() == old(g).is_check(),
            final(g).entropy().len() <= old(g).entropy().len(),
            match r {
                Ok(v) => !old(g).is_check() && Self::verdict(old(self).rule(), v.model()) is None
                    && final(self).rule() == Self::next(old(self).rule(), v.model()),
                Err(_) => final(self).rule() == old(self).rule(),
            },
            old(g).is_check() ==> (r matches Err(e) && e@
                == "a value can only be built in build mode"@) && final(g).entropy() == old(
                g,
            ).entropy(),
            !old(g).is_check() ==> build_ends::<T, Self>(
                old(self).rule(),
                old(g).entropy(),
                outcome_model(r),
            ),
            !old(g).is_check() && !T::may_fail() && steady::<T, Self>(old(self).rule()) && (forall|
                m: T::Model,
            | sure::<T, Self>(old(self).rule(), m)) ==> r is Ok,
    ;
}

impl<T: Target, F: Fact<T>> Retry<T> for F {
    fn satisfy(&mut self, g: &mut Generator<'_>, obj: T) -> (r: ContrafactResult<T>) {
        let attempts = self.satisfy_attempts();
        self.satisfy_within(g, obj, attempts)
    }


    fn satisfy_within(&mut self, g: &mut Generator<'_>, obj: T, attempts: usize) -> (r:
        ContrafactResult<T>) {
        let ghost start = g.entropy();
        let ghost first = obj.model();
        let ghost rule = self.rule();
        let ghost mut trail = seq![first];
        let mut last_failure: Vec<Failure> = Vec::new();
        let mut next = obj;
        let mut i: usize = 0;
        proof {
            assert(crate::target::models(last_failure@) =~= Seq::<Seq<char>>::empty());
        }
        while i < attempts
            invariant
                self.wf(),
                *self == *old(self),
                rule == old(self).rule(),
                g.is_check() == old(g).is_check(),
                start == old(g).entropy(),
                g.entropy().len() <= start.len(),
                first == obj.model(),
                i <= attempts,
                i == 0 ==> next.model() == first && g.entropy() == start,
                i > 0 ==> Self::verdict(rule, first) is Some && !g.is_check(),
                i == 0 ==> last_failure@.len() == 0,
                i > 0 ==> (Self::verdict(rule, next.model()) matches Some(Flaw::Check(t))
                    && crate::target::models(last_failure@) == seq![t]),
                tried::<T, Self>(rule, first, trail),
                trail.len() == i + 1,
                trail.last() == next.model(),
            decreases attempts - i,
        {
            let ghost tested = next.model();
            let outcome = self.mutate(g, next);
            proof {
                if let Err(e) = &outcome {
                    if !g.is_check() {
                        assert(breaks::<T, Self>(rule, tested, e@, e@.text()));
                        assert(retry_ends::<T, Self>(
                            rule,
                            first,
                            attempts as nat,
                            trail,
                            Err(e@.text()),
                        ));
                    }
                }
            }
            let made = match settle(outcome) {
                Err(e) => {
                    return Err(e);
                },
                Ok(made) => made,
            };
            let ghost longer = if Self::verdict(rule, tested) is None {
                trail
            } else {
                trail.push(made.model())
            };
            proof {
                if Self::verdict(rule, tested) is Some {
                    assert forall|k: int| 0 <= k < longer.len() - 1 implies Self::verdict(
                        rule,
                        #[trigger] longer[k],
                    ) is Some && Self::remedy(rule, longer[k], longer[k + 1]) by {
                        if k < trail.len() - 1 {
                            assert(longer[k] == trail[k]);
                            assert(longer[k + 1] == trail[k + 1]);
                        }
                    }
                }
                assert(tried::<T, Self>(rule, first, longer));
            }
            let judged = self.check(&made);
            proof {
                judged.ok_means_passes();
                if let Some(Flaw::Check(text)) = Self::verdict(rule, made.model()) {
                    assert(seq![text].len() == 1);
                }
            }
            match after_attempt(made, judged) {
                Attempt::Done(found) => {
                    proof {
                        assert(retry_ends::<T, Self>(
                            rule,
                            first,
                            attempts as nat,
                            longer,
                            Ok(found.model()),
                        ));
                    }
                    self.advance(&found);
                    return Ok(found);
                },
                Attempt::Again(rejected, failures) => {
                    proof {
                        assert(Self::verdict(rule, tested) is Some);
                        let t = Self::verdict(rule, rejected.model())->Some_0->Check_0;
                        assert(crate::check::texts(failures@) == seq![t]);
                        assert(crate::target::models(failures@) =~= crate::check::texts(
                            failures@,
                        ));
                        trail = longer;
                    }
                    last_failure = failures;
                    next = rejected;
                },
                Attempt::Fatal(e) => {
                    proof {
                        if !g.is_check() {
                            assert(retry_ends::<T, Self>(
                                rule,
                                first,
                                attempts as nat,
                                longer,
                                Err(e@),
                            ));
                        }
                    }
                    return Err(e);
                },
            }
            i += 1;
        }
        let text = exhausted(attempts, &last_failure);
        proof {
            if !g.is_check() {
                assert(retry_ends::<T, Self>(rule, first, attempts as nat, trail, Err(text@)));
            }
        }
        Err(ContrafactError::Other(text))
    }

    fn build_fallible(&mut self, g: &mut Generator<'_>) -> (r: ContrafactResult<T>) {
        let ghost entropy = g.entropy();
        let ghost rule = self.rule();
        let drawn = g.arbitrary::<T>("a value can only be built in build mode");
        let ghost failed = match &drawn {
            Ok(_) => None,
            Err(e) => Some(e@),
        };
        match settle(drawn) {
            Err(e) => {
                proof {
                    if !g.is_check() {
                        let flaw = failed->Some_0;
                        assert(T::may_fail());
                        assert(dry(flaw, e@));
                        assert(runs_dry(e@));
                        assert(build_ends::<T, Self>(rule, entropy, Err(e@)));
                    }
                }
                Err(e)
            },
            Ok(seed) => {
                let ghost rest = g.entropy();
                let ghost m = seed.model();
                let r = self.satisfy(g, seed);
                proof {
                    if !g.is_check() {
                        let (attempts, trail) = choose|attempts: nat, trail: Seq<T::Model>|
                            attempts >= 1 && #[trigger] retry_ends::<T, Self>(
                                rule,
                                m,
                                attempts,
                                trail,
                                outcome_model(r),
                            );
                        assert(built::<T, Self>(
                            rule,
                            entropy,
                            m,
                            rest,
                            attempts,
                            trail,
                            outcome_model(r),
                        ));
                        assert(build_ends::<T, Self>(rule, entropy, outcome_model(r)));
                    }
                }
                r
            },
        }
    }
}

/// Whether `flaw` is an error of the value source, with the text `text`.
pub open spec fn dry(flaw: Flaw, text: Seq<char>) -> bool {
    flaw is Arbitrary && text == flaw.text()
}

/// Whether `text` is the text of an error of the value source.
pub open spec fn runs_dry(text: Seq<char>) -> bool {
    exists|flaw: Flaw| dry(flaw, text)
}

/// Whether a build may draw a seed with model `seed` from `entropy`, leaving
/// `rest`, and the retry that begins with the seed may go through `trail`
/// and end in `outcome`.
pub open spec fn built<T: Target, F: Fact<T>>(
    rule: F::Rule,
    entropy: Seq<u8>,
    seed: T::Model,
    rest: Seq<u8>,
    attempts: nat,
    trail: Seq<T::Model>,
    outcome: Result<T::Model, Seq<char>>,
) -> bool {
    &&& T::draws(entropy, seed, rest)
    &&& attempts >= 1
    &&& retry_ends::<T, F>(rule, seed, attempts, trail, outcome)
}

/// Whether a build in build mode from `entropy` may end in `outcome`: either
/// the draw of the seed fails, where the type can fail at all, and the
/// outcome is its error; or a seed is drawn and retried.
pub open spec fn build_ends<T: Target, F: Fact<T>>(
    rule: F::Rule,
    entropy: Seq<u8>,
    outcome: Result<T::Model, Seq<char>>,
) -> bool {
    ||| T::may_fail() && outcome is Err && runs_dry(outcome->Err_0)
    ||| exists|seed: T::Model, rest: Seq<u8>, attempts: nat, trail: Seq<T::Model>|
        built::<T, F>(rule, entropy, seed, rest, attempts, trail, outcome)
}

/// The text of the error that ends a search by resampling which found nothing
/// within the limit.
pub open spec fn limit_text(context: Seq<char>) -> Seq<char> {
    "Exceeded iteration limit of "@ + crate::integer::decimal(BRUTE_ITERATION_LIMIT as int)
        + " while attempting to meet a BruteFact. Context: "@ + context
}

/// The error that ends a search by resampling which found nothing within the
/// limit.
pub fn limit_error(context: &str) -> (e: MutationError)
    ensures
        e@ == Flaw::Internal(limit_text(context@)),
{
    let mut text = String::from_str("Exceeded iteration limit of ");
    text.append(decimal_text(BRUTE_ITERATION_LIMIT as i128).as_str());
    text.append(" while attempting to meet a BruteFact. Context: ");
    text.append(context);
    MutationError::Internal(ContrafactError::Other(text))
}

/// What follows an attempt of the retry.
pub enum Attempt<T> {
    /// The value passed its check: the retry ends with it.
    Done(T),
    /// The value failed its check with these failures: it is mutated again.
    Again(T, Vec<Failure>),
    /// The check could not be carried out: the retry ends with this error.
    Fatal(ContrafactError),
}

/// Decides what follows an attempt, from the value `v` that the mutation
/// arrived at and from the check of that value.
pub fn after_attempt<T>(v: T, judged: Check) -> (a: Attempt<T>)
    ensures
        match judged {
            Check::Failures(failures) => if failures@.len() == 0 {
                a == Attempt::Done(v)
            } else {
                a == Attempt::Again(v, failures)
            },
            Check::Error(text) => a == Attempt::<T>::Fatal(ContrafactError::Other(text)),
        },
{
    match judged {
        Check::Failures(failures) => {
            if failures.len() == 0 {
                Attempt::Done(v)
            } else {
                Attempt::Again(v, failures)
            }
        },
        Check::Error(text) => Attempt::Fatal(ContrafactError::Other(text)),
    }
}

/// Whether `trail` holds the values of a retry that began with `first`: every
/// value but the last does not meet the rule, and the value after it is a
/// remedy of it.
pub open spec fn tried<T: Target, F: Fact<T>>(rule: F::Rule, first: T::Model, trail: Seq<T::Model>) -> bool {
    &&& trail.len() >= 1
    &&& trail[0] == first
    &&& forall|k: int|
        0 <= k < trail.len() - 1 ==> F::verdict(rule, #[trigger] trail[k]) is Some && F::remedy(
            rule,
            trail[k],
            trail[k + 1],
        )
}

/// Whether a mutation in build mode of a value with model `v` may end in the
/// error `flaw`, whose text is `text`.
pub open spec fn breaks<T: Target, F: Fact<T>>(rule: F::Rule, v: T::Model, flaw: Flaw, text: Seq<char>) -> bool {
    &&& F::verdict(rule, v) is Some
    &&& F::failure(rule, v, flaw)
    &&& !(flaw is Check)
    &&& text == flaw.text()
}

/// Whether a retry in build mode of at most `attempts` attempts, whose values
/// are `trail`, may end in an error with the text `text`. There are three
/// ways: the mutation of the last value fails; the check of the last value
/// cannot be carried out; or the attempts have run out, and the text is that
/// of [`exhausted_text`] with the failure of the last value.
pub open spec fn aborts<T: Target, F: Fact<T>>(
    rule: F::Rule,
    attempts: nat,
    trail: Seq<T::Model>,
    text: Seq<char>,
) -> bool {
    ||| trail.len() <= attempts && exists|flaw: Flaw| breaks::<T, F>(rule, trail.last(), flaw, text)
    ||| 1 < trail.len() && (F::verdict(rule, trail.last()) matches Some(flaw) && !(flaw is Check)
        && Check::of_outcome(Some(flaw)) == crate::check::CheckView::Error(text))
    ||| trail.len() == attempts + 1 && text == exhausted_text(
        attempts,
        match F::verdict(rule, trail.last()) {
            Some(Flaw::Check(t)) if attempts > 0 => seq![t],
            _ => Seq::<Seq<char>>::empty(),
        },
    )
}

/// Whether a retry in build mode of at most `attempts` attempts that began
/// with a value with model `first` may go through the values `trail` and end
/// in `outcome`: the model of the value that passed, or the text of the
/// error.
pub open spec fn retry_ends<T: Target, F: Fact<T>>(
    rule: F::Rule,
    first: T::Model,
    attempts: nat,
    trail: Seq<T::Model>,
    outcome: Result<T::Model, Seq<char>>,
) -> bool {
    &&& tried::<T, F>(rule, first, trail)
    &&& trail.len() <= attempts + 1
    &&& match outcome {
        Ok(v) => v == trail.last() && F::verdict(rule, v) is None,
        Err(text) => aborts::<T, F>(rule, attempts, trail, text),
    }
}

/// The model of the outcome of a retry.
pub open spec fn outcome_model<T: Target>(r: ContrafactResult<T>) -> Result<T::Model, Seq<char>> {
    match r {
        Ok(v) => Ok(v.model()),
        Err(e) => Err(e@),
    }
}

/// What can be found out about a candidate of a search by resampling.
pub enum Answer {
    /// The candidate is in order.
    Accepted,
    /// The candidate is not in order, for this reason.
    Refused(Seq<char>),
    /// Nothing can be said of the candidate, because of this defect.
    Broken(Flaw),
}

/// Whether the values `drawn` may be drawn one after the other from a
/// generator with the entropy `start`, `cuts` being the entropy before each
/// draw and after the last.
pub open spec fn drew<T: Target>(start: Seq<u8>, drawn: Seq<T::Model>, cuts: Seq<Seq<u8>>) -> bool {
    &&& cuts.len() == drawn.len() + 1
    &&& cuts[0] == start
    &&& forall|i: int|
        0 <= i < drawn.len() ==> T::draws(#[trigger] cuts[i], drawn[i], cuts[i + 1])
}

/// Whether a search by resampling in build mode that begins with the
/// candidate `first` and the entropy `start` may draw the candidates `drawn`
/// along `cuts` and end in `outcome`, leaving the entropy `end`.
///
/// Every candidate but the last is refused by `answer`, and there are no
/// more draws than the limit allows. The search succeeds with the last
/// candidate where that is accepted. It ends in the defect of the last
/// candidate where that has one. Where the last candidate is refused too,
/// either the limit is reached, and the error is that of the limit with the
/// reason of the refusal, or the draw of one more candidate has failed.
pub open spec fn searched<T: Target>(
    answer: spec_fn(T::Model) -> Answer,
    first: T::Model,
    start: Seq<u8>,
    drawn: Seq<T::Model>,
    cuts: Seq<Seq<u8>>,
    outcome: Result<T::Model, Flaw>,
    end: Seq<u8>,
) -> bool {
    let last = if drawn.len() == 0 {
        first
    } else {
        drawn.last()
    };
    &&& drew::<T>(start, drawn, cuts)
    &&& drawn.len() <= BRUTE_ITERATION_LIMIT
    &&& drawn.len() > 0 ==> answer(first) is Refused
    &&& forall|i: int| 0 <= i < drawn.len() - 1 ==> answer(#[trigger] drawn[i]) is Refused
    &&& match outcome {
        Ok(found) => found == last && answer(last) is Accepted && end == cuts.last(),
        Err(flaw) => match answer(last) {
            Answer::Accepted => false,
            Answer::Broken(broken) => flaw == broken && end == cuts.last(),
            Answer::Refused(reason) => if drawn.len() == BRUTE_ITERATION_LIMIT {
                flaw == Flaw::Internal(limit_text(reason)) && end == cuts.last()
            } else {
                flaw is Arbitrary && T::may_fail()
            },
        },
    }
}

/// The model of the outcome of a mutation.
pub open spec fn mutation_model<T: Target>(r: Mutation<T>) -> Result<T::Model, Flaw> {
    match r {
        Ok(v) => Ok(v.model()),
        Err(e) => Err(e@),
    }
}

/// What a search by resampling does next.
pub enum Search<T> {
    /// The value is in order: the search ends with it.
    Found(T),
    /// The value is not in order: another is drawn, with this message for
    /// the draw.
    Draw(String),
    /// The search ends with this error.
    Stop(MutationError),
}

/// Decides how a search by resampling goes on, from what was found out about
/// the value `current` and from the number of draws that are left. A value
/// that is in order is kept. An error ends the search as it is. A value that
/// is not in order is replaced by a fresh one, drawn with the reason as the
/// message, as long as a draw is left; with none left the search ends in the
/// error of the limit, which carries the reason.
pub fn after_answer<T>(current: T, answer: Result<Result<(), String>, MutationError>, left: usize) -> (s:
    Search<T>)
    ensures
        match answer {
            Ok(Ok(())) => s == Search::Found(current),
            Ok(Err(reason)) => if left > 0 {
                s matches Search::Draw(message) && message@ == reason@
            } else {
                s matches Search::Stop(e) && e@ == Flaw::Internal(limit_text(reason@))
            },
            Err(fatal) => s == Search::<T>::Stop(fatal),
        },
{
    match answer {
        Ok(Ok(())) => Search::Found(current),
        Ok(Err(reason)) => {
            if left > 0 {
                Search::Draw(reason)
            } else {
                Search::Stop(limit_error(reason.as_str()))
            }
        },
        Err(fatal) => Search::Stop(fatal),
    }
}

/// Whether a mutation in build mode may turn a value with model `v` into one
/// with model `out`: a value that meets the constraint stays as it is, any
/// other is remedied.
pub open spec fn yields<T: Target, F: Fact<T>>(rule: F::Rule, v: T::Model, out: T::Model) -> bool {
    if F::verdict(rule, v) is None {
        out == v
    } else {
        F::remedy(rule, v, out)
    }
}

/// Whether a mutation in build mode of a value with model `v` is sure to
/// succeed: the rule allows for no error.
pub open spec fn sure<T: Target, F: Fact<T>>(rule: F::Rule, v: T::Model) -> bool {
    forall|flaw: Flaw| !#[trigger] F::failure(rule, v, flaw)
}

/// Whether every remedy of the rule meets the rule: a fact with such a rule
/// settles on a valid value in one mutation.
pub open spec fn steady<T: Target, F: Fact<T>>(rule: F::Rule) -> bool {
    forall|v: T::Model, out: T::Model|
        F::verdict(rule, v) is Some && #[trigger] F::remedy(rule, v, out) ==> F::verdict(
            rule,
            out,
        ) is None
}

/// What a failed mutation means to the retry loop: every error is final, and
/// is handed on with the text it carries.
pub fn settle<T>(outcome: Mutation<T>) -> (r: ContrafactResult<T>)
    ensures
        match outcome {
            Ok(v) => r == Ok::<T, ContrafactError>(v),
            Err(e) => r matches Err(fatal) && fatal@ == e@.text(),
        },
{
    match outcome {
        Ok(v) => Ok(v),
        Err(MutationError::Check(text)) => Err(ContrafactError::Other(text)),
        Err(MutationError::Arbitrary(e)) => Err(
            ContrafactError::Other(crate::outside::describe(&e)),
        ),
        Err(MutationError::Internal(ContrafactError::Other(text))) => Err(
            ContrafactError::Other(text),
        ),
        Err(MutationError::User(text)) => Err(ContrafactError::Other(text)),
    }
}

/// The text of the error that ends a retry loop whose `attempts` attempts all
/// failed their check, `last` being the failures of the last one.
pub open spec fn exhausted_text(attempts: nat, last: Seq<Seq<char>>) -> Seq<char> {
    "Could not satisfy a constraint even after "@ + crate::integer::decimal(attempts as int)
        + " attempts. Last check failure: "@ + crate::target::list_rendering::<String>(last)
}

/// The text of the error that ends a retry loop whose attempts all failed.
pub fn exhausted(attempts: usize, last: &Vec<Failure>) -> (text: String)
    ensures
        text@ == exhausted_text(attempts as nat, crate::target::models(last@)),
{
    let mut text = String::from_str("Could not satisfy a constraint even after ");
    text.append(decimal_text(attempts as i128).as_str());
    text.append(" attempts. Last check failure: ");
    text.append(render_list(last.as_slice()).as_str());
    text
}

} // verus!
