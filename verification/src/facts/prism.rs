//! Lifts a fact about a part that may be missing into a fact about the
//! whole.
//!
//! A prism is like a lens, except that the part may or may not be there. It
//! is typically used for one variant of an enum. Where the part is missing
//! the lifted fact is met by default: nothing is checked, nothing is changed,
//! and the inner fact is not advanced.

use vstd::prelude::*;
use crate::error::{prefix_check_err, Flaw, Mutation};
use crate::fact::Fact;
use crate::facts::lens::{got, put};
use crate::generator::Generator;
use crate::target::Target;

verus! {

/// A fact about a whole that holds where a fact about one of its parts
/// holds, or where the part is missing. Use [`prism`] to make one.
pub struct PrismFact<O, T, G, S, F> {
    label: String,
    getter: G,
    setter: S,
    inner_fact: F,
    _phantom: core::marker::PhantomData<(O, T)>,
}

/// What a [`PrismFact`] stands for.
pub struct PrismRule<G, S, R> {
    /// The name of the part in failure messages.
    pub label: Seq<char>,
    /// The function from the whole to the part, if it is there.
    pub getter: G,
    /// The function that puts a part into a whole that has one.
    pub setter: S,
    /// The rule for the part.
    pub inner: R,
}

/// Whether `getter` and `setter` name a part that may be missing: both can be
/// called on every value, what they give depends on the models of what they
/// take alone, and putting back the part that was found leaves the whole as
/// it was.
pub open spec fn names_option<O: Target, T: Target, G: Fn(O) -> Option<T>, S: Fn(O, T) -> O>(
    getter: G,
    setter: S,
) -> bool {
    &&& forall|whole: O| call_requires(getter, (whole,))
    &&& forall|whole: O, part: T| call_requires(setter, (whole, part))
    &&& forall|whole: O, part: Option<T>| #[trigger]
        call_ensures(getter, (whole,), part) ==> part.model() == got::<O, Option<T>, G>(
            getter,
            whole.model(),
        )
    &&& forall|whole: O, part: T, made: O| #[trigger]
        call_ensures(setter, (whole, part), made) ==> made.model() == put::<O, T, S>(
            setter,
            whole.model(),
            part.model(),
        )
    &&& forall|whole: O, t: T::Model|
        got::<O, Option<T>, G>(getter, whole.model()) == Some(t) ==> #[trigger] put::<O, T, S>(
            setter,
            whole.model(),
            t,
        ) == whole.model()
}

/// The text that is put before the failure of the part named `label`.
pub open spec fn prism_prefix(label: Seq<char>) -> Seq<char> {
    "prism("@ + label + ") > "@
}

/// Lifts `inner_fact`, a fact about a part that may be missing, into a fact
/// about the whole. The part is the one that `getter` finds and `setter`
/// puts back; the two must name a part that may be missing.
pub fn prism<O: Target, T: Target, G, S, F: Fact<T>>(
    label: &str,
    getter: G,
    setter: S,
    inner_fact: F,
) -> (f:
    PrismFact<O, T, G, S, F>) where G: Fn(O) -> Option<T> + Copy, S: Fn(O, T) -> O + Copy
    requires
        names_option::<O, T, G, S>(getter, setter),
        inner_fact.wf(),
    ensures
        f.wf(),
        f.rule() == (PrismRule { label: label@, getter, setter, inner: inner_fact.rule() }),
{
    PrismFact::new(label, getter, setter, inner_fact)
}

impl<O: Target, T: Target, G: Fn(O) -> Option<T> + Copy, S: Fn(O, T) -> O + Copy, F: Fact<
    T,
>> PrismFact<O, T, G, S, F> {
    /// As [`prism`].
    pub fn new(label: &str, getter: G, setter: S, inner_fact: F) -> (f: Self)
        requires
            names_option::<O, T, G, S>(getter, setter),
            inner_fact.wf(),
        ensures
            f.wf(),
            f.rule() == (PrismRule { label: label@, getter, setter, inner: inner_fact.rule() }),
    {
        PrismFact {
            label: String::from_str(label),
            getter,
            setter,
            inner_fact,
            _phantom: core::marker::PhantomData,
        }
    }

    /// The fact about the part.
    pub closed spec fn inner(&self) -> F {
        self.inner_fact
    }

    fn prefix(&self) -> (text: String)
        ensures
            text@ == prism_prefix(self.label@),
    {
        let mut text = String::from_str("prism(");
        text.append(self.label.as_str());
        text.append(") > ");
        text
    }
}

impl<O: Target, T: Target, G: Fn(O) -> Option<T> + Copy, S: Fn(O, T) -> O + Copy, F: Fact<
    T,
>> Fact<O> for PrismFact<O, T, G, S, F> {
    type Rule = PrismRule<G, S, F::Rule>;

    closed spec fn rule(&self) -> PrismRule<G, S, F::Rule> {
        PrismRule {
            label: self.label@,
            getter: self.getter,
            setter: self.setter,
            inner: self.inner_fact.rule(),
        }
    }

    open spec fn wf(&self) -> bool {
        &&& names_option::<O, T, G, S>(self.rule().getter, self.rule().setter)
        &&& self.inner().wf()
        &&& self.inner().rule() == self.rule().inner
    }

    /// The verdict of the inner rule on the part, with the name of the part
    /// put before a failure; no flaw where the part is missing.
    open spec fn verdict(rule: PrismRule<G, S, F::Rule>, v: O::Model) -> Option<Flaw> {
        match got::<O, Option<T>, G>(rule.getter, v) {
            Some(part) => match F::verdict(rule.inner, part) {
                Some(flaw) => Some(flaw.within(prism_prefix(rule.label))),
                None => None,
            },
            None => None,
        }
    }

    /// The whole with a remedy of its part put into it.
    open spec fn remedy(rule: PrismRule<G, S, F::Rule>, v: O::Model, out: O::Model) -> bool {
        exists|part: T::Model, made: T::Model|
            got::<O, Option<T>, G>(rule.getter, v) == Some(part) && #[trigger] F::remedy(
                rule.inner,
                part,
                made,
            ) && out == put::<O, T, S>(rule.setter, v, made)
    }

    /// The inner fact may fail on the part.
    open spec fn failure(rule: PrismRule<G, S, F::Rule>, v: O::Model, flaw: Flaw) -> bool {
        match got::<O, Option<T>, G>(rule.getter, v) {
            Some(part) => F::failure(rule.inner, part, flaw),
            None => false,
        }
    }

    /// The inner rule is advanced over the part where there is one.
    open spec fn next(rule: PrismRule<G, S, F::Rule>, v: O::Model) -> PrismRule<G, S, F::Rule> {
        PrismRule {
            label: rule.label,
            getter: rule.getter,
            setter: rule.setter,
            inner: match got::<O, Option<T>, G>(rule.getter, v) {
                Some(part) => F::next(rule.inner, part),
                None => rule.inner,
            },
        }
    }

    fn mutate(&self, g: &mut Generator<'_>, obj: O) -> (r: Mutation<O>) {
        match (self.getter)(obj.copy()) {
            Some(part) => {
                let ghost before = part.model();
                let outcome = self.inner_fact.mutate(g, part);
                let named = prefix_check_err(outcome, self.prefix().as_str());
                proof {
                    if let Err(e) = &named {
                        if !g.is_check() {
                            assert(Self::failure(self.rule(), obj.model(), e@));
                        }
                    }
                }
                let part = named?;
                let made = (self.setter)(obj, part);
                proof {
                    if F::verdict(self.rule().inner, before) is Some && !g.is_check() {
                        assert(F::remedy(self.rule().inner, before, part.model()));
                        assert(Self::remedy(self.rule(), obj.model(), made.model()));
                    }
                }
                Ok(made)
            },
            None => Ok(obj),
        }
    }

    fn advance(&mut self, obj: &O) {
        match (self.getter)(obj.copy()) {
            Some(part) => {
                self.inner_fact.advance(&part);
            },
            None => {},
        }
    }

    fn fork(&self) -> (r: Self) {
        PrismFact {
            label: self.label.clone(),
            getter: self.getter,
            setter: self.setter,
            inner_fact: self.inner_fact.fork(),
            _phantom: core::marker::PhantomData,
        }
    }
}

} // verus!
