//! Lifts a fact about a part of a value into a fact about the whole.
//!
//! The part is named by a pair of functions: a getter from the whole to the
//! part, and a setter that puts a part back into a whole. Both take and give
//! values, so nothing is ever borrowed from the whole.

use vstd::prelude::*;
use crate::error::{prefix_check_err, Flaw, Mutation};
use crate::fact::Fact;
use crate::generator::Generator;
use crate::target::Target;

verus! {

/// A fact about a whole that holds where a fact about one of its parts
/// holds. Use [`lens2`] to make one.
pub struct LensFact<O, T, G, S, F> {
    label: String,
    getter: G,
    setter: S,
    inner_fact: F,
    _phantom: core::marker::PhantomData<(O, T)>,
}

/// What a [`LensFact`] stands for.
pub struct LensRule<G, S, R> {
    /// The name of the part in failure messages.
    pub label: Seq<char>,
    /// The function from the whole to the part.
    pub getter: G,
    /// The function that puts a part into a whole.
    pub setter: S,
    /// The rule for the part.
    pub inner: R,
}

/// Whether `getter` may find a part with model `t` in a whole with model `o`.
pub open spec fn gets<O: Target, T: Target, G: Fn(O) -> T>(
    getter: G,
    o: O::Model,
    t: T::Model,
) -> bool {
    exists|whole: O, part: T|
        whole.model() == o && part.model() == t && call_ensures(getter, (whole,), part)
}

/// The model of the part that `getter` finds in a whole with model `o`.
pub open spec fn got<O: Target, T: Target, G: Fn(O) -> T>(getter: G, o: O::Model) -> T::Model {
    choose|t: T::Model| gets::<O, T, G>(getter, o, t)
}

/// The model of the whole that `setter` makes of a whole with model `o` and a
/// part with model `t`.
pub open spec fn put<O: Target, T: Target, S: Fn(O, T) -> O>(
    setter: S,
    o: O::Model,
    t: T::Model,
) -> O::Model {
    choose|out: O::Model| puts::<O, T, S>(setter, o, t, out)
}

/// Whether `setter` may make a whole with model `out` of a whole with model
/// `o` and a part with model `t`.
pub open spec fn puts<O: Target, T: Target, S: Fn(O, T) -> O>(
    setter: S,
    o: O::Model,
    t: T::Model,
    out: O::Model,
) -> bool {
    exists|whole: O, part: T, made: O|
        whole.model() == o && part.model() == t && made.model() == out && call_ensures(
            setter,
            (whole, part),
            made,
        )
}

/// Whether `getter` and `setter` name a part: both can be called on every
/// value, what they give depends on the models of what they take alone, and
/// putting back the part that was found leaves the whole as it was.
pub open spec fn names_part<O: Target, T: Target, G: Fn(O) -> T, S: Fn(O, T) -> O>(
    getter: G,
    setter: S,
) -> bool {
    &&& forall|whole: O| call_requires(getter, (whole,))
    &&& forall|whole: O, part: T| call_requires(setter, (whole, part))
    &&& forall|whole: O, part: T| #[trigger]
        call_ensures(getter, (whole,), part) ==> part.model() == got::<O, T, G>(getter, whole.model())
    &&& forall|whole: O, part: T, made: O| #[trigger]
        call_ensures(setter, (whole, part), made) ==> made.model() == put::<O, T, S>(
            setter,
            whole.model(),
            part.model(),
        )
    &&& forall|whole: O| #[trigger]
        put::<O, T, S>(setter, whole.model(), got::<O, T, G>(getter, whole.model()))
            == whole.model()
}

/// Whether `part` is a remedy of the part of a whole with model `v`, and
/// `out` is the model of that whole with `part` put into it.
pub open spec fn mends<O: Target, T: Target, G: Fn(O) -> T, S: Fn(O, T) -> O, F: Fact<T>>(
    rule: LensRule<G, S, F::Rule>,
    v: O::Model,
    part: T,
    out: O::Model,
) -> bool {
    F::remedy(rule.inner, got::<O, T, G>(rule.getter, v), part.model()) && out == put::<O, T, S>(
        rule.setter,
        v,
        part.model(),
    )
}

/// The text that is put before the failure of the part named `label`.
pub open spec fn lens_prefix(label: Seq<char>) -> Seq<char> {
    "lens("@ + label + ") > "@
}

/// Lifts `inner_fact`, a fact about a part, into a fact about the whole. The
/// part is the one that `getter` finds and `setter` puts back; the two must
/// name a part.
pub fn lens2<O: Target, T: Target, G, S, F: Fact<T>>(
    label: &str,
    getter: G,
    setter: S,
    inner_fact: F,
) -> (f:
    LensFact<O, T, G, S, F>) where G: Fn(O) -> T + Copy, S: Fn(O, T) -> O + Copy
    requires
        names_part::<O, T, G, S>(getter, setter),
        inner_fact.wf(),
    ensures
        f.wf(),
        f.rule() == (LensRule { label: label@, getter, setter, inner: inner_fact.rule() }),
{
    LensFact::new(label, getter, setter, inner_fact)
}

impl<O: Target, T: Target, G: Fn(O) -> T + Copy, S: Fn(O, T) -> O + Copy, F: Fact<T>> LensFact<
    O,
    T,
    G,
    S,
    F,
> {
    /// As [`lens2`].
    pub fn new(label: &str, getter: G, setter: S, inner_fact: F) -> (f: Self)
        requires
            names_part::<O, T, G, S>(getter, setter),
            inner_fact.wf(),
        ensures
            f.wf(),
            f.rule() == (LensRule { label: label@, getter, setter, inner: inner_fact.rule() }),
    {
        LensFact {
            label: String::from_str(label),
            getter,
            setter,
            inner_fact,
            _phantom: core::marker::PhantomData,
        }
    }

    /// The fact about the part.
    pub closed spec fn inner(&self) -> F {
        self.inner_fact
    }

    fn prefix(&self) -> (text: String)
        ensures
            text@ == lens_prefix(self.label@),
    {
        let mut text = String::from_str("lens(");
        text.append(self.label.as_str());
        text.append(") > ");
        text
    }
}

impl<O: Target, T: Target, G: Fn(O) -> T + Copy, S: Fn(O, T) -> O + Copy, F: Fact<T>> Fact<
    O,
> for LensFact<O, T, G, S, F> {
    type Rule = LensRule<G, S, F::Rule>;

    closed spec fn rule(&self) -> LensRule<G, S, F::Rule> {
        LensRule {
            label: self.label@,
            getter: self.getter,
            setter: self.setter,
            inner: self.inner_fact.rule(),
        }
    }

    open spec fn wf(&self) -> bool {
        &&& names_part::<O, T, G, S>(self.rule().getter, self.rule().setter)
        &&& self.inner().wf()
        &&& self.inner().rule() == self.rule().inner
    }

    /// The verdict of the inner rule on the part, with the name of the part
    /// put before a failure.
    open spec fn verdict(rule: LensRule<G, S, F::Rule>, v: O::Model) -> Option<Flaw> {
        match F::verdict(rule.inner, got::<O, T, G>(rule.getter, v)) {
            Some(flaw) => Some(flaw.within(lens_prefix(rule.label))),
            None => None,
        }
    }

    /// The whole with a remedy of its part put into it.
    open spec fn remedy(rule: LensRule<G, S, F::Rule>, v: O::Model, out: O::Model) -> bool {
        exists|part: T| mends::<O, T, G, S, F>(rule, v, part, out)
    }

    /// The inner fact may fail on the part.
    open spec fn failure(rule: LensRule<G, S, F::Rule>, v: O::Model, flaw: Flaw) -> bool {
        F::failure(rule.inner, got::<O, T, G>(rule.getter, v), flaw)
    }

    /// The inner rule is advanced over the part.
    open spec fn next(rule: LensRule<G, S, F::Rule>, v: O::Model) -> LensRule<G, S, F::Rule> {
        LensRule {
            label: rule.label,
            getter: rule.getter,
            setter: rule.setter,
            inner: F::next(rule.inner, got::<O, T, G>(rule.getter, v)),
        }
    }

    fn mutate(&self, g: &mut Generator<'_>, obj: O) -> (r: Mutation<O>) {
        let part = (self.getter)(obj.copy());
        let ghost before = part.model();
        let outcome = self.inner_fact.mutate(g, part);
        let named = prefix_check_err(outcome, self.prefix().as_str());
        proof {
            if let Err(e) = &named {
                if !g.is_check() {
                    assert(Self::failure(self.rule(), obj.model(), e@));
                }
            }
        }
        let part = named?;
        let made = (self.setter)(obj, part);
        proof {
            if F::verdict(self.rule().inner, before) is Some && !g.is_check() {
                assert(F::remedy(self.rule().inner, before, part.model()));
                assert(mends::<O, T, G, S, F>(self.rule(), obj.model(), part, made.model()));
                assert(Self::remedy(self.rule(), obj.model(), made.model()));
            }
        }
        Ok(made)
    }

    fn advance(&mut self, obj: &O) {
        let part = (self.getter)(obj.copy());
        self.inner_fact.advance(&part);
    }

    fn fork(&self) -> (r: Self) {
        LensFact {
            label: self.label.clone(),
            getter: self.getter,
            setter: self.setter,
            inner_fact: self.inner_fact.fork(),
            _phantom: core::marker::PhantomData,
        }
    }
}

/// A whole passes the lifted fact exactly where its part passes the inner
/// fact.
pub proof fn lens_passes_with_part<O: Target, T: Target, G, S, F: Fact<T>>(
    rule: LensRule<G, S, F::Rule>,
    v: O::Model,
) where G: Fn(O) -> T + Copy, S: Fn(O, T) -> O + Copy
    ensures
        <LensFact<O, T, G, S, F> as Fact<O>>::verdict(rule, v) is None <==> F::verdict(
            rule.inner,
            got::<O, T, G>(rule.getter, v),
        ) is None,
{
}

/// Where the getter finds again what the setter has put, and the inner fact
/// settles on a valid value in one mutation, every remedy of the lifted fact
/// is a whole whose part meets the inner fact.
pub proof fn lens_remedy_projects<O: Target, T: Target, G, S, F: Fact<T>>(
    rule: LensRule<G, S, F::Rule>,
    whole: O,
    out: O::Model,
) where G: Fn(O) -> T + Copy, S: Fn(O, T) -> O + Copy
    requires
        forall|whole: O, part: T|
            got::<O, T, G>(
                rule.getter,
                #[trigger] put::<O, T, S>(rule.setter, whole.model(), part.model()),
            ) == part.model(),
        crate::fact::steady::<T, F>(rule.inner),
        <LensFact<O, T, G, S, F> as Fact<O>>::verdict(rule, whole.model()) is Some,
        <LensFact<O, T, G, S, F> as Fact<O>>::remedy(rule, whole.model(), out),
    ensures
        F::verdict(rule.inner, got::<O, T, G>(rule.getter, out)) is None,
        <LensFact<O, T, G, S, F> as Fact<O>>::verdict(rule, out) is None,
{
    let part = choose|part: T| mends::<O, T, G, S, F>(rule, whole.model(), part, out);
    assert(got::<O, T, G>(rule.getter, put::<O, T, S>(rule.setter, whole.model(), part.model()))
        == part.model());
}

} // verus!
