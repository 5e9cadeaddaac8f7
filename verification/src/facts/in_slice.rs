//! Membership in a given list of values.

use vstd::prelude::*;
use crate::error::{Flaw, Mutation};
use crate::fact::Fact;
use crate::generator::Generator;
use crate::target::{models, render_list, Target};

verus! {

/// A fact that a value is one of a given list. Use [`in_slice`] to make one.
#[derive(Debug, Clone, PartialEq, Eq)]
pub struct InSliceFact<'a, T> {
    context: String,
    slice: &'a [T],
}

/// What an [`InSliceFact`] stands for.
pub struct InSliceRule<M> {
    /// The text that failure messages start with.
    pub context: Seq<char>,
    /// The models of the values to pick from, in order.
    pub options: Seq<M>,
}

/// The failure of a value rendered as `value` that is not among the options
/// rendered as `options`.
pub open spec fn in_slice_failure(
    context: Seq<char>,
    value: Seq<char>,
    options: Seq<char>,
) -> Seq<char> {
    context + ": expected "@ + value + " to be contained in "@ + options
}

/// Specifies a membership constraint: the value must be one of `slice`.
pub fn in_slice<'a, T: Target>(context: &str, slice: &'a [T]) -> (f: InSliceFact<'a, T>)
    ensures
        f.rule() == (InSliceRule { context: context@, options: models(slice@) }),
{
    InSliceFact { context: String::from_str(context), slice }
}

/// Specifies a membership constraint with the context `in_slice`.
pub fn in_slice_<'a, T: Target>(slice: &'a [T]) -> (f: InSliceFact<'a, T>)
    ensures
        f.rule() == (InSliceRule { context: "in_slice"@, options: models(slice@) }),
{
    in_slice("in_slice", slice)
}

/// Whether one of `items` has the same model as `value`.
pub fn holds<T: Target>(items: &[T], value: &T) -> (found: bool)
    ensures
        found == models(items@).contains(value.model()),
{
    let mut i: usize = 0;
    while i < items.len()
        invariant
            i <= items.len(),
            forall|j: int| 0 <= j < i ==> items@[j].model() != value.model(),
        decreases items.len() - i,
    {
        if items[i].same(value) {
            assert(models(items@)[i as int] == value.model());
            return true;
        }
        i += 1;
    }
    assert forall|j: int| 0 <= j < models(items@).len() implies models(items@)[j] != value.model() by {
        assert(models(items@)[j] == items@[j].model());
    }
    false
}

impl<'a, T: Target> InSliceFact<'a, T> {
    fn failure_text(&self, obj: &T) -> (text: String)
        ensures
            text@ == in_slice_failure(
                self.context@,
                T::rendering(obj.model()),
                crate::target::list_rendering::<T>(models(self.slice@)),
            ),
    {
        let mut text = self.context.clone();
        text.append(": expected ");
        text.append(obj.render().as_str());
        text.append(" to be contained in ");
        text.append(render_list(self.slice).as_str());
        text
    }
}

impl<'a, T: Target> Fact<T> for InSliceFact<'a, T> {
    type Rule = InSliceRule<T::Model>;

    closed spec fn rule(&self) -> InSliceRule<T::Model> {
        InSliceRule { context: self.context@, options: models(self.slice@) }
    }

    open spec fn wf(&self) -> bool {
        true
    }

    /// A value that is not among the options fails the check; where there is
    /// nothing to pick from at all, the fact itself is at fault.
    open spec fn verdict(rule: InSliceRule<T::Model>, v: T::Model) -> Option<Flaw> {
        if rule.options.contains(v) {
            None
        } else if rule.options.len() == 0 {
            Some(Flaw::User("Empty choices"@))
        } else {
            Some(
                Flaw::Check(
                    in_slice_failure(
                        rule.context,
                        T::rendering(v),
                        crate::target::list_rendering::<T>(rule.options),
                    ),
                ),
            )
        }
    }

    open spec fn remedy(rule: InSliceRule<T::Model>, v: T::Model, out: T::Model) -> bool {
        rule.options.contains(out)
    }

    /// Nothing to pick from is a mistake in the fact; a pick among several
    /// options needs entropy; the only option is always picked.
    open spec fn failure(rule: InSliceRule<T::Model>, v: T::Model, flaw: Flaw) -> bool {
        ||| rule.options.len() == 0 && flaw == Flaw::User("Empty choices"@)
        ||| rule.options.len() > 1 && flaw == Flaw::User("Ran out of entropy"@)
    }

    open spec fn next(rule: InSliceRule<T::Model>, v: T::Model) -> InSliceRule<T::Model> {
        rule
    }

    fn mutate(&self, g: &mut Generator<'_>, obj: T) -> (r: Mutation<T>)
        ensures
            !old(g).is_check() && (self.rule().options.len() == 1 || (self.rule().options.len() > 1
                && old(g).entropy().len() > 0)) ==> r is Ok,
            !old(g).is_check() && self.rule().options.len() > 1 && old(g).entropy().len() == 0
                && !self.rule().options.contains(obj.model()) ==> (r matches Err(e) && e@
                == Flaw::User("Ran out of entropy"@)),
    {
        if holds(self.slice, &obj) {
            return Ok(obj);
        }
        let text = self.failure_text(&obj);
        if self.slice.len() == 1 {
            g.fail(text.as_str())?;
        }
        let found = g.pick(self.slice, text.as_str());
        proof {
            if let Err(e) = &found {
                if !g.is_check() {
                    assert(Self::failure(self.rule(), obj.model(), e@));
                }
            }
        }
        let picked = found?;
        let out = picked.copy();
        proof {
            let i = choose|i: int| 0 <= i < self.slice@.len() && *picked == self.slice@[i];
            assert(models(self.slice@)[i] == out.model());
            assert(Self::remedy(self.rule(), obj.model(), out.model()));
        }
        Ok(out)
    }

    fn advance(&mut self, obj: &T) {
    }

    fn fork(&self) -> (r: Self) {
        InSliceFact { context: self.context.clone(), slice: self.slice }
    }
}

/// Every remedy of a membership meets it.
pub proof fn in_slice_is_steady<'a, T: Target>(rule: InSliceRule<T::Model>)
    ensures
        crate::fact::steady::<T, InSliceFact<'a, T>>(rule),
{
}

} // verus!
