//! Lifts a fact about an item into a fact about a whole sequence.
//!
//! The lifted fact runs through the items in order with one instance of the
//! inner fact, which it advances after each item, so that a fact with state
//! (a running counter, say) sees the items one after the other. The instance
//! is a fork of the inner fact: the lifted fact itself stays as it was, and a
//! mutation that has to be tried again starts from the same state.

use vstd::prelude::*;
use crate::error::{prefix_check_err, Flaw, Mutation};
use crate::fact::{yields, Fact};
use crate::facts::and::AndFact;
use crate::generator::Generator;
use crate::integer::{decimal, decimal_text};
use crate::target::{models, Target};

verus! {

/// A fact about a sequence: every item meets the inner fact, which is
/// advanced from item to item. Use [`seq`] to make one.
#[derive(Debug, Clone, PartialEq, Eq)]
pub struct SeqFact<F> {
    inner_fact: F,
}

/// A fact about a sequence: it has a given length. Use [`seq_len`] to make
/// one.
#[derive(Debug)]
pub struct SeqLenFact<T> {
    len: usize,
    _phantom: core::marker::PhantomData<T>,
}

/// What a [`SeqLenFact`] stands for: the length that is asked for.
pub struct SeqLenRule {
    pub len: nat,
}

/// The text that is put before the failure of the item at `index`.
pub open spec fn item_prefix(index: nat) -> Seq<char> {
    "item "@ + decimal(index as int) + ": "@
}

/// The text that is put before the failure of the item at `index`.
pub fn item_label(index: usize) -> (text: String)
    ensures
        text@ == item_prefix(index as nat),
{
    let mut text = String::from_str("item ");
    text.append(decimal_text(index as i128).as_str());
    text.append(": ");
    text
}

/// The rule that applies after the inner fact has been advanced over the
/// values `seen`, in order.
pub open spec fn rule_after<T: Target, F: Fact<T>>(rule: F::Rule, seen: Seq<T::Model>) -> F::Rule
    decreases seen.len(),
{
    if seen.len() == 0 {
        rule
    } else {
        F::next(rule_after::<T, F>(rule, seen.drop_last()), seen.last())
    }
}

/// The verdict on the items from `from` on, where `rule` is the rule that
/// applies to the item at `from`: the flaw of the first item that has one,
/// with its index put before it.
pub open spec fn seq_verdict<T: Target, F: Fact<T>>(
    rule: F::Rule,
    items: Seq<T::Model>,
    from: int,
) -> Option<Flaw>
    decreases items.len() - from,
{
    if from < 0 || from >= items.len() {
        None
    } else {
        match F::verdict(rule, items[from]) {
            Some(flaw) => Some(flaw.within(item_prefix(from as nat))),
            None => seq_verdict::<T, F>(F::next(rule, items[from]), items, from + 1),
        }
    }
}

/// Whether a mutation in build mode may turn the items `v` into `out`: item
/// by item, under the rule that applies after the items that came out
/// before.
pub open spec fn seq_remedy<T: Target, F: Fact<T>>(
    rule: F::Rule,
    v: Seq<T::Model>,
    out: Seq<T::Model>,
) -> bool {
    &&& out.len() == v.len()
    &&& forall|i: int|
        0 <= i < v.len() ==> yields::<T, F>(
            #[trigger] rule_after::<T, F>(rule, out.take(i)),
            v[i],
            out[i],
        )
}

/// Whether a mutation in build mode that has made `seen` of the first items
/// of `v` may fail on the next item with the error `flaw`.
pub open spec fn item_fails<T: Target, F: Fact<T>>(
    rule: F::Rule,
    v: Seq<T::Model>,
    seen: Seq<T::Model>,
    flaw: Flaw,
) -> bool {
    &&& seen.len() < v.len()
    &&& forall|j: int|
        0 <= j < seen.len() ==> yields::<T, F>(
            #[trigger] rule_after::<T, F>(rule, seen.take(j)),
            v[j],
            seen[j],
        )
    &&& F::verdict(rule_after::<T, F>(rule, seen), v[seen.len() as int]) is Some
    &&& F::failure(rule_after::<T, F>(rule, seen), v[seen.len() as int], flaw)
}

/// Lifts a fact about an item into a fact about a sequence of such items.
pub fn seq<F>(inner_fact: F) -> (f: SeqFact<F>)
    ensures
        f.inner() == inner_fact,
{
    SeqFact::new(inner_fact)
}

/// A fact that a sequence has the length `len`.
pub fn seq_len<T: Target>(len: usize) -> (f: SeqLenFact<T>)
    ensures
        f.rule() == (SeqLenRule { len: len as nat }),
{
    SeqLenFact::new(len)
}

/// A fact that a sequence has the length `len` and that its items meet
/// `inner_fact`, one after the other.
pub fn sized_seq<T: Target, F: Fact<T>>(
    len: usize,
    inner_fact: F,
) -> (f: AndFact<SeqLenFact<T>, SeqFact<F>>)
    ensures
        f.first().rule() == (SeqLenRule { len: len as nat }),
        f.second().inner() == inner_fact,
{
    AndFact::new(seq_len(len), seq(inner_fact))
}

impl<F> SeqFact<F> {
    /// The lifted fact of `inner_fact`.
    pub fn new(inner_fact: F) -> (f: Self)
        ensures
            f.inner() == inner_fact,
    {
        SeqFact { inner_fact }
    }

    /// The fact about one item.
    pub closed spec fn inner(&self) -> F {
        self.inner_fact
    }
}

impl<T: Target> SeqLenFact<T> {
    /// The fact that a sequence has the length `len`.
    pub fn new(len: usize) -> (f: Self)
        ensures
            f.rule() == (SeqLenRule { len: len as nat }),
    {
        SeqLenFact { len, _phantom: core::marker::PhantomData }
    }
}

/// The models of a vector with one more item are those of the vector with
/// the model of the item at the end.
pub proof fn models_push<T: Target>(items: Seq<T>, item: T)
    ensures
        models(items.push(item)) == models(items).push(item.model()),
{
    assert(models(items.push(item)) =~= models(items).push(item.model()));
}

/// The flaw of the item at `index` under the rule that `rule` has become by
/// then, with the index of the item put before it.
pub open spec fn item_flaw<T: Target, F: Fact<T>>(
    rule: F::Rule,
    items: Seq<T::Model>,
    index: int,
) -> Option<Flaw> {
    match F::verdict(rule_after::<T, F>(rule, items.take(index)), items[index]) {
        Some(inner) => Some(inner.within(item_prefix(index as nat))),
        None => None,
    }
}

/// Advancing over one more value is one more step of the inner rule.
pub proof fn rule_after_step<T: Target, F: Fact<T>>(rule: F::Rule, items: Seq<T::Model>, k: int)
    requires
        0 <= k < items.len(),
    ensures
        rule_after::<T, F>(rule, items.take(k + 1)) == F::next(
            rule_after::<T, F>(rule, items.take(k)),
            items[k],
        ),
{
    assert(items.take(k + 1).drop_last() =~= items.take(k));
}

/// From the item at `k` on, a sequence is rejected exactly if one of its
/// items is rejected by the rule that the inner rule has become by then. The
/// flaw that is reported is that of the first such item, with the index of
/// the item put before it.
pub proof fn seq_verdict_from<T: Target, F: Fact<T>>(rule: F::Rule, items: Seq<T::Model>, k: int)
    requires
        0 <= k <= items.len(),
    ensures
        seq_verdict::<T, F>(rule_after::<T, F>(rule, items.take(k)), items, k) is Some <==> exists|
            i: int,
        |
            k <= i < items.len() && F::verdict(
                #[trigger] rule_after::<T, F>(rule, items.take(i)),
                items[i],
            ) is Some,
        seq_verdict::<T, F>(rule_after::<T, F>(rule, items.take(k)), items, k) matches Some(flaw)
            ==> exists|i: int|
            k <= i < items.len() && #[trigger] item_flaw::<T, F>(rule, items, i) == Some(flaw),
    decreases items.len() - k,
{
    if k < items.len() {
        let here = rule_after::<T, F>(rule, items.take(k));
        rule_after_step::<T, F>(rule, items, k);
        seq_verdict_from::<T, F>(rule, items, k + 1);
        if F::verdict(here, items[k]) is Some {
            assert(item_flaw::<T, F>(rule, items, k) == seq_verdict::<T, F>(here, items, k));
        }
        if F::verdict(here, items[k]) is None {
            if exists|i: int|
                k <= i < items.len() && F::verdict(
                    #[trigger] rule_after::<T, F>(rule, items.take(i)),
                    items[i],
                ) is Some {
                let i = choose|i: int|
                    k <= i < items.len() && F::verdict(
                        #[trigger] rule_after::<T, F>(rule, items.take(i)),
                        items[i],
                    ) is Some;
                assert(k + 1 <= i);
            }
        }
    }
}

/// A lifted fact rejects a sequence exactly if the inner fact, advanced from
/// item to item, rejects at least one of its items; and the flaw that it
/// reports is a flaw of such an item with the index of the item put before
/// it.
pub proof fn seq_fails_iff_an_item_fails<T: Target, F: Fact<T>>(rule: F::Rule, items: Seq<T::Model>)
    ensures
        <SeqFact<F> as Fact<Vec<T>>>::verdict(rule, items) is Some <==> exists|i: int|
            0 <= i < items.len() && F::verdict(
                #[trigger] rule_after::<T, F>(rule, items.take(i)),
                items[i],
            ) is Some,
        <SeqFact<F> as Fact<Vec<T>>>::verdict(rule, items) matches Some(flaw) ==> exists|i: int|
            0 <= i < items.len() && #[trigger] item_flaw::<T, F>(rule, items, i) == Some(flaw),
{
    assert(items.take(0) =~= Seq::<T::Model>::empty());
    seq_verdict_from::<T, F>(rule, items, 0);
}

impl<T: Target, F: Fact<T>> Fact<Vec<T>> for SeqFact<F> {
    type Rule = F::Rule;

    open spec fn rule(&self) -> F::Rule {
        self.inner().rule()
    }

    open spec fn wf(&self) -> bool {
        self.inner().wf()
    }

    open spec fn verdict(rule: F::Rule, v: Seq<T::Model>) -> Option<Flaw> {
        seq_verdict::<T, F>(rule, v, 0)
    }

    open spec fn remedy(rule: F::Rule, v: Seq<T::Model>, out: Seq<T::Model>) -> bool {
        seq_remedy::<T, F>(rule, v, out)
    }

    /// The inner fact may fail on an item, under the rule that applies after
    /// what was made of the items before it.
    open spec fn failure(rule: F::Rule, v: Seq<T::Model>, flaw: Flaw) -> bool {
        exists|seen: Seq<T::Model>| item_fails::<T, F>(rule, v, seen, flaw)
    }

    /// The inner fact is advanced over every item of the sequence.
    open spec fn next(rule: F::Rule, v: Seq<T::Model>) -> F::Rule {
        rule_after::<T, F>(rule, v)
    }

    fn mutate(&self, g: &mut Generator<'_>, obj: Vec<T>) -> (r: Mutation<Vec<T>>) {
        let ghost start = g.entropy();
        let ghost first = obj.model();
        let ghost rule = self.inner_fact.rule();
        let mut running = self.inner_fact.fork();
        let mut out: Vec<T> = Vec::new();
        let ghost mut untouched = true;
        let mut i: usize = 0;
        proof {
            assert(models(out@).take(0) =~= Seq::<T::Model>::empty());
        }
        while i < obj.len()
            invariant
                i <= obj.len(),
                out@.len() == i,
                first == models(obj@),
                rule == self.inner_fact.rule(),
                running.wf(),
                running.rule() == rule_after::<T, F>(rule, models(out@)),
                g.is_check() == old(g).is_check(),
                start == old(g).entropy(),
                g.entropy().len() <= start.len(),
                forall|j: int|
                    0 <= j < i ==> yields::<T, F>(
                        #[trigger] rule_after::<T, F>(rule, models(out@).take(j)),
                        first[j],
                        models(out@)[j],
                    ),
                untouched ==> g.entropy() == start && models(out@) == first.take(i as int)
                    && seq_verdict::<T, F>(rule, first, 0) == seq_verdict::<T, F>(
                    running.rule(),
                    first,
                    i as int,
                ),
                !untouched ==> !g.is_check() && seq_verdict::<T, F>(rule, first, 0) is Some,
            decreases obj.len() - i,
        {
            let ghost had = models(out@);
            let ghost rule_here = running.rule();
            let item = obj[i].copy();
            let outcome = running.mutate(g, item);
            proof {
                assert(first[i as int] == obj@[i as int].model());
            }
            let made = match prefix_check_err(outcome, item_label(i).as_str()) {
                Ok(made) => made,
                Err(e) => {
                    proof {
                        if !g.is_check() {
                            assert(had.take(i as int) =~= had);
                            assert forall|j: int| 0 <= j < i implies yields::<T, F>(
                                #[trigger] rule_after::<T, F>(rule, had.take(j)),
                                first[j],
                                had[j],
                            ) by {}
                            assert(item_fails::<T, F>(rule, first, had, e@));
                            assert(Self::failure(self.rule(), first, e@));
                        }
                    }
                    return Err(e);
                },
            };
            proof {
                if F::verdict(rule_here, first[i as int]) is Some {
                    untouched = false;
                }
                models_push(out@, made);
                let now = had.push(made.model());
                assert(now.drop_last() =~= had);
                assert(now.take(i as int) =~= had);
                assert forall|j: int| 0 <= j < i implies now.take(j) == had.take(j) by {
                    assert(now.take(j) =~= had.take(j));
                }
                if untouched {
                    assert(now =~= first.take(i + 1));
                }
            }
            running.advance(&made);
            out.push(made);
            i += 1;
        }
        proof {
            assert(first.take(obj.len() as int) =~= first);
            if untouched {
                assert(seq_verdict::<T, F>(running.rule(), first, obj.len() as int) is None);
            } else {
                assert(seq_remedy::<T, F>(rule, first, out.model()));
                assert(Self::remedy(self.rule(), first, out.model()));
            }
        }
        Ok(out)
    }

    fn advance(&mut self, obj: &Vec<T>) {
        let ghost rule = self.inner_fact.rule();
        let mut i: usize = 0;
        proof {
            assert(models(obj@).take(0) =~= Seq::<T::Model>::empty());
        }
        while i < obj.len()
            invariant
                i <= obj.len(),
                self.inner_fact.wf(),
                self.inner_fact.rule() == rule_after::<T, F>(rule, models(obj@).take(i as int)),
            decreases obj.len() - i,
        {
            proof {
                let now = models(obj@).take(i + 1);
                assert(now.drop_last() =~= models(obj@).take(i as int));
                assert(now.last() == obj@[i as int].model());
            }
            self.inner_fact.advance(&obj[i]);
            i += 1;
        }
        proof {
            assert(models(obj@).take(obj.len() as int) =~= models(obj@));
        }
    }

    fn fork(&self) -> (r: Self) {
        SeqFact { inner_fact: self.inner_fact.fork() }
    }
}

impl<T: Target> Fact<Vec<T>> for SeqLenFact<T> {
    type Rule = SeqLenRule;

    closed spec fn rule(&self) -> SeqLenRule {
        SeqLenRule { len: self.len as nat }
    }

    open spec fn wf(&self) -> bool {
        true
    }

    open spec fn verdict(rule: SeqLenRule, v: Seq<T::Model>) -> Option<Flaw> {
        if v.len() == rule.len {
            None
        } else if v.len() > rule.len {
            Some(Flaw::Check("LenFact: vec was too long"@))
        } else {
            Some(Flaw::Check("LenFact: vec was too short"@))
        }
    }

    /// A sequence that is too long loses its end; one that is too short gets
    /// fresh items at its end.
    open spec fn remedy(rule: SeqLenRule, v: Seq<T::Model>, out: Seq<T::Model>) -> bool {
        &&& out.len() == rule.len
        &&& forall|i: int| 0 <= i < v.len() && i < rule.len ==> out[i] == v[i]
    }

    /// A sequence that is too long is always cut; one that is too short
    /// needs fresh items, and the value source may fail.
    open spec fn failure(rule: SeqLenRule, v: Seq<T::Model>, flaw: Flaw) -> bool {
        v.len() < rule.len && flaw is Arbitrary && T::may_fail()
    }

    open spec fn next(rule: SeqLenRule, v: Seq<T::Model>) -> SeqLenRule {
        rule
    }

    fn mutate(&self, g: &mut Generator<'_>, obj: Vec<T>) -> (r: Mutation<Vec<T>>)
        ensures
            !old(g).is_check() && obj@.len() >= self.rule().len ==> r is Ok && final(g).entropy()
                == old(g).entropy(),
            !old(g).is_check() && obj@.len() < self.rule().len ==> (r matches Ok(filled)
                ==> exists|cuts: Seq<Seq<u8>>|
                crate::fact::drew::<T>(
                    old(g).entropy(),
                    models(filled@).skip(obj@.len() as int),
                    cuts,
                ) && #[trigger] cuts.last() == final(g).entropy()),
    {
        let ghost start = g.entropy();
        let ghost first = obj.model();
        let ghost mut cuts = seq![start];
        let mut out = obj;
        if out.len() == self.len {
            return Ok(out);
        }
        if out.len() > self.len {
            g.fail("LenFact: vec was too long")?;
            while out.len() > self.len
                invariant
                    out@.len() >= self.len,
                    out@.len() <= first.len(),
                    forall|i: int| 0 <= i < out@.len() ==> out@[i].model() == first[i],
                decreases out@.len(),
            {
                out.pop();
            }
            assert(Self::remedy(self.rule(), first, out.model()));
            return Ok(out);
        }
        while out.len() < self.len
            invariant
                out@.len() <= self.len,
                first.len() < self.len,
                first.len() <= out@.len(),
                first == models(obj@),
                g.is_check() == old(g).is_check(),
                start == old(g).entropy(),
                g.entropy().len() <= start.len(),
                g.is_check() ==> g.entropy() == start && out@.len() == first.len(),
                forall|i: int| 0 <= i < first.len() ==> out@[i].model() == first[i],
                crate::fact::drew::<T>(start, models(out@).skip(first.len() as int), cuts),
                cuts.last() == g.entropy(),
            decreases self.len - out@.len(),
        {
            let ghost had = models(out@).skip(first.len() as int);
            let ghost before = g.entropy();
            let drawn = g.arbitrary::<T>("LenFact: vec was too short");
            proof {
                if let Err(e) = &drawn {
                    if !g.is_check() {
                        assert(Self::failure(self.rule(), first, e@));
                    }
                }
            }
            let fresh = drawn?;
            proof {
                let more = had.push(fresh.model());
                let longer = cuts.push(g.entropy());
                assert(models(out@.push(fresh)).skip(first.len() as int) =~= more);
                assert forall|i: int| 0 <= i < more.len() implies T::draws(
                    #[trigger] longer[i],
                    more[i],
                    longer[i + 1],
                ) by {
                    if i < had.len() {
                        assert(longer[i] == cuts[i]);
                        assert(longer[i + 1] == cuts[i + 1]);
                        assert(more[i] == had[i]);
                    }
                }
                cuts = longer;
            }
            out.push(fresh);
        }
        assert(Self::remedy(self.rule(), first, out.model()));
        Ok(out)
    }

    fn advance(&mut self, obj: &Vec<T>) {
    }

    fn fork(&self) -> (r: Self) {
        SeqLenFact { len: self.len, _phantom: core::marker::PhantomData }
    }
}

} // verus!
