//! Checking and building a sequence item by item with one fact, and checking
//! one value against several facts. Unlike a single check, these collect the
//! failures of every item and of every fact.

use vstd::prelude::*;
use crate::check::{Check, CheckView};
use crate::error::{ContrafactResult, Failure, Flaw};
use crate::fact::{Fact, Retry};
use crate::facts::seq::{item_label, item_prefix, rule_after};
use crate::generator::Generator;
use crate::integer::{decimal, decimal_text};
use crate::target::{models, Target};

verus! {

/// The check of the items from `from` on, where `rule` is the rule that
/// applies to the item at `from` and `found` holds the failures of the items
/// before it. Every failure is kept, with the index of its item put before
/// it, and the rule is advanced over every item, failed or not. A flaw that
/// is not of the check kind ends the check at once.
pub open spec fn tally<T: Target, F: Fact<T>>(
    rule: F::Rule,
    items: Seq<T::Model>,
    from: int,
    found: Seq<Seq<char>>,
) -> CheckView
    decreases items.len() - from,
{
    if from < 0 || from >= items.len() {
        CheckView::Failures(found)
    } else {
        match F::verdict(rule, items[from]) {
            None => tally::<T, F>(F::next(rule, items[from]), items, from + 1, found),
            Some(Flaw::Check(text)) => tally::<T, F>(
                F::next(rule, items[from]),
                items,
                from + 1,
                found.push(item_prefix(from as nat) + text),
            ),
            Some(other) => Check::of_outcome(Some(other)),
        }
    }
}

/// Checks every item of `items` against `fact`, which is advanced from item
/// to item, and collects the failures of all of them.
pub fn check_seq<T: Target, F: Fact<T>>(items: &[T], fact: F) -> (c: Check)
    requires
        fact.wf(),
    ensures
        c@ == tally::<T, F>(fact.rule(), models(items@), 0, Seq::<Seq<char>>::empty()),
{
    let ghost rule = fact.rule();
    let ghost all = models(items@);
    let mut running = fact;
    let mut failures: Vec<Failure> = Vec::new();
    let mut i: usize = 0;
    proof {
        assert(crate::check::texts(failures@) =~= Seq::<Seq<char>>::empty());
    }
    while i < items.len()
        invariant
            i <= items.len(),
            all == models(items@),
            running.wf(),
            rule == fact.rule(),
            tally::<T, F>(rule, all, 0, Seq::<Seq<char>>::empty()) == tally::<T, F>(
                running.rule(),
                all,
                i as int,
                crate::check::texts(failures@),
            ),
        decreases items.len() - i,
    {
        let ghost had = crate::check::texts(failures@);
        proof {
            assert(all[i as int] == items@[i as int].model());
        }
        match running.check(&items[i]) {
            Check::Failures(found) => {
                if found.len() > 0 {
                    let mut text = item_label(i);
                    text.append(found[0].as_str());
                    failures.push(text);
                    proof {
                        assert(crate::check::texts(found@)[0] == found@[0]@);
                        assert(crate::check::texts(failures@) =~= had.push(
                            item_prefix(i as nat) + found@[0]@,
                        ));
                    }
                } else {
                    proof {
                        assert(crate::check::texts(found@).len() == 0);
                    }
                }
            },
            Check::Error(text) => {
                return Check::Error(text);
            },
        }
        running.advance(&items[i]);
        i += 1;
    }
    Check::Failures(failures)
}

/// Whether every item of `items` meets the rule that `rule` has become by
/// the time the item is reached.
pub open spec fn all_meet<T: Target, F: Fact<T>>(rule: F::Rule, items: Seq<T::Model>) -> bool {
    forall|i: int|
        0 <= i < items.len() ==> F::verdict(
            #[trigger] rule_after::<T, F>(rule, items.take(i)),
            items[i],
        ) is None
}

/// A tally never loses a failure that it was given.
pub proof fn tally_grows<T: Target, F: Fact<T>>(
    rule: F::Rule,
    items: Seq<T::Model>,
    from: int,
    found: Seq<Seq<char>>,
)
    ensures
        tally::<T, F>(rule, items, from, found) matches CheckView::Failures(all) ==> found.len()
            <= all.len(),
    decreases items.len() - from,
{
    if 0 <= from < items.len() {
        match F::verdict(rule, items[from]) {
            None => {
                tally_grows::<T, F>(F::next(rule, items[from]), items, from + 1, found);
            },
            Some(Flaw::Check(text)) => {
                tally_grows::<T, F>(
                    F::next(rule, items[from]),
                    items,
                    from + 1,
                    found.push(item_prefix(from as nat) + text),
                );
            },
            Some(other) => {},
        }
    }
}

/// From the item at `k` on, a tally adds nothing to the failures it was given
/// exactly if every item meets the rule that applies to it.
pub proof fn tally_from<T: Target, F: Fact<T>>(
    rule: F::Rule,
    items: Seq<T::Model>,
    k: int,
    found: Seq<Seq<char>>,
)
    requires
        0 <= k <= items.len(),
    ensures
        tally::<T, F>(rule_after::<T, F>(rule, items.take(k)), items, k, found)
            == CheckView::Failures(found) <==> forall|i: int|
            k <= i < items.len() ==> F::verdict(
                #[trigger] rule_after::<T, F>(rule, items.take(i)),
                items[i],
            ) is None,
    decreases items.len() - k,
{
    if k < items.len() {
        let here = rule_after::<T, F>(rule, items.take(k));
        crate::facts::seq::rule_after_step::<T, F>(rule, items, k);
        match F::verdict(here, items[k]) {
            None => {
                tally_from::<T, F>(rule, items, k + 1, found);
            },
            Some(Flaw::Check(text)) => {
                tally_grows::<T, F>(
                    F::next(here, items[k]),
                    items,
                    k + 1,
                    found.push(item_prefix(k as nat) + text),
                );
            },
            Some(other) => {},
        }
    }
}

/// Checking a sequence item by item passes exactly if every item meets the
/// rule that the fact has come to by the time the item is reached. So what
/// [`build_seq`] returns passes [`check_seq`] with a fact that has the rule
/// that the building fact began with.
pub proof fn tally_passes_iff_all_meet<T: Target, F: Fact<T>>(rule: F::Rule, items: Seq<T::Model>)
    ensures
        tally::<T, F>(rule, items, 0, Seq::<Seq<char>>::empty()).passes() <==> all_meet::<T, F>(
            rule,
            items,
        ),
{
    assert(items.take(0) =~= Seq::<T::Model>::empty());
    tally_from::<T, F>(rule, items, 0, Seq::<Seq<char>>::empty());
}

/// Whether building `steps` items one after the other under `rule` is sure
/// to succeed wherever the draw of a seed succeeds: the rule allows for no
/// error of a mutation, every remedy meets it, and the same holds of the
/// rule that applies after any value that meets it, for one step less.
pub open spec fn reliable<T: Target, F: Fact<T>>(rule: F::Rule, steps: nat) -> bool
    decreases steps,
{
    steps == 0 || {
        &&& crate::fact::steady::<T, F>(rule)
        &&& forall|m: T::Model| crate::fact::sure::<T, F>(rule, m)
        &&& forall|m: T::Model|
            F::verdict(rule, m) is None ==> reliable::<T, F>(
                #[trigger] F::next(rule, m),
                (steps - 1) as nat,
            )
    }
}

/// Whether the building of `num` items may end in an error with the text
/// `text` after the items `seen` have been built: they are fewer than `num`,
/// each meets the rule that applied to it, and the build of the next item
/// from `entropy` ends in that error.
pub open spec fn halts<T: Target, F: Fact<T>>(
    rule: F::Rule,
    num: nat,
    seen: Seq<T::Model>,
    entropy: Seq<u8>,
    text: Seq<char>,
) -> bool {
    &&& seen.len() < num
    &&& all_meet::<T, F>(rule, seen)
    &&& crate::fact::build_ends::<T, F>(rule_after::<T, F>(rule, seen), entropy, Err(text))
}

/// Builds a sequence of `num` items, each of which meets `fact` as it stands
/// when the item is built; `fact` is advanced from item to item. No items
/// need no entropy and are always built. The first item that cannot be built
/// ends the building with its error; in check mode that is the first item.
/// Under a rule that is [`reliable`] for `num` steps, and with a type whose
/// draws cannot fail, the building always succeeds.
pub fn build_seq<T: Target, F: Fact<T>>(g: &mut Generator<'_>, num: usize, fact: F) -> (r:
    ContrafactResult<Vec<T>>)
    requires
        fact.wf(),
    ensures
        final(g).is_check() == old(g).is_check(),
        final(g).entropy().len() <= old(g).entropy().len(),
        r matches Ok(items) ==> items@.len() == num && all_meet::<T, F>(
            fact.rule(),
            models(items@),
        ),
        num == 0 ==> (r matches Ok(items) && items@.len() == 0) && final(g).entropy() == old(
            g,
        ).entropy(),
        old(g).is_check() && num > 0 ==> (r matches Err(e) && e@
            == "a value can only be built in build mode"@) && final(g).entropy() == old(
            g,
        ).entropy(),
        !old(g).is_check() ==> (r matches Err(e) ==> exists|seen: Seq<T::Model>, entropy: Seq<u8>|
            halts::<T, F>(fact.rule(), num as nat, seen, entropy, e@)),
        !old(g).is_check() && !T::may_fail() && reliable::<T, F>(fact.rule(), num as nat) ==> r is Ok,
{
    let ghost rule = fact.rule();
    let ghost start = g.entropy();
    let mut running = fact;
    let mut items: Vec<T> = Vec::new();
    let mut i: usize = 0;
    proof {
        assert(models(items@) =~= Seq::<T::Model>::empty());
    }
    while i < num
        invariant
            i <= num,
            items@.len() == i,
            running.wf(),
            rule == fact.rule(),
            g.is_check() ==> i == 0,
            i == 0 ==> g.entropy() == start,
            reliable::<T, F>(rule, num as nat) ==> reliable::<T, F>(
                running.rule(),
                (num - i) as nat,
            ),
            running.rule() == rule_after::<T, F>(rule, models(items@)),
            all_meet::<T, F>(rule, models(items@)),
            g.is_check() == old(g).is_check(),
            start == old(g).entropy(),
            g.entropy().len() <= start.len(),
        decreases num - i,
    {
        let ghost had = models(items@);
        let ghost entropy = g.entropy();
        let built = running.build_fallible(g);
        proof {
            if let Err(e) = &built {
                if !g.is_check() {
                    assert(halts::<T, F>(rule, num as nat, had, entropy, e@));
                }
            }
        }
        let item = built?;
        proof {
            crate::facts::seq::models_push(items@, item);
            let now = had.push(item.model());
            assert(now.drop_last() =~= had);
            assert(now.take(i as int) =~= had);
            assert forall|j: int| 0 <= j < i implies now.take(j) == had.take(j) by {
                assert(now.take(j) =~= had.take(j));
            }
        }
        items.push(item);
        i += 1;
    }
    Ok(items)
}

/// The text that is put before the failure of the fact at `index`.
pub open spec fn fact_prefix(index: nat) -> Seq<char> {
    "fact "@ + decimal(index as int) + ": "@
}

/// The check of one value against the rules from `from` on, `found` holding
/// the failures under the rules before. Every failure is kept, with the index
/// of its rule put before it. A flaw that is not of the check kind ends the
/// check at once, and is reported in its debug rendering.
pub open spec fn gather<T: Target, F: Fact<T>>(
    rules: Seq<F::Rule>,
    v: T::Model,
    from: int,
    found: Seq<Seq<char>>,
) -> CheckView
    decreases rules.len() - from,
{
    if from < 0 || from >= rules.len() {
        CheckView::Failures(found)
    } else {
        match Check::of_outcome(F::verdict(rules[from], v)) {
            CheckView::Failures(more) => gather::<T, F>(
                rules,
                v,
                from + 1,
                if more.len() > 0 {
                    found.push(fact_prefix(from as nat) + more[0])
                } else {
                    found
                },
            ),
            CheckView::Error(text) => CheckView::Error(crate::check::debug_of_error(text)),
        }
    }
}

/// The rules of the facts of a sequence, in order.
pub open spec fn rules<T: Target, F: Fact<T>>(facts: Seq<F>) -> Seq<F::Rule> {
    Seq::new(facts.len(), |i: int| facts[i].rule())
}

/// Checks `obj` against every one of `facts` and collects the failures of
/// all of them.
pub fn collect_checks<T: Target, F: Fact<T>>(facts: &[F], obj: &T) -> (c: Check)
    requires
        forall|i: int| 0 <= i < facts@.len() ==> facts@[i].wf(),
    ensures
        c@ == gather::<T, F>(rules::<T, F>(facts@), obj.model(), 0, Seq::<Seq<char>>::empty()),
{
    let ghost all = rules::<T, F>(facts@);
    let mut failures: Vec<Failure> = Vec::new();
    let mut i: usize = 0;
    proof {
        assert(crate::check::texts(failures@) =~= Seq::<Seq<char>>::empty());
    }
    while i < facts.len()
        invariant
            i <= facts.len(),
            all == rules::<T, F>(facts@),
            forall|k: int| 0 <= k < facts@.len() ==> facts@[k].wf(),
            gather::<T, F>(all, obj.model(), 0, Seq::<Seq<char>>::empty()) == gather::<T, F>(
                all,
                obj.model(),
                i as int,
                crate::check::texts(failures@),
            ),
        decreases facts.len() - i,
    {
        let ghost had = crate::check::texts(failures@);
        proof {
            assert(all[i as int] == facts@[i as int].rule());
        }
        match facts[i].check(obj).failures() {
            Ok(found) => {
                proof {
                    assert(crate::check::texts(found@).len() == found@.len());
                }
                if found.len() > 0 {
                    let mut text = String::from_str("fact ");
                    text.append(decimal_text(i as i128).as_str());
                    text.append(": ");
                    text.append(found[0].as_str());
                    failures.push(text);
                    proof {
                        assert(crate::check::texts(found@)[0] == found@[0]@);
                        assert(crate::check::texts(failures@) =~= had.push(
                            fact_prefix(i as nat) + found@[0]@,
                        ));
                    }
                }
            },
            Err(e) => {
                return Check::from_result(Err(e));
            },
        }
        i += 1;
    }
    Check::Failures(failures)
}

} // verus!
