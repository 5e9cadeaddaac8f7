//! Membership in a range of integers.

use vstd::prelude::*;
use crate::outside::rem_euclid_wide;
use crate::error::{Flaw, Mutation, MutationError};
use crate::fact::Fact;
use crate::generator::Generator;
use crate::integer::{decimal, decimal_text, Int};

verus! {

/// One end of a range.
#[derive(Debug, Clone, Copy, PartialEq, Eq)]
pub enum Bound<T> {
    /// The range reaches up to this value and holds it.
    Included(T),
    /// The range reaches up to this value and does not hold it.
    Excluded(T),
    /// The range has no end on this side but that of the type.
    Unbounded,
}

/// A fact that an integer lies in a range. Use [`in_range`] to make one.
#[derive(Debug, Clone, PartialEq, Eq)]
pub struct InRangeFact<T> {
    context: String,
    lower: Bound<T>,
    upper: Bound<T>,
}

/// What an [`InRangeFact`] stands for.
pub struct InRangeRule {
    /// The text that failure messages start with.
    pub context: Seq<char>,
    /// The lower end of the range.
    pub lower: Bound<int>,
    /// The upper end of the range.
    pub upper: Bound<int>,
}

impl InRangeRule {
    /// The least value of the range, `lowest` being the least value of the
    /// integer type.
    pub open spec fn low(self, lowest: int) -> int {
        match self.lower {
            Bound::Included(a) => a,
            Bound::Excluded(a) => a + 1,
            Bound::Unbounded => lowest,
        }
    }

    /// The greatest value of the range, `highest` being the greatest value
    /// of the integer type.
    pub open spec fn high(self, highest: int) -> int {
        match self.upper {
            Bound::Included(b) => b,
            Bound::Excluded(b) => b - 1,
            Bound::Unbounded => highest,
        }
    }

    /// Whether the range holds no value at all.
    pub open spec fn empty(self, lowest: int, highest: int) -> bool {
        self.low(lowest) > self.high(highest)
    }

    /// Whether `v` lies in the range.
    pub open spec fn contains(self, v: int, lowest: int, highest: int) -> bool {
        self.low(lowest) <= v <= self.high(highest)
    }

    /// Where the drawn number `rand` lands in a range of more than one
    /// value: an end of the range plus or minus the remainder of `rand` by a
    /// distance between the ends. No sum or difference wraps around.
    pub open spec fn landing(self, rand: int, lowest: int, highest: int) -> int {
        match (self.lower, self.upper) {
            (Bound::Included(a), Bound::Included(b)) => a + rand % (b - a),
            (Bound::Included(a), Bound::Excluded(b)) => a + rand % (b - a),
            (Bound::Excluded(a), Bound::Included(b)) => b - rand % (b - a),
            (Bound::Unbounded, Bound::Excluded(b)) => lowest + rand % (b - lowest),
            (Bound::Included(a), Bound::Unbounded) => a + rand % (highest - a),
            _ => self.low(lowest) + rand % (self.high(highest) - self.low(lowest) + 1),
        }
    }

    /// The rendering of the range in failure messages.
    pub open spec fn rendering(self) -> Seq<char> {
        match (self.lower, self.upper) {
            (Bound::Excluded(a), upper) => "(Excluded("@ + decimal(a) + "), "@ + (match upper {
                Bound::Included(b) => "Included("@ + decimal(b) + ")"@,
                Bound::Excluded(b) => "Excluded("@ + decimal(b) + ")"@,
                Bound::Unbounded => "Unbounded"@,
            }) + ")"@,
            (lower, upper) => (match lower {
                Bound::Included(a) => decimal(a),
                _ => Seq::<char>::empty(),
            }) + (match upper {
                Bound::Included(b) => "..="@ + decimal(b),
                Bound::Excluded(b) => ".."@ + decimal(b),
                Bound::Unbounded => ".."@,
            }),
        }
    }
}

/// A landing lies in the range, provided the range holds more than one
/// value.
pub proof fn landing_is_contained(rule: InRangeRule, rand: int, lowest: int, highest: int)
    requires
        rule.low(lowest) < rule.high(highest),
    ensures
        rule.contains(rule.landing(rand, lowest, highest), lowest, highest),
{
    let width = rule.high(highest) - rule.low(lowest);
    assert(0 <= rand % width < width) by (nonlinear_arith)
        requires
            width > 0,
    ;
    assert(0 <= rand % (width + 1) < width + 1) by (nonlinear_arith)
        requires
            width > 0,
    ;
    match (rule.lower, rule.upper) {
        (Bound::Included(a), Bound::Excluded(b)) => {
            assert(0 <= rand % (b - a) < b - a) by (nonlinear_arith)
                requires
                    b - a > 0,
            ;
        },
        (Bound::Excluded(a), Bound::Included(b)) => {
            assert(0 <= rand % (b - a) < b - a) by (nonlinear_arith)
                requires
                    b - a > 0,
            ;
        },
        (Bound::Unbounded, Bound::Excluded(b)) => {
            assert(0 <= rand % (b - lowest) < b - lowest) by (nonlinear_arith)
                requires
                    b - lowest > 0,
            ;
        },
        _ => {},
    }
}

/// Whether a number with model `rand` may be drawn from `entropy`, leaving
/// `rest`, and `out` is where it lands in the range.
pub open spec fn lands<T: Int>(rule: InRangeRule, entropy: Seq<u8>, rand: int, rest: Seq<u8>, out: int) -> bool {
    T::draws(entropy, rand, rest) && out == rule.landing(rand, T::lowest(), T::highest())
}

/// The model of a bound.
pub open spec fn bound_model<T: Int>(bound: Bound<T>) -> Bound<int> {
    match bound {
        Bound::Included(a) => Bound::Included(a.model()),
        Bound::Excluded(a) => Bound::Excluded(a.model()),
        Bound::Unbounded => Bound::Unbounded,
    }
}

/// Specifies a range constraint: the value must lie between `lower` and
/// `upper`. Every pair of ends is taken; a range that holds no value makes a
/// fact that reports the range itself as a mistake.
pub fn in_range<T: Int>(context: &str, lower: Bound<T>, upper: Bound<T>) -> (f: InRangeFact<T>)
    ensures
        f.rule() == (InRangeRule {
            context: context@,
            lower: bound_model(lower),
            upper: bound_model(upper),
        }),
{
    InRangeFact { context: String::from_str(context), lower, upper }
}

/// Specifies a range constraint with the context `in_range`.
pub fn in_range_<T: Int>(lower: Bound<T>, upper: Bound<T>) -> (f: InRangeFact<T>)
    ensures
        f.rule() == (InRangeRule {
            context: "in_range"@,
            lower: bound_model(lower),
            upper: bound_model(upper),
        }),
{
    in_range("in_range", lower, upper)
}

impl<T: Int> InRangeFact<T> {
    /// The least value of the range, in 128 bits.
    fn low(&self) -> (w: i128)
        ensures
            w == self.rule().low(T::lowest()),
            T::lowest() <= w <= T::highest() + 1,
    {
        proof {
            T::bounds();
        }
        match self.lower {
            Bound::Included(a) => a.widen(),
            Bound::Excluded(a) => a.widen() + 1,
            Bound::Unbounded => T::least().widen(),
        }
    }

    /// The greatest value of the range, in 128 bits.
    fn high(&self) -> (w: i128)
        ensures
            w == self.rule().high(T::highest()),
            T::lowest() - 1 <= w <= T::highest(),
    {
        proof {
            T::bounds();
        }
        match self.upper {
            Bound::Included(b) => b.widen(),
            Bound::Excluded(b) => b.widen() - 1,
            Bound::Unbounded => T::greatest().widen(),
        }
    }

    fn render_range(&self) -> (text: String)
        ensures
            text@ == self.rule().rendering(),
    {
        match self.lower {
            Bound::Excluded(a) => {
                let mut text = String::from_str("(Excluded(");
                text.append(decimal_text(a.widen()).as_str());
                text.append("), ");
                match self.upper {
                    Bound::Included(b) => {
                        let mut inner = String::from_str("Included(");
                        inner.append(decimal_text(b.widen()).as_str());
                        inner.append(")");
                        text.append(inner.as_str());
                    },
                    Bound::Excluded(b) => {
                        let mut inner = String::from_str("Excluded(");
                        inner.append(decimal_text(b.widen()).as_str());
                        inner.append(")");
                        text.append(inner.as_str());
                    },
                    Bound::Unbounded => {
                        text.append("Unbounded");
                    },
                }
                text.append(")");
                text
            },
            _ => {
                let mut text = match self.lower {
                    Bound::Included(a) => decimal_text(a.widen()),
                    _ => String::new(),
                };
                let mut tail = match self.upper {
                    Bound::Included(b) => {
                        let mut tail = String::from_str("..=");
                        tail.append(decimal_text(b.widen()).as_str());
                        tail
                    },
                    Bound::Excluded(b) => {
                        let mut tail = String::from_str("..");
                        tail.append(decimal_text(b.widen()).as_str());
                        tail
                    },
                    Bound::Unbounded => String::from_str(".."),
                };
                text.append(tail.as_str());
                text
            },
        }
    }

    fn failure_text(&self, obj: &T) -> (text: String)
        ensures
            text@ == crate::facts::in_slice::in_slice_failure(
                self.context@,
                decimal(obj.model()),
                self.rule().rendering(),
            ),
    {
        let mut text = self.context.clone();
        text.append(": expected ");
        text.append(decimal_text(obj.widen()).as_str());
        text.append(" to be contained in ");
        text.append(self.render_range().as_str());
        text
    }

    fn land(&self, rand: T) -> (out: T)
        requires
            self.rule().low(T::lowest()) < self.rule().high(T::highest()),
        ensures
            out.model() == self.rule().landing(rand.model(), T::lowest(), T::highest()),
    {
        proof {
            T::bounds();
            landing_is_contained(self.rule(), rand.model(), T::lowest(), T::highest());
        }
        let r = rand.widen();
        let low = self.low();
        let high = self.high();
        match (self.lower, self.upper) {
            (Bound::Included(a), Bound::Included(b)) => T::narrow(
                a.widen() + rem_euclid_wide(r, b.widen() - a.widen()),
            ),
            (Bound::Included(a), Bound::Excluded(b)) => T::narrow(
                a.widen() + rem_euclid_wide(r, b.widen() - a.widen()),
            ),
            (Bound::Excluded(a), Bound::Included(b)) => T::narrow(
                b.widen() - rem_euclid_wide(r, b.widen() - a.widen()),
            ),
            (Bound::Unbounded, Bound::Excluded(b)) => {
                let least = T::least().widen();
                T::narrow(least + rem_euclid_wide(r, b.widen() - least))
            },
            (Bound::Included(a), Bound::Unbounded) => {
                let greatest = T::greatest().widen();
                T::narrow(a.widen() + rem_euclid_wide(r, greatest - a.widen()))
            },
            _ => T::narrow(low + rem_euclid_wide(r, high - low + 1)),
        }
    }
}

impl<T: Int> Fact<T> for InRangeFact<T> {
    type Rule = InRangeRule;

    closed spec fn rule(&self) -> InRangeRule {
        InRangeRule {
            context: self.context@,
            lower: bound_model(self.lower),
            upper: bound_model(self.upper),
        }
    }

    open spec fn wf(&self) -> bool {
        true
    }

    /// A range that holds no value is a mistake in the fact, whatever the
    /// value. Else a value outside the range fails the check.
    open spec fn verdict(rule: InRangeRule, v: int) -> Option<Flaw> {
        if rule.empty(T::lowest(), T::highest()) {
            Some(Flaw::User("Invalid range"@))
        } else if rule.contains(v, T::lowest(), T::highest()) {
            None
        } else {
            Some(
                Flaw::Check(
                    crate::facts::in_slice::in_slice_failure(
                        rule.context,
                        decimal(v),
                        rule.rendering(),
                    ),
                ),
            )
        }
    }

    /// A value outside a range of one value is replaced by that value. A
    /// value outside a wider range is replaced by the landing of some number
    /// of the integer type.
    open spec fn remedy(rule: InRangeRule, v: int, out: int) -> bool {
        if rule.low(T::lowest()) == rule.high(T::highest()) {
            out == rule.low(T::lowest())
        } else {
            rule.low(T::lowest()) < rule.high(T::highest()) && exists|rand: int|
                T::lowest() <= rand <= T::highest() && out == #[trigger] rule.landing(
                    rand,
                    T::lowest(),
                    T::highest(),
                )
        }
    }

    /// A range that holds no value always gives the error of the mistake. A
    /// range of one value is always reached. For a wider range a number is
    /// drawn, and the value source may fail.
    open spec fn failure(rule: InRangeRule, v: int, flaw: Flaw) -> bool {
        if rule.empty(T::lowest(), T::highest()) {
            flaw == Flaw::User("Invalid range"@)
        } else {
            rule.low(T::lowest()) < rule.high(T::highest()) && flaw is Arbitrary && T::may_fail()
        }
    }

    open spec fn next(rule: InRangeRule, v: int) -> InRangeRule {
        rule
    }

    fn mutate(&self, g: &mut Generator<'_>, obj: T) -> (r: Mutation<T>)
        ensures
            !old(g).is_check() && self.rule().low(T::lowest()) == self.rule().high(T::highest())
                ==> final(g).entropy() == old(g).entropy(),
            !old(g).is_check() && self.rule().low(T::lowest()) < self.rule().high(T::highest())
                && !self.rule().contains(obj.model(), T::lowest(), T::highest()) ==> (r matches Ok(
                x,
            ) ==> exists|rand: int|
                lands::<T>(
                    self.rule(),
                    old(g).entropy(),
                    rand,
                    final(g).entropy(),
                    x.model(),
                )),
    {
        proof {
            T::bounds();
        }
        let ghost start = g.entropy();
        let low = self.low();
        let high = self.high();
        if low > high {
            return Err(MutationError::User(String::from_str("Invalid range")));
        }
        let v = obj.widen();
        if low <= v && v <= high {
            return Ok(obj);
        }
        if low == high {
            g.fail(self.failure_text(&obj).as_str())?;
            let only = T::narrow(low);
            assert(Self::remedy(self.rule(), obj.model(), only.model()));
            return Ok(only);
        }
        let drawn = g.arbitrary::<T>(self.failure_text(&obj).as_str());
        proof {
            if let Err(e) = &drawn {
                if !g.is_check() {
                    assert(Self::failure(self.rule(), obj.model(), e@));
                }
            }
        }
        let rand = drawn?;
        let wide = rand.widen();
        let out = self.land(rand);
        proof {
            assert(T::lowest() <= rand.model() <= T::highest());
            assert(Self::remedy(self.rule(), obj.model(), out.model()));
            if !g.is_check() {
                assert(lands::<T>(self.rule(), start, rand.model(), g.entropy(), out.model()));
            }
        }
        Ok(out)
    }

    fn advance(&mut self, obj: &T) {
    }

    fn fork(&self) -> (r: Self) {
        InRangeFact { context: self.context.clone(), lower: self.lower, upper: self.upper }
    }
}

/// Every remedy of a range lies in the range.
pub proof fn in_range_is_steady<T: Int>(rule: InRangeRule)
    ensures
        crate::fact::steady::<T, InRangeFact<T>>(rule),
{
    assert forall|v: int, out: int|
        <InRangeFact<T> as Fact<T>>::verdict(rule, v) is Some && #[trigger] <InRangeFact<
            T,
        > as Fact<T>>::remedy(rule, v, out) implies <InRangeFact<T> as Fact<T>>::verdict(
        rule,
        out,
    ) is None by {
        if rule.low(T::lowest()) < rule.high(T::highest()) {
            let rand = choose|rand: int|
                T::lowest() <= rand <= T::highest() && out == #[trigger] rule.landing(
                    rand,
                    T::lowest(),
                    T::highest(),
                );
            landing_is_contained(rule, rand, T::lowest(), T::highest());
        }
    }
}

/// A fact about a range that holds a value is sure to move every value of
/// an integer type whose draws cannot fail into the range.
pub proof fn in_range_is_sure<T: Int>(rule: InRangeRule, v: int)
    requires
        !rule.empty(T::lowest(), T::highest()),
        !T::may_fail(),
    ensures
        crate::fact::sure::<T, InRangeFact<T>>(rule, v),
{
}

} // verus!
