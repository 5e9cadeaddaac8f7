//! Generators draw new data to meet constraints, and tie a failure message to
//! every such draw.
//!
//! Every fact is written as one mutation routine that works through a
//! generator. In build mode the generator hands out data and the routine moves
//! the value towards the constraint. In check mode every draw fails with its
//! message instead, so the same routine reports whether the value would have
//! had to change. The five primitives here are the only place where the two
//! modes differ.

use vstd::prelude::*;
use crate::outside::{cursor_index, cursor_int, cursor_len, cursor_over, unread};
use crate::error::{Flaw, Mutation, MutationError};
use crate::integer::Int;
use crate::target::Target;

verus! {

/// A source of data in one of two modes: build mode, over a buffer of
/// entropy, or check mode, in which nothing is ever drawn.
pub struct Generator<'a> {
    arb: arbitrary::Unstructured<'a>,
    check: bool,
}

impl<'a> Generator<'a> {
    /// Whether the generator is in check mode.
    pub closed spec fn is_check(&self) -> bool {
        self.check
    }

    /// The entropy that has not been used yet.
    pub closed spec fn entropy(&self) -> Seq<u8> {
        unread(self.arb)
    }

    /// A generator in build mode over `bytes`, of which there must be at
    /// least one.
    pub fn from(bytes: &'a [u8]) -> (g: Self)
        requires
            bytes@.len() > 0,
        ensures
            !g.is_check(),
            g.entropy() == bytes@,
    {
        Generator { arb: cursor_over(bytes), check: false }
    }

    /// A generator in check mode. It holds no entropy.
    pub fn check_mode() -> (g: Generator<'static>)
        ensures
            g.is_check(),
            g.entropy() == Seq::<u8>::empty(),
    {
        let nothing: &'static [u8] = &[];
        Generator { arb: cursor_over(nothing), check: true }
    }

    /// Whether the generator is in check mode.
    pub fn checking(&self) -> (b: bool)
        ensures
            b == self.is_check(),
    {
        self.check
    }

    /// The number of bytes of entropy that have not been used yet.
    pub fn len(&self) -> (n: usize)
        ensures
            n == self.entropy().len(),
    {
        cursor_len(&self.arb)
    }

    /// Whether all entropy has been used.
    pub fn is_empty(&self) -> (b: bool)
        ensures
            b == (self.entropy().len() == 0),
    {
        cursor_len(&self.arb) == 0
    }

    /// Marks a change to the data that needs no entropy: nothing happens in
    /// build mode, and in check mode the change is reported as the failure
    /// `err`.
    pub fn fail(&self, err: &str) -> (r: Mutation<()>)
        ensures
            self.is_check() ==> (r matches Err(e) && e@ == Flaw::Check(err@)),
            !self.is_check() ==> r is Ok,
    {
        if self.check {
            Err(MutationError::Check(String::from_str(err)))
        } else {
            Ok(())
        }
    }

    /// Makes `source` equal to `target`. Where they already agree nothing
    /// happens. Where they differ, build mode overwrites `source` and check
    /// mode reports the failure `err`, leaving `source` as it is.
    pub fn set<T: Target>(&self, source: &mut T, target: &T, err: &str) -> (r: Mutation<()>)
        ensures
            old(source).model() == target.model() ==> r is Ok && *final(source) == *old(source),
            old(source).model() != target.model() && self.is_check() ==> (r matches Err(e) && e@
                == Flaw::Check(err@)) && *final(source) == *old(source),
            old(source).model() != target.model() && !self.is_check() ==> r is Ok && final(
                source
            ).model() == target.model(),
    {
        if !source.same(target) {
            if self.check {
                return Err(MutationError::Check(String::from_str(err)));
            } else {
                *source = target.copy();
            }
        }
        Ok(())
    }

    /// Draws a fresh value in build mode, as the type of the value draws it;
    /// fails with `err` in check mode, using no entropy.
    pub fn arbitrary<T: Target>(&mut self, err: &str) -> (r: Mutation<T>)
        ensures
            final(self).is_check() == old(self).is_check(),
            old(self).is_check() ==> (r matches Err(e) && e@ == Flaw::Check(err@))
               
                    && final(self).entropy() == old(self).entropy(),
            !old(self).is_check() ==> (r is Ok || r matches Err(MutationError::Arbitrary(_)))
                && final(self).entropy().len() <= old(self).entropy().len(),
            !old(self).is_check() && !T::may_fail() ==> r is Ok,
            !old(self).is_check() ==> (r matches Ok(x) ==> T::draws(
                old(self).entropy(),
                x.model(),
                final(self).entropy(),
            )),
    {
        if self.check {
            Err(MutationError::Check(String::from_str(err)))
        } else {
            match T::arbitrary(&mut self.arb) {
                Ok(v) => Ok(v),
                Err(e) => Err(MutationError::Arbitrary(e)),
            }
        }
    }

    /// Picks one of `choices`. None to pick from is a mistake of the caller.
    /// A single choice is returned without using entropy, whatever the mode.
    /// Otherwise check mode fails with `err`, and build mode draws an index,
    /// which needs entropy to be left.
    pub fn pick<'b, T>(&mut self, choices: &'b [T], err: &str) -> (r: Mutation<&'b T>)
        ensures
            final(self).is_check() == old(self).is_check(),
            final(self).entropy().len() <= old(self).entropy().len(),
            match Self::choice_kind(
                choices@.len(),
                old(self).is_check(),
                old(self).entropy().len(),
            ) {
                Draw::Misuse(text) => (r matches Err(e) && e@ == Flaw::User(text))
                    && final(self).entropy() == old(self).entropy(),
                Draw::Only => r == Ok::<&'b T, MutationError>(&choices@[0])
                    && final(self).entropy() == old(self).entropy(),
                Draw::Refused => (r matches Err(e) && e@ == Flaw::Check(err@))
                    && final(self).entropy() == old(self).entropy(),
                Draw::Drawn => r matches Ok(x) && exists|i: int|
                    0 <= i < choices@.len() && *x == choices@[i],
            },
    {
        if choices.len() == 0 {
            return Err(MutationError::User(String::from_str("Empty choices")));
        }
        if choices.len() == 1 {
            return Ok(&choices[0]);
        }
        if self.check {
            return Err(MutationError::Check(String::from_str(err)));
        }
        if cursor_len(&self.arb) == 0 {
            return Err(MutationError::User(String::from_str("Ran out of entropy")));
        }
        match cursor_index(&mut self.arb, choices.len()) {
            Ok(i) => Ok(&choices[i]),
            Err(e) => Err(MutationError::Arbitrary(e)),
        }
    }

    /// Which of its four ways a draw among `options` possibilities goes.
    pub open spec fn choice_kind(options: nat, check: bool, entropy: nat) -> Draw {
        if options == 0 {
            Draw::Misuse("Empty choices"@)
        } else if options == 1 {
            Draw::Only
        } else if check {
            Draw::Refused
        } else if entropy == 0 {
            Draw::Misuse("Ran out of entropy"@)
        } else {
            Draw::Drawn
        }
    }

    /// Which of its four ways a draw between `lo` and `hi` goes.
    pub open spec fn range_kind(lo: int, hi: int, check: bool, entropy: nat) -> Draw {
        if lo > hi {
            Draw::Misuse("Invalid range"@)
        } else if lo == hi {
            Draw::Only
        } else if check {
            Draw::Refused
        } else if entropy == 0 {
            Draw::Misuse("Ran out of entropy"@)
        } else {
            Draw::Drawn
        }
    }

    /// Picks an integer between `lo` and `hi`, both counted in. A reversed
    /// range is a mistake of the caller. A range of one value gives that value
    /// without using entropy, whatever the mode. Otherwise check mode fails
    /// with `err`, and build mode draws, which needs entropy to be left.
    pub fn int_in_range<T: Int>(&mut self, lo: T, hi: T, err: &str) -> (r: Mutation<T>)
        ensures
            final(self).is_check() == old(self).is_check(),
            final(self).entropy().len() <= old(self).entropy().len(),
            match Self::range_kind(
                lo.model(),
                hi.model(),
                old(self).is_check(),
                old(self).entropy().len(),
            ) {
                Draw::Misuse(text) => (r matches Err(e) && e@ == Flaw::User(text))
                    && final(self).entropy() == old(self).entropy(),
                Draw::Only => (r matches Ok(x) && x.model() == lo.model())
                    && final(self).entropy() == old(self).entropy(),
                Draw::Refused => (r matches Err(e) && e@ == Flaw::Check(err@))
                    && final(self).entropy() == old(self).entropy(),
                Draw::Drawn => r matches Ok(x) && lo.model() <= x.model() <= hi.model(),
            },
    {
        let low = lo.widen();
        let high = hi.widen();
        if low > high {
            return Err(MutationError::User(String::from_str("Invalid range")));
        } else if low == high {
            return Ok(lo);
        }
        if self.check {
            return Err(MutationError::Check(String::from_str(err)));
        }
        if cursor_len(&self.arb) == 0 {
            return Err(MutationError::User(String::from_str("Ran out of entropy")));
        }
        match cursor_int(&mut self.arb, low, high) {
            Ok(x) => Ok(T::narrow(x)),
            Err(e) => Err(MutationError::Arbitrary(e)),
        }
    }
}

/// The ways in which a draw among given possibilities can go.
pub enum Draw {
    /// The caller made a mistake, or entropy ran out: an error of the user
    /// kind with this text.
    Misuse(Seq<char>),
    /// There is only one possibility: it is returned, and no entropy is used.
    Only,
    /// Check mode: the draw is refused with the caller's message.
    Refused,
    /// Build mode: one of the possibilities is drawn.
    Drawn,
}

} // verus!
