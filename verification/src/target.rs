//! The types that facts can constrain, each with its mathematical model.
//! The integer types are in the module `integer`.

use vstd::prelude::*;
use crate::outside::{cursor_string, debug_text};
use crate::integer::draw_number;

verus! {

/// A type whose values can be constrained by facts. Such a type can be
/// compared, copied, rendered for failure messages, and drawn from an entropy
/// cursor. All four are stated over the type's model.
pub trait Target: Sized {
    /// The mathematical model of a value.
    type Model;

    /// The model of this value. Unless a type says what its model is,
    /// nothing is known of it.
    open spec fn model(&self) -> Self::Model {
        vstd::pervasive::arbitrary()
    }

    /// The text that stands for a value with model `m` in failure messages.
    /// Unless a type says what the text is, nothing is known of it.
    open spec fn rendering(m: Self::Model) -> Seq<char> {
        vstd::pervasive::arbitrary()
    }

    /// Whether a draw from a cursor that holds `bytes` may give a value with
    /// model `m` and leave the cursor with `rest`. Unless a type says what it
    /// draws, every draw is held possible.
    open spec fn draws(bytes: Seq<u8>, m: Self::Model, rest: Seq<u8>) -> bool {
        true
    }

    /// Whether a draw can fail at all. Unless a type says that it cannot, it
    /// is held to be able to.
    open spec fn may_fail() -> bool {
        true
    }

    /// Draws a value from the cursor, moving it past what was used.
    fn arbitrary(u: &mut arbitrary::Unstructured<'_>) -> (r: Result<Self, arbitrary::Error>)
        ensures
            crate::outside::unread(*final(u)).len() <= crate::outside::unread(*old(u)).len(),
            !Self::may_fail() ==> r is Ok,
            r matches Ok(x) ==> Self::draws(
                crate::outside::unread(*old(u)),
                x.model(),
                crate::outside::unread(*final(u)),
            ),
    ;

    /// Whether two values have the same model.
    fn same(&self, other: &Self) -> (b: bool)
        ensures
            b == (self.model() == other.model()),
    ;

    /// A value with the same model.
    fn copy(&self) -> (c: Self)
        ensures
            c.model() == self.model(),
    ;

    /// The text that stands for this value in failure messages.
    fn render(&self) -> (text: String)
        ensures
            text@ == Self::rendering(self.model()),
    ;
}
/// The flag that the next byte of a cursor with `bytes` unread spells: whether
/// its lowest bit is set. A cursor that has run dry spells no.
pub open spec fn next_flag(bytes: Seq<u8>) -> bool {
    crate::integer::next_number(bytes, 1) % 2 == 1
}

impl Target for bool {
    type Model = bool;

    open spec fn model(&self) -> bool {
        *self
    }

    open spec fn rendering(m: bool) -> Seq<char> {
        if m {
            "true"@
        } else {
            "false"@
        }
    }

    /// The lowest bit of the next byte decides, and the byte is used up.
    open spec fn draws(bytes: Seq<u8>, m: bool, rest: Seq<u8>) -> bool {
        m == next_flag(bytes) && rest == crate::outside::left(bytes, 1)
    }

    open spec fn may_fail() -> bool {
        false
    }

    fn arbitrary(u: &mut arbitrary::Unstructured<'_>) -> (r: Result<Self, arbitrary::Error>)
        ensures
            r matches Ok(b) && b == next_flag(crate::outside::unread(*old(u))),
            crate::outside::unread(*final(u)) == crate::outside::left(
                crate::outside::unread(*old(u)),
                1,
            ),
            r == Ok::<bool, arbitrary::Error>(true) ==> crate::outside::unread(*final(u)).len()
                < crate::outside::unread(*old(u)).len(),
    {
        proof {
            reveal_with_fuel(crate::integer::byte_range, 2);
            reveal_with_fuel(crate::integer::little_endian, 2);
            let bytes = crate::outside::drawn(crate::outside::unread(*old(u)), 1);
            assert(bytes.drop_first().len() == 0);
        }
        let v = draw_number(u, 1);
        let flag = v % 2 == 1;
        proof {
            assert(Self::draws(
                crate::outside::unread(*old(u)),
                flag.model(),
                crate::outside::unread(*u),
            ));
        }
        Ok(flag)
    }

    fn same(&self, other: &Self) -> (b: bool) {
        *self == *other
    }

    fn copy(&self) -> (c: Self) {
        *self
    }

    fn render(&self) -> (text: String) {
        if *self {
            String::from_str("true")
        } else {
            String::from_str("false")
        }
    }
}

impl Target for String {
    type Model = Seq<char>;

    open spec fn model(&self) -> Seq<char> {
        self@
    }

    open spec fn rendering(m: Seq<char>) -> Seq<char> {
        crate::outside::quoted(m)
    }

    /// The unread bytes decide the string; the cursor is left with no more
    /// bytes than it had.
    open spec fn draws(bytes: Seq<u8>, m: Seq<char>, rest: Seq<u8>) -> bool {
        m == crate::outside::drawn_string(bytes) && rest.len() <= bytes.len()
    }

    open spec fn may_fail() -> bool {
        false
    }

    fn arbitrary(u: &mut arbitrary::Unstructured<'_>) -> (r: Result<Self, arbitrary::Error>)
        ensures
            r matches Ok(text) && text@ == crate::outside::drawn_string(
                crate::outside::unread(*old(u)),
            ),
    {
        cursor_string(u)
    }

    fn same(&self, other: &Self) -> (b: bool) {
        *self == *other
    }

    fn copy(&self) -> (c: Self) {
        self.clone()
    }

    fn render(&self) -> (text: String) {
        debug_text(self.as_str())
    }
}

/// Whether the first half of the pair `m` may be drawn from `bytes`, leaving
/// `between`, and the second half from `between`, leaving `rest`.
pub open spec fn draws_halves<A: Target, B: Target>(
    bytes: Seq<u8>,
    m: (A::Model, B::Model),
    between: Seq<u8>,
    rest: Seq<u8>,
) -> bool {
    A::draws(bytes, m.0, between) && B::draws(between, m.1, rest)
}

impl<A: Target, B: Target> Target for (A, B) {
    type Model = (A::Model, B::Model);

    open spec fn model(&self) -> (A::Model, B::Model) {
        (self.0.model(), self.1.model())
    }

    open spec fn rendering(m: (A::Model, B::Model)) -> Seq<char> {
        "("@ + A::rendering(m.0) + ", "@ + B::rendering(m.1) + ")"@
    }

    /// The first half is drawn, and the second half from what that leaves.
    open spec fn draws(bytes: Seq<u8>, m: (A::Model, B::Model), rest: Seq<u8>) -> bool {
        exists|between: Seq<u8>| draws_halves::<A, B>(bytes, m, between, rest)
    }

    open spec fn may_fail() -> bool {
        A::may_fail() || B::may_fail()
    }

    fn arbitrary(u: &mut arbitrary::Unstructured<'_>) -> (r: Result<Self, arbitrary::Error>) {
        let ghost start = crate::outside::unread(*u);
        let a = A::arbitrary(u)?;
        let ghost between = crate::outside::unread(*u);
        let b = B::arbitrary(u)?;
        proof {
            let rest = crate::outside::unread(*u);
            assert(draws_halves::<A, B>(start, (a.model(), b.model()), between, rest));
            assert(Self::draws(start, (a.model(), b.model()), rest));
        }
        Ok((a, b))
    }

    fn same(&self, other: &Self) -> (b: bool) {
        self.0.same(&other.0) && self.1.same(&other.1)
    }

    fn copy(&self) -> (c: Self) {
        (self.0.copy(), self.1.copy())
    }

    fn render(&self) -> (text: String) {
        let mut text = String::from_str("(");
        text.append(self.0.render().as_str());
        text.append(", ");
        text.append(self.1.render().as_str());
        text.append(")");
        text
    }
}

impl<T: Target> Target for Option<T> {
    type Model = Option<T::Model>;

    open spec fn model(&self) -> Option<T::Model> {
        match self {
            Some(v) => Some(v.model()),
            None => None,
        }
    }

    open spec fn rendering(m: Option<T::Model>) -> Seq<char> {
        match m {
            Some(v) => "Some("@ + T::rendering(v) + ")"@,
            None => "None"@,
        }
    }

    /// The next byte decides whether there is a value; if there is, it is
    /// drawn from what follows.
    open spec fn draws(bytes: Seq<u8>, m: Option<T::Model>, rest: Seq<u8>) -> bool {
        if next_flag(bytes) {
            m matches Some(v) && T::draws(crate::outside::left(bytes, 1), v, rest)
        } else {
            m is None && rest == crate::outside::left(bytes, 1)
        }
    }

    open spec fn may_fail() -> bool {
        T::may_fail()
    }

    fn arbitrary(u: &mut arbitrary::Unstructured<'_>) -> (r: Result<Self, arbitrary::Error>)
        ensures
            !next_flag(crate::outside::unread(*old(u))) ==> r == Ok::<Self, arbitrary::Error>(None),
    {
        let present = bool::arbitrary(u)?;
        if present {
            let v = T::arbitrary(u)?;
            Ok(Some(v))
        } else {
            Ok(None)
        }
    }

    fn same(&self, other: &Self) -> (b: bool) {
        match (self, other) {
            (Some(a), Some(b)) => a.same(b),
            (None, None) => true,
            _ => false,
        }
    }

    fn copy(&self) -> (c: Self) {
        match self {
            Some(v) => Some(v.copy()),
            None => None,
        }
    }

    fn render(&self) -> (text: String) {
        match self {
            Some(v) => {
                let mut text = String::from_str("Some(");
                text.append(v.render().as_str());
                text.append(")");
                text
            },
            None => String::from_str("None"),
        }
    }
}

/// The models of the items of a sequence, in order.
pub open spec fn models<T: Target>(items: Seq<T>) -> Seq<T::Model> {
    Seq::new(items.len(), |i: int| items[i].model())
}

/// The renderings of the models `items`, in order.
pub open spec fn renderings<T: Target>(items: Seq<T::Model>) -> Seq<Seq<char>> {
    Seq::new(items.len(), |i: int| T::rendering(items[i]))
}

/// The text that stands for a sequence of values in failure messages: the
/// renderings of its items between square brackets, with a comma and a space
/// between neighbours.
pub open spec fn list_rendering<T: Target>(items: Seq<T::Model>) -> Seq<char> {
    "["@ + crate::check::joined(renderings::<T>(items), ", "@) + "]"@
}

/// The text that stands for the values of `items` in failure messages.
pub fn render_list<T: Target>(items: &[T]) -> (text: String)
    ensures
        text@ == list_rendering::<T>(models(items@)),
{
    let mut parts: Vec<String> = Vec::new();
    let mut i: usize = 0;
    while i < items.len()
        invariant
            i <= items.len(),
            parts@.len() == i,
            forall|j: int| 0 <= j < i ==> parts@[j]@ == T::rendering(items@[j].model()),
        decreases items.len() - i,
    {
        parts.push(items[i].render());
        i += 1;
    }
    proof {
        assert(crate::check::texts(parts@) =~= renderings::<T>(models(items@)));
    }
    let mut text = String::from_str("[");
    text.append(crate::check::join(&parts, ", ").as_str());
    text.append("]");
    text
}

/// Whether the items `items` may be drawn one after the other from a cursor
/// that holds `bytes`, `cuts` being what the cursor holds before each item and
/// after the last: before every item the next byte says that one more
/// follows, and the item is drawn from what follows that byte.
pub open spec fn draws_run<T: Target>(bytes: Seq<u8>, items: Seq<T::Model>, cuts: Seq<Seq<u8>>) -> bool {
    &&& cuts.len() == items.len() + 1
    &&& cuts[0] == bytes
    &&& forall|i: int|
        0 <= i < items.len() ==> next_flag(#[trigger] cuts[i]) && T::draws(
            crate::outside::left(cuts[i], 1),
            items[i],
            cuts[i + 1],
        )
}

/// Whether the items `items` may be drawn along `cuts`, and the byte after
/// the last item says that no more follows and leaves `rest`.
pub open spec fn draws_all<T: Target>(
    bytes: Seq<u8>,
    items: Seq<T::Model>,
    cuts: Seq<Seq<u8>>,
    rest: Seq<u8>,
) -> bool {
    &&& draws_run::<T>(bytes, items, cuts)
    &&& !next_flag(cuts.last())
    &&& rest == crate::outside::left(cuts.last(), 1)
}

impl<T: Target> Target for Vec<T> {
    type Model = Seq<T::Model>;

    open spec fn model(&self) -> Seq<T::Model> {
        models(self@)
    }

    open spec fn rendering(m: Seq<T::Model>) -> Seq<char> {
        list_rendering::<T>(m)
    }

    /// Before every item the next byte says that one more follows, and a
    /// byte that says no ends the sequence.
    open spec fn draws(bytes: Seq<u8>, m: Seq<T::Model>, rest: Seq<u8>) -> bool {
        exists|cuts: Seq<Seq<u8>>| draws_all::<T>(bytes, m, cuts, rest)
    }

    open spec fn may_fail() -> bool {
        T::may_fail()
    }

    fn arbitrary(u: &mut arbitrary::Unstructured<'_>) -> (r: Result<Self, arbitrary::Error>)
        ensures
            !next_flag(crate::outside::unread(*old(u))) ==> (r matches Ok(items) && items@.len()
                == 0),
    {
        let ghost start = crate::outside::unread(*u);
        let ghost mut cuts = seq![start];
        let mut items: Vec<T> = Vec::new();
        loop
            invariant_except_break
                cuts.last() == crate::outside::unread(*u),
            invariant
                start == crate::outside::unread(*old(u)),
                crate::outside::unread(*u).len() <= start.len(),
                draws_run::<T>(start, models(items@), cuts),
            ensures
                draws_all::<T>(start, models(items@), cuts, crate::outside::unread(*u)),
            decreases crate::outside::unread(*u).len(),
        {
            let ghost here = crate::outside::unread(*u);
            let ghost had = models(items@);
            let more = bool::arbitrary(u)?;
            if !more {
                break ;
            }
            let item = T::arbitrary(u)?;
            proof {
                let rest = crate::outside::unread(*u);
                let now = had.push(item.model());
                let longer = cuts.push(rest);
                assert(models(items@.push(item)) =~= now);
                assert forall|i: int| 0 <= i < now.len() implies next_flag(#[trigger] longer[i])
                    && T::draws(crate::outside::left(longer[i], 1), now[i], longer[i + 1]) by {
                    if i < had.len() {
                        assert(longer[i] == cuts[i]);
                        assert(longer[i + 1] == cuts[i + 1]);
                    } else {
                        assert(longer[i] == here);
                        assert(longer[i + 1] == rest);
                    }
                }
                cuts = longer;
            }
            items.push(item);
        }
        proof {
            assert(Self::draws(start, models(items@), crate::outside::unread(*u)));
        }
        Ok(items)
    }

    fn same(&self, other: &Self) -> (b: bool) {
        if self.len() != other.len() {
            assert(self.model().len() != other.model().len());
            return false;
        }
        let mut i: usize = 0;
        while i < self.len()
            invariant
                i <= self.len(),
                self.len() == other.len(),
                forall|j: int| 0 <= j < i ==> self@[j].model() == other@[j].model(),
            decreases self.len() - i,
        {
            if !self[i].same(&other[i]) {
                assert(self.model()[i as int] != other.model()[i as int]);
                return false;
            }
            i += 1;
        }
        assert(self.model() =~= other.model());
        true
    }

    fn copy(&self) -> (c: Self) {
        let mut out: Vec<T> = Vec::new();
        let mut i: usize = 0;
        while i < self.len()
            invariant
                i <= self.len(),
                out@.len() == i,
                forall|j: int| 0 <= j < i ==> out@[j].model() == self@[j].model(),
            decreases self.len() - i,
        {
            out.push(self[i].copy());
            i += 1;
        }
        assert(out.model() =~= self.model());
        out
    }

    fn render(&self) -> (text: String) {
        render_list(self.as_slice())
    }
}

} // verus!
