//! The integer types that facts can constrain: how they are drawn from
//! entropy, how they are rendered, and how they convert to and from the
//! 128-bit integers in which the arithmetic of the library is done.

use vstd::prelude::*;
use crate::outside::cursor_fill;
use crate::target::Target;

verus! {

/// An integer type of at most 64 bits. Its model is the integer itself, and
/// its values convert to and from 128-bit integers without loss.
pub trait Int: Target<Model = int> + Copy {
    /// The least value of the type.
    spec fn lowest() -> int;

    /// The greatest value of the type.
    spec fn highest() -> int;

    /// The bounds are those of a type that 128 bits hold with room to spare.
    proof fn bounds()
        ensures
            -0x8000_0000_0000_0000 <= Self::lowest() <= 0,
            0 < Self::highest() <= 0xffff_ffff_ffff_ffff,
    ;

    /// The least value of the type.
    fn least() -> (x: Self)
        ensures
            x.model() == Self::lowest(),
    ;

    /// The greatest value of the type.
    fn greatest() -> (x: Self)
        ensures
            x.model() == Self::highest(),
    ;

    /// The same number in 128 bits.
    fn widen(self) -> (w: i128)
        ensures
            w == self.model(),
            Self::lowest() <= w <= Self::highest(),
    ;

    /// The number `w` in this type.
    fn narrow(w: i128) -> (x: Self)
        requires
            Self::lowest() <= w <= Self::highest(),
        ensures
            x.model() == w,
    ;
}

/// The decimal digit `d`.
pub open spec fn digit(d: int) -> Seq<char> {
    if d == 0 {
        "0"@
    } else if d == 1 {
        "1"@
    } else if d == 2 {
        "2"@
    } else if d == 3 {
        "3"@
    } else if d == 4 {
        "4"@
    } else if d == 5 {
        "5"@
    } else if d == 6 {
        "6"@
    } else if d == 7 {
        "7"@
    } else if d == 8 {
        "8"@
    } else {
        "9"@
    }
}

/// The decimal digits of a natural number, most significant first.
pub open spec fn digits(n: nat) -> Seq<char>
    decreases n,
{
    if n < 10 {
        digit(n as int)
    } else {
        digits(n / 10) + digit((n % 10) as int)
    }
}

/// The decimal rendering of an integer, with a minus sign where it is
/// negative.
pub open spec fn decimal(n: int) -> Seq<char> {
    if n < 0 {
        "-"@ + digits((-n) as nat)
    } else {
        digits(n as nat)
    }
}

fn digit_text(d: u128) -> (text: &'static str)
    requires
        d < 10,
    ensures
        text@ == digit(d as int),
{
    if d == 0 {
        "0"
    } else if d == 1 {
        "1"
    } else if d == 2 {
        "2"
    } else if d == 3 {
        "3"
    } else if d == 4 {
        "4"
    } else if d == 5 {
        "5"
    } else if d == 6 {
        "6"
    } else if d == 7 {
        "7"
    } else if d == 8 {
        "8"
    } else {
        "9"
    }
}

fn digits_text(n: u128) -> (text: String)
    ensures
        text@ == digits(n as nat),
    decreases n,
{
    if n < 10 {
        String::from_str(digit_text(n))
    } else {
        let mut text = digits_text(n / 10);
        text.append(digit_text(n % 10));
        text
    }
}

/// The decimal rendering of `n`.
pub fn decimal_text(n: i128) -> (text: String)
    ensures
        text@ == decimal(n as int),
{
    if n < 0 {
        let magnitude: u128 = if n == i128::MIN {
            0x8000_0000_0000_0000_0000_0000_0000_0000u128
        } else {
            (-n) as u128
        };
        let mut text = String::from_str("-");
        text.append(digits_text(magnitude).as_str());
        text
    } else {
        digits_text(n as u128)
    }
}

/// The number that `bytes` spell, least significant byte first.
pub open spec fn little_endian(bytes: Seq<u8>) -> nat
    decreases bytes.len(),
{
    if bytes.len() == 0 {
        0
    } else {
        (bytes[0] as nat) + 256 * little_endian(bytes.drop_first())
    }
}

/// `256` to the power `n`.
pub open spec fn byte_range(n: nat) -> nat
    decreases n,
{
    if n == 0 {
        1
    } else {
        256 * byte_range((n - 1) as nat)
    }
}

/// A number spelt by `n` bytes lies below `256` to the power `n`.
pub proof fn little_endian_bound(bytes: Seq<u8>)
    ensures
        little_endian(bytes) < byte_range(bytes.len()),
    decreases bytes.len(),
{
    if bytes.len() > 0 {
        little_endian_bound(bytes.drop_first());
    }
}

/// The number that the next `n` bytes of a cursor with `bytes` unread spell,
/// least significant byte first.
pub open spec fn next_number(bytes: Seq<u8>, n: nat) -> int {
    little_endian(crate::outside::drawn(bytes, n)) as int
}

/// The number that the next `n` bytes spell where the highest bit is a sign:
/// two's complement.
pub open spec fn next_signed(bytes: Seq<u8>, n: nat) -> int {
    let raw = next_number(bytes, n);
    if 2 * raw < byte_range(n) {
        raw
    } else {
        raw - byte_range(n)
    }
}

/// The next `n` bytes of the cursor, read as one number, least significant
/// byte first. Where the cursor runs dry the missing bytes count as zero.
pub fn draw_number(u: &mut arbitrary::Unstructured<'_>, n: usize) -> (v: u64)
    requires
        n <= 8,
    ensures
        v == little_endian(crate::outside::drawn(crate::outside::unread(*old(u)), n as nat)),
        v < byte_range(n as nat),
        crate::outside::unread(*final(u)) == crate::outside::left(
            crate::outside::unread(*old(u)),
            n as nat,
        ),
        crate::outside::unread(*final(u)).len() <= crate::outside::unread(*old(u)).len(),
{
    let bytes = cursor_fill(u, n);
    let mut v: u64 = 0;
    let mut i: usize = n;
    proof {
        assert(bytes@.skip(n as int) =~= Seq::<u8>::empty());
        reveal_with_fuel(byte_range, 9);
    }
    while i > 0
        invariant
            i <= n <= 8,
            bytes@.len() == n,
            v == little_endian(bytes@.skip(i as int)),
            v < byte_range((n - i) as nat),
        decreases i,
    {
        i -= 1;
        proof {
            reveal_with_fuel(byte_range, 9);
            assert(bytes@.skip(i as int).drop_first() =~= bytes@.skip(i + 1));
            little_endian_bound(bytes@.skip(i + 1));
        }
        v = (bytes[i] as u64) + 256 * v;
    }
    proof {
        assert(bytes@.skip(0) =~= bytes@);
    }
    v
}

impl Target for u8 {
    type Model = int;

    open spec fn model(&self) -> int {
        *self as int
    }

    open spec fn rendering(m: int) -> Seq<char> {
        decimal(m)
    }

    /// The next 1 byte spell the number, and are used up.
    open spec fn draws(bytes: Seq<u8>, m: int, rest: Seq<u8>) -> bool {
        m == next_number(bytes, 1) && rest == crate::outside::left(bytes, 1)
    }

    open spec fn may_fail() -> bool {
        false
    }

    fn arbitrary(u: &mut arbitrary::Unstructured<'_>) -> (r: Result<Self, arbitrary::Error>)
        ensures
            r matches Ok(x) && x.model() == next_number(crate::outside::unread(*old(u)), 1),
            crate::outside::unread(*final(u)) == crate::outside::left(
                crate::outside::unread(*old(u)),
                1,
            ),
    {
        proof {
            reveal_with_fuel(byte_range, 9);
        }
        let v = draw_number(u, 1);
        Ok(v as u8)
    }

    fn same(&self, other: &Self) -> (b: bool) {
        *self == *other
    }

    fn copy(&self) -> (c: Self) {
        *self
    }

    fn render(&self) -> (text: String) {
        decimal_text(*self as i128)
    }
}

impl Int for u8 {
    open spec fn lowest() -> int {
        0
    }

    open spec fn highest() -> int {
        0xff
    }

    proof fn bounds() {
    }

    fn least() -> (x: Self) {
        u8::MIN
    }

    fn greatest() -> (x: Self) {
        u8::MAX
    }

    fn widen(self) -> (w: i128) {
        self as i128
    }

    fn narrow(w: i128) -> (x: Self) {
        w as u8
    }
}

impl Target for u16 {
    type Model = int;

    open spec fn model(&self) -> int {
        *self as int
    }

    open spec fn rendering(m: int) -> Seq<char> {
        decimal(m)
    }

    /// The next 2 bytes spell the number, and are used up.
    open spec fn draws(bytes: Seq<u8>, m: int, rest: Seq<u8>) -> bool {
        m == next_number(bytes, 2) && rest == crate::outside::left(bytes, 2)
    }

    open spec fn may_fail() -> bool {
        false
    }

    fn arbitrary(u: &mut arbitrary::Unstructured<'_>) -> (r: Result<Self, arbitrary::Error>)
        ensures
            r matches Ok(x) && x.model() == next_number(crate::outside::unread(*old(u)), 2),
            crate::outside::unread(*final(u)) == crate::outside::left(
                crate::outside::unread(*old(u)),
                2,
            ),
    {
        proof {
            reveal_with_fuel(byte_range, 9);
        }
        let v = draw_number(u, 2);
        Ok(v as u16)
    }

    fn same(&self, other: &Self) -> (b: bool) {
        *self == *other
    }

    fn copy(&self) -> (c: Self) {
        *self
    }

    fn render(&self) -> (text: String) {
        decimal_text(*self as i128)
    }
}

impl Int for u16 {
    open spec fn lowest() -> int {
        0
    }

    open spec fn highest() -> int {
        0xffff
    }

    proof fn bounds() {
    }

    fn least() -> (x: Self) {
        u16::MIN
    }

    fn greatest() -> (x: Self) {
        u16::MAX
    }

    fn widen(self) -> (w: i128) {
        self as i128
    }

    fn narrow(w: i128) -> (x: Self) {
        w as u16
    }
}

impl Target for u32 {
    type Model = int;

    open spec fn model(&self) -> int {
        *self as int
    }

    open spec fn rendering(m: int) -> Seq<char> {
        decimal(m)
    }

    /// The next 4 bytes spell the number, and are used up.
    open spec fn draws(bytes: Seq<u8>, m: int, rest: Seq<u8>) -> bool {
        m == next_number(bytes, 4) && rest == crate::outside::left(bytes, 4)
    }

    open spec fn may_fail() -> bool {
        false
    }

    fn arbitrary(u: &mut arbitrary::Unstructured<'_>) -> (r: Result<Self, arbitrary::Error>)
        ensures
            r matches Ok(x) && x.model() == next_number(crate::outside::unread(*old(u)), 4),
            crate::outside::unread(*final(u)) == crate::outside::left(
                crate::outside::unread(*old(u)),
                4,
            ),
    {
        proof {
            reveal_with_fuel(byte_range, 9);
        }
        let v = draw_number(u, 4);
        Ok(v as u32)
    }

    fn same(&self, other: &Self) -> (b: bool) {
        *self == *other
    }

    fn copy(&self) -> (c: Self) {
        *self
    }

    fn render(&self) -> (text: String) {
        decimal_text(*self as i128)
    }
}

impl Int for u32 {
    open spec fn lowest() -> int {
        0
    }

    open spec fn highest() -> int {
        0xffff_ffff
    }

    proof fn bounds() {
    }

    fn least() -> (x: Self) {
        u32::MIN
    }

    fn greatest() -> (x: Self) {
        u32::MAX
    }

    fn widen(self) -> (w: i128) {
        self as i128
    }

    fn narrow(w: i128) -> (x: Self) {
        w as u32
    }
}

impl Target for u64 {
    type Model = int;

    open spec fn model(&self) -> int {
        *self as int
    }

    open spec fn rendering(m: int) -> Seq<char> {
        decimal(m)
    }

    /// The next 8 bytes spell the number, and are used up.
    open spec fn draws(bytes: Seq<u8>, m: int, rest: Seq<u8>) -> bool {
        m == next_number(bytes, 8) && rest == crate::outside::left(bytes, 8)
    }

    open spec fn may_fail() -> bool {
        false
    }

    fn arbitrary(u: &mut arbitrary::Unstructured<'_>) -> (r: Result<Self, arbitrary::Error>)
        ensures
            r matches Ok(x) && x.model() == next_number(crate::outside::unread(*old(u)), 8),
            crate::outside::unread(*final(u)) == crate::outside::left(
                crate::outside::unread(*old(u)),
                8,
            ),
    {
        proof {
            reveal_with_fuel(byte_range, 9);
        }
        let v = draw_number(u, 8);
        Ok(v as u64)
    }

    fn same(&self, other: &Self) -> (b: bool) {
        *self == *other
    }

    fn copy(&self) -> (c: Self) {
        *self
    }

    fn render(&self) -> (text: String) {
        decimal_text(*self as i128)
    }
}

impl Int for u64 {
    open spec fn lowest() -> int {
        0
    }

    open spec fn highest() -> int {
        0xffff_ffff_ffff_ffff
    }

    proof fn bounds() {
    }

    fn least() -> (x: Self) {
        u64::MIN
    }

    fn greatest() -> (x: Self) {
        u64::MAX
    }

    fn widen(self) -> (w: i128) {
        self as i128
    }

    fn narrow(w: i128) -> (x: Self) {
        w as u64
    }
}

impl Target for usize {
    type Model = int;

    open spec fn model(&self) -> int {
        *self as int
    }

    open spec fn rendering(m: int) -> Seq<char> {
        decimal(m)
    }

    /// The next 8 bytes spell a number, of which the part that fits the type
    /// is kept; the bytes are used up.
    open spec fn draws(bytes: Seq<u8>, m: int, rest: Seq<u8>) -> bool {
        m == next_number(bytes, 8) % (usize::MAX + 1) && rest == crate::outside::left(bytes, 8)
    }

    open spec fn may_fail() -> bool {
        false
    }

    fn arbitrary(u: &mut arbitrary::Unstructured<'_>) -> (r: Result<Self, arbitrary::Error>)
        ensures
            r matches Ok(x) && x.model() == next_number(crate::outside::unread(*old(u)), 8) % (
            usize::MAX + 1),
            crate::outside::unread(*final(u)) == crate::outside::left(
                crate::outside::unread(*old(u)),
                8,
            ),
    {
        proof {
            reveal_with_fuel(byte_range, 9);
        }
        let v = draw_number(u, 8);
        if usize::BITS == 64 {
            Ok(v as usize)
        } else {
            Ok((v % 0x1_0000_0000) as usize)
        }
    }

    fn same(&self, other: &Self) -> (b: bool) {
        *self == *other
    }

    fn copy(&self) -> (c: Self) {
        *self
    }

    fn render(&self) -> (text: String) {
        decimal_text(*self as i128)
    }
}

impl Int for usize {
    open spec fn lowest() -> int {
        0
    }

    open spec fn highest() -> int {
        usize::MAX as int
    }

    proof fn bounds() {
    }

    fn least() -> (x: Self) {
        usize::MIN
    }

    fn greatest() -> (x: Self) {
        usize::MAX
    }

    fn widen(self) -> (w: i128) {
        self as i128
    }

    fn narrow(w: i128) -> (x: Self) {
        w as usize
    }
}

impl Target for i8 {
    type Model = int;

    open spec fn model(&self) -> int {
        *self as int
    }

    open spec fn rendering(m: int) -> Seq<char> {
        decimal(m)
    }

    /// The next 1 byte spell the number, and are used up.
    open spec fn draws(bytes: Seq<u8>, m: int, rest: Seq<u8>) -> bool {
        m == next_signed(bytes, 1) && rest == crate::outside::left(bytes, 1)
    }

    open spec fn may_fail() -> bool {
        false
    }

    fn arbitrary(u: &mut arbitrary::Unstructured<'_>) -> (r: Result<Self, arbitrary::Error>)
        ensures
            r matches Ok(x) && x.model() == next_signed(crate::outside::unread(*old(u)), 1),
            crate::outside::unread(*final(u)) == crate::outside::left(
                crate::outside::unread(*old(u)),
                1,
            ),
    {
        proof {
            reveal_with_fuel(byte_range, 9);
        }
        let v: i128 = draw_number(u, 1) as i128;
        if v < 0x80 {
            Ok(v as i8)
        } else {
            Ok((v - 0x100) as i8)
        }
    }

    fn same(&self, other: &Self) -> (b: bool) {
        *self == *other
    }

    fn copy(&self) -> (c: Self) {
        *self
    }

    fn render(&self) -> (text: String) {
        decimal_text(*self as i128)
    }
}

impl Int for i8 {
    open spec fn lowest() -> int {
        -0x80
    }

    open spec fn highest() -> int {
        0x80 - 1
    }

    proof fn bounds() {
    }

    fn least() -> (x: Self) {
        i8::MIN
    }

    fn greatest() -> (x: Self) {
        i8::MAX
    }

    fn widen(self) -> (w: i128) {
        self as i128
    }

    fn narrow(w: i128) -> (x: Self) {
        w as i8
    }
}

impl Target for i16 {
    type Model = int;

    open spec fn model(&self) -> int {
        *self as int
    }

    open spec fn rendering(m: int) -> Seq<char> {
        decimal(m)
    }

    /// The next 2 bytes spell the number, and are used up.
    open spec fn draws(bytes: Seq<u8>, m: int, rest: Seq<u8>) -> bool {
        m == next_signed(bytes, 2) && rest == crate::outside::left(bytes, 2)
    }

    open spec fn may_fail() -> bool {
        false
    }

    fn arbitrary(u: &mut arbitrary::Unstructured<'_>) -> (r: Result<Self, arbitrary::Error>)
        ensures
            r matches Ok(x) && x.model() == next_signed(crate::outside::unread(*old(u)), 2),
            crate::outside::unread(*final(u)) == crate::outside::left(
                crate::outside::unread(*old(u)),
                2,
            ),
    {
        proof {
            reveal_with_fuel(byte_range, 9);
        }
        let v: i128 = draw_number(u, 2) as i128;
        if v < 0x8000 {
            Ok(v as i16)
        } else {
            Ok((v - 0x1_0000) as i16)
        }
    }

    fn same(&self, other: &Self) -> (b: bool) {
        *self == *other
    }

    fn copy(&self) -> (c: Self) {
        *self
    }

    fn render(&self) -> (text: String) {
        decimal_text(*self as i128)
    }
}

impl Int for i16 {
    open spec fn lowest() -> int {
        -0x8000
    }

    open spec fn highest() -> int {
        0x8000 - 1
    }

    proof fn bounds() {
    }

    fn least() -> (x: Self) {
        i16::MIN
    }

    fn greatest() -> (x: Self) {
        i16::MAX
    }

    fn widen(self) -> (w: i128) {
        self as i128
    }

    fn narrow(w: i128) -> (x: Self) {
        w as i16
    }
}

impl Target for i32 {
    type Model = int;

    open spec fn model(&self) -> int {
        *self as int
    }

    open spec fn rendering(m: int) -> Seq<char> {
        decimal(m)
    }

    /// The next 4 bytes spell the number, and are used up.
    open spec fn draws(bytes: Seq<u8>, m: int, rest: Seq<u8>) -> bool {
        m == next_signed(bytes, 4) && rest == crate::outside::left(bytes, 4)
    }

    open spec fn may_fail() -> bool {
        false
    }

    fn arbitrary(u: &mut arbitrary::Unstructured<'_>) -> (r: Result<Self, arbitrary::Error>)
        ensures
            r matches Ok(x) && x.model() == next_signed(crate::outside::unread(*old(u)), 4),
            crate::outside::unread(*final(u)) == crate::outside::left(
                crate::outside::unread(*old(u)),
                4,
            ),
    {
        proof {
            reveal_with_fuel(byte_range, 9);
        }
        let v: i128 = draw_number(u, 4) as i128;
        if v < 0x8000_0000 {
            Ok(v as i32)
        } else {
            Ok((v - 0x1_0000_0000) as i32)
        }
    }

    fn same(&self, other: &Self) -> (b: bool) {
        *self == *other
    }

    fn copy(&self) -> (c: Self) {
        *self
    }

    fn render(&self) -> (text: String) {
        decimal_text(*self as i128)
    }
}

impl Int for i32 {
    open spec fn lowest() -> int {
        -0x8000_0000
    }

    open spec fn highest() -> int {
        0x8000_0000 - 1
    }

    proof fn bounds() {
    }

    fn least() -> (x: Self) {
        i32::MIN
    }

    fn greatest() -> (x: Self) {
        i32::MAX
    }

    fn widen(self) -> (w: i128) {
        self as i128
    }

    fn narrow(w: i128) -> (x: Self) {
        w as i32
    }
}

impl Target for i64 {
    type Model = int;

    open spec fn model(&self) -> int {
        *self as int
    }

    open spec fn rendering(m: int) -> Seq<char> {
        decimal(m)
    }

    /// The next 8 bytes spell the number, and are used up.
    open spec fn draws(bytes: Seq<u8>, m: int, rest: Seq<u8>) -> bool {
        m == next_signed(bytes, 8) && rest == crate::outside::left(bytes, 8)
    }

    open spec fn may_fail() -> bool {
        false
    }

    fn arbitrary(u: &mut arbitrary::Unstructured<'_>) -> (r: Result<Self, arbitrary::Error>)
        ensures
            r matches Ok(x) && x.model() == next_signed(crate::outside::unread(*old(u)), 8),
            crate::outside::unread(*final(u)) == crate::outside::left(
                crate::outside::unread(*old(u)),
                8,
            ),
    {
        proof {
            reveal_with_fuel(byte_range, 9);
        }
        let v: i128 = draw_number(u, 8) as i128;
        if v < 0x8000_0000_0000_0000 {
            Ok(v as i64)
        } else {
            Ok((v - 0x1_0000_0000_0000_0000) as i64)
        }
    }

    fn same(&self, other: &Self) -> (b: bool) {
        *self == *other
    }

    fn copy(&self) -> (c: Self) {
        *self
    }

    fn render(&self) -> (text: String) {
        decimal_text(*self as i128)
    }
}

impl Int for i64 {
    open spec fn lowest() -> int {
        -0x8000_0000_0000_0000
    }

    open spec fn highest() -> int {
        0x8000_0000_0000_0000 - 1
    }

    proof fn bounds() {
    }

    fn least() -> (x: Self) {
        i64::MIN
    }

    fn greatest() -> (x: Self) {
        i64::MAX
    }

    fn widen(self) -> (w: i128) {
        self as i128
    }

    fn narrow(w: i128) -> (x: Self) {
        w as i64
    }
}

} // verus!
