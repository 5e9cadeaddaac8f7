//! What the library takes from other crates and believes without proof: the
//! entropy cursor of `arbitrary`, two operations of `num`, the coin of `rand`,
//! and the debug rendering of strings of `std`. Every function here is a thin
//! wrapper round one outside function, with a contract that states what the
//! source or the documentation of that function shows.

use vstd::prelude::*;

verus! {

/// `arbitrary::Unstructured`, a cursor over a buffer of entropy. The verifier
/// sees nothing inside it; [`unread`] names what it holds.
#[verifier::external_type_specification]
#[verifier::external_body]
pub struct ExUnstructured<'a>(arbitrary::Unstructured<'a>);

/// `arbitrary::Error`, the error of the value source. The verifier sees
/// nothing inside it; [`error_text`] names its description.
#[verifier::external_type_specification]
#[verifier::external_body]
pub struct ExArbitraryError(arbitrary::Error);

/// The bytes that a cursor has not handed out yet, in the order in which it
/// will hand them out.
pub uninterp spec fn unread(u: arbitrary::Unstructured<'_>) -> Seq<u8>;

/// The text with which an error of the value source describes itself.
pub uninterp spec fn error_text(e: arbitrary::Error) -> Seq<char>;

/// `Unstructured::new`: a cursor that has all of `bytes` still to hand out.
#[verifier::external_body]
pub(crate) fn cursor_over<'a>(bytes: &'a [u8]) -> (u: arbitrary::Unstructured<'a>)
    ensures
        unread(u) == bytes@,
{
    arbitrary::Unstructured::new(bytes)
}

/// `Unstructured::len`: the number of bytes not handed out yet.
#[verifier::external_body]
pub(crate) fn cursor_len(u: &arbitrary::Unstructured<'_>) -> (n: usize)
    ensures
        n == unread(*u).len(),
{
    u.len()
}

/// What `n` bytes drawn from a cursor with `bytes` still unread hold: the
/// first `n` of them, followed by zeros where there are fewer.
pub open spec fn drawn(bytes: Seq<u8>, n: nat) -> Seq<u8> {
    Seq::new(n, |i: int| if i < bytes.len() { bytes[i] } else { 0u8 })
}

/// What is left of `bytes` once `n` bytes were drawn.
pub open spec fn left(bytes: Seq<u8>, n: nat) -> Seq<u8> {
    if n <= bytes.len() {
        bytes.skip(n as int)
    } else {
        Seq::<u8>::empty()
    }
}

/// `Unstructured::fill_buffer` on a fresh buffer of `n` bytes: the next `n`
/// unread bytes, padded with zeros where the cursor runs dry. The cursor moves
/// past the bytes it gave.
#[verifier::external_body]
pub(crate) fn cursor_fill(u: &mut arbitrary::Unstructured<'_>, n: usize) -> (out: Vec<u8>)
    ensures
        out@ == drawn(unread(*old(u)), n as nat),
        unread(*final(u)) == left(unread(*old(u)), n as nat),
{
    let mut buf = vec![0u8; n];
    let _ = u.fill_buffer(&mut buf);
    buf
}

/// `Unstructured::choose_index`: an index below `len`, or an error exactly
/// where `len` is zero. The cursor is left with no more bytes than it had.
#[verifier::external_body]
pub(crate) fn cursor_index(u: &mut arbitrary::Unstructured<'_>, len: usize) -> (r: Result<usize, arbitrary::Error>)
    ensures
        r is Ok <==> len > 0,
        r matches Ok(i) ==> i < len,
        unread(*final(u)).len() <= unread(*old(u)).len(),
{
    u.choose_index(len)
}

/// `Unstructured::int_in_range` on 128-bit integers: always a value, which
/// lies between `lo` and `hi`, both bounds counted in. The cursor is left with
/// no more bytes than it had. The outside function panics on a reversed
/// range, which is kept out.
#[verifier::external_body]
pub(crate) fn cursor_int(u: &mut arbitrary::Unstructured<'_>, lo: i128, hi: i128) -> (r: Result<i128, arbitrary::Error>)
    requires
        lo <= hi,
    ensures
        r is Ok,
        r matches Ok(x) ==> lo <= x,
        r matches Ok(x) ==> x <= hi,
        unread(*final(u)).len() <= unread(*old(u)).len(),
{
    u.int_in_range(lo..=hi)
}

/// The string that `<String as Arbitrary>::arbitrary` makes of a cursor that
/// holds `bytes`: it depends on the bytes alone.
pub uninterp spec fn drawn_string(bytes: Seq<u8>) -> Seq<char>;

/// `<String as Arbitrary>::arbitrary`: always a string, which the unread bytes
/// decide. The outside function reads a length from the end of the buffer and
/// the text from its start, and never fails: the length it reads is at most
/// the number of bytes that are left, and bytes that are no text end the
/// string instead of being an error. The cursor is left with no more bytes
/// than it had.
#[verifier::external_body]
pub(crate) fn cursor_string(u: &mut arbitrary::Unstructured<'_>) -> (r: Result<String, arbitrary::Error>)
    ensures
        r is Ok,
        r matches Ok(text) ==> text@ == drawn_string(unread(*old(u))),
        unread(*final(u)).len() <= unread(*old(u)).len(),
{
    u.arbitrary::<String>()
}

/// `<arbitrary::Error as ToString>::to_string`: the error's own description.
#[verifier::external_body]
pub(crate) fn describe(e: &arbitrary::Error) -> (text: String)
    ensures
        text@ == error_text(*e),
{
    e.to_string()
}

/// `num::CheckedAdd::checked_add` on 128-bit integers: the sum, or nothing
/// where the sum does not fit.
#[verifier::external_body]
pub(crate) fn checked_add_wide(a: i128, b: i128) -> (r: Option<i128>)
    ensures
        r == (if i128::MIN <= a + b <= i128::MAX {
            Some((a + b) as i128)
        } else {
            None
        }),
{
    num::CheckedAdd::checked_add(&a, &b)
}

/// `num::traits::Euclid::rem_euclid` on 128-bit integers, for a positive
/// modulus: the least remainder that is not negative. The outside function
/// panics on a modulus of zero, which is kept out.
#[verifier::external_body]
pub(crate) fn rem_euclid_wide(a: i128, m: i128) -> (r: i128)
    requires
        m > 0,
    ensures
        r == a % m,
{
    num::traits::Euclid::rem_euclid(&a, &m)
}

/// `rand::Rng::gen::<bool>` on the generator of the thread: a coin flip.
/// Nothing is claimed of how it falls.
#[verifier::external_body]
pub(crate) fn coin() -> bool {
    rand::Rng::gen::<bool>(&mut rand::thread_rng())
}

/// The text that `{:?}` gives for a string: the string between double quotes,
/// with the characters that need it written as escapes.
pub uninterp spec fn quoted(text: Seq<char>) -> Seq<char>;

/// `format!("{:?}", text)`: the debug rendering of a string.
#[verifier::external_body]
pub(crate) fn debug_text(text: &str) -> (out: String)
    ensures
        out@ == quoted(text@),
{
    format!("{:?}", text)
}

} // verus!
