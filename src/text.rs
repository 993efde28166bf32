//! Decoding of the fixed-size executable-name buffers that the OS fills in,
//! and the substring test used by the name filter.
use vstd::prelude::*;

verus! {

/// Index of the first `nul` in `b` at or after `i`, or `b.len()` when there is none.
pub open spec fn nul_from<T>(b: Seq<T>, nul: T, i: int) -> int
    decreases b.len() - i,
{
    if i < 0 || i >= b.len() {
        b.len() as int
    } else if b[i] == nul {
        i
    } else {
        nul_from(b, nul, i + 1)
    }
}

/// The part of `b` before its first `nul`, or all of `b` when it holds none.
pub open spec fn before_nul<T>(b: Seq<T>, nul: T) -> Seq<T> {
    b.take(nul_from(b, nul, 0))
}

/// `needle` occurs in `hay` as a contiguous run.
pub open spec fn contains_seq(hay: Seq<char>, needle: Seq<char>) -> bool {
    exists|i: int|
        0 <= i <= hay.len() - needle.len() && #[trigger] hay.subrange(i, i + needle.len()) == needle
}

/// The text that lossy UTF-8 decoding gives for `bytes`.
pub uninterp spec fn utf8_lossy(bytes: Seq<u8>) -> Seq<char>;

/// The text that lossy UTF-16 decoding gives for `units`.
pub uninterp spec fn utf16_lossy(units: Seq<u16>) -> Seq<char>;

/// The name held in a narrow executable-name buffer.
pub open spec fn narrow_name(buf: Seq<u8>) -> Seq<char> {
    utf8_lossy(before_nul(buf, 0u8))
}

/// The name held in a wide executable-name buffer.
pub open spec fn wide_name(buf: Seq<u16>) -> Seq<char> {
    utf16_lossy(before_nul(buf, 0u16))
}

/// Relies on `String::from_utf8_lossy`: the text depends on the bytes alone,
/// and no bytes give no text.
#[verifier::external_body]
fn decode_utf8_lossy(bytes: &[u8]) -> (r: String)
    ensures
        r@ == utf8_lossy(bytes@),
        bytes@.len() == 0 ==> r@.len() == 0,
{
    String::from_utf8_lossy(bytes).into_owned()
}

/// Relies on `String::from_utf16_lossy`: the text depends on the code units
/// alone, and no units give no text.
#[verifier::external_body]
pub(crate) fn decode_utf16_lossy(units: &[u16]) -> (r: String)
    ensures
        r@ == utf16_lossy(units@),
        units@.len() == 0 ==> r@.len() == 0,
{
    String::from_utf16_lossy(units)
}

/// Relies on `str::contains` with a `&str` pattern: true exactly when the
/// pattern occurs in the string as a contiguous run of characters.
#[verifier::external_body]
pub(crate) fn str_contains(hay: &str, needle: &str) -> (r: bool)
    ensures
        r == contains_seq(hay@, needle@),
{
    hay.contains(needle)
}

/// Decodes a narrow executable-name buffer: the bytes up to the first nul,
/// read as UTF-8 with invalid sequences replaced.
pub fn decode_narrow_name(buf: &[u8]) -> (r: String)
    ensures
        r@ == narrow_name(buf@),
{
    let mut i: usize = 0;
    while i < buf.len() && buf[i] != 0u8
        invariant
            0 <= i <= buf@.len(),
            nul_from(buf@, 0u8, 0) == nul_from(buf@, 0u8, i as int),
        decreases buf@.len() - i,
    {
        i = i + 1;
    }
    let mut head: Vec<u8> = Vec::new();
    let mut k: usize = 0;
    while k < i
        invariant
            0 <= k <= i <= buf@.len(),
            head@ == buf@.take(k as int),
        decreases i - k,
    {
        head.push(buf[k]);
        k = k + 1;
        assert(head@ =~= buf@.take(k as int));
    }
    decode_utf8_lossy(head.as_slice())
}

} // verus!
