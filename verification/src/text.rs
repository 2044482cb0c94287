//! Text helpers: building strings, decimal numbers, path joining, and the
//! standard library's text conversions that the library relies on.
use vstd::prelude::*;
use vstd::utf8::{decode_utf8, valid_utf8};

verus! {

/// Appends one character to a string.
///
/// Trusted: wraps `String::push`, which the standard library documents as
/// appending the given char to the end of the string.
#[verifier::external_body]
pub(crate) fn push_char(s: &mut String, c: char)
    ensures
        final(s)@ == old(s)@.push(c),
{
    s.push(c);
}

/// The text that `String::from_utf8_lossy` makes of some bytes.
pub uninterp spec fn utf8_lossy_text(bytes: Seq<u8>) -> Seq<char>;

/// Decodes bytes as UTF-8, replacing invalid sequences.
///
/// Trusted: wraps `String::from_utf8_lossy`. Its result is named by
/// [`utf8_lossy_text`]; the standard library documents that valid UTF-8 is
/// returned unchanged, which the second clause states. How invalid sequences
/// are replaced is left unsaid.
#[verifier::external_body]
pub(crate) fn utf8_lossy(bytes: &[u8]) -> (text: String)
    ensures
        text@ == utf8_lossy_text(bytes@),
        valid_utf8(bytes@) ==> text@ == decode_utf8(bytes@),
{
    String::from_utf8_lossy(bytes).into_owned()
}

/// The character of a decimal digit.
pub open spec fn digit_char(d: nat) -> char {
    ((48 + d) as u8) as char
}

/// The decimal digits of a natural number, most significant first.
pub open spec fn digits_of(n: nat) -> Seq<char>
    decreases n,
{
    if n < 10 {
        seq![digit_char(n)]
    } else {
        digits_of(n / 10).push(digit_char(n % 10))
    }
}

/// The decimal representation of an integer, as `to_string` writes it.
pub open spec fn decimal_text(v: int) -> Seq<char> {
    if v < 0 {
        seq!['-'] + digits_of((-v) as nat)
    } else {
        digits_of(v as nat)
    }
}

fn push_digits(s: &mut String, n: u64)
    ensures
        final(s)@ == old(s)@ + digits_of(n as nat),
    decreases n,
{
    if n >= 10 {
        push_digits(s, n / 10);
    }
    let d: u8 = (n % 10) as u8;
    let c: char = (48u8 + d) as char;
    push_char(s, c);
    assert(final(s)@ =~= old(s)@ + digits_of(n as nat));
}

/// The decimal representation of a large natural number.
pub fn decimal_unsigned(v: u128) -> (text: String)
    ensures
        text@ == digits_of(v as nat),
{
    let mut s = String::new();
    push_digits_wide(&mut s, v);
    s
}

fn push_digits_wide(s: &mut String, n: u128)
    ensures
        final(s)@ == old(s)@ + digits_of(n as nat),
    decreases n,
{
    if n >= 10 {
        push_digits_wide(s, n / 10);
    }
    let d: u8 = (n % 10) as u8;
    let c: char = (48u8 + d) as char;
    push_char(s, c);
    assert(final(s)@ =~= old(s)@ + digits_of(n as nat));
}

/// Appends bytes to a buffer.
pub fn append_bytes(out: &mut Vec<u8>, bytes: &[u8])
    ensures
        final(out)@ == old(out)@ + bytes@,
{
    let mut i: usize = 0;
    while i < bytes.len()
        invariant
            i <= bytes@.len(),
            out@ == old(out)@ + bytes@.take(i as int),
        decreases bytes@.len() - i,
    {
        out.push(bytes[i]);
        i = i + 1;
        assert(out@ =~= old(out)@ + bytes@.take(i as int));
    }
    assert(bytes@.take(bytes@.len() as int) =~= bytes@);
}

/// The decimal representation of an integer.
pub fn decimal(v: i64) -> (text: String)
    ensures
        text@ == decimal_text(v as int),
{
    let mut s = String::new();
    if v < 0 {
        push_char(&mut s, '-');
        let magnitude: u64 = (0i128 - v as i128) as u64;
        push_digits(&mut s, magnitude);
    } else {
        push_digits(&mut s, v as u64);
    }
    s
}

/// Whether two strings hold the same characters.
pub fn same_text(a: &str, b: &str) -> (same: bool)
    ensures
        same == (a@ == b@),
{
    let n = a.unicode_len();
    if n != b.unicode_len() {
        return false;
    }
    let mut i: usize = 0;
    while i < n
        invariant
            n == a@.len(),
            n == b@.len(),
            i <= n,
            forall|k: int| 0 <= k < i ==> a@[k] == b@[k],
        decreases n - i,
    {
        if a.get_char(i) != b.get_char(i) {
            return false;
        }
        i = i + 1;
    }
    assert(a@ =~= b@);
    true
}

/// How a path is extended by another one: an absolute path replaces it;
/// otherwise the two are joined with one separator, unless the first one is
/// empty or already ends with a separator.
pub open spec fn joined_path(base: Seq<char>, suffix: Seq<char>) -> Seq<char> {
    if suffix.len() > 0 && suffix[0] == '/' {
        suffix
    } else if base.len() > 0 && base.last() != '/' {
        base + seq!['/'] + suffix
    } else {
        base + suffix
    }
}

/// Extends the path `base` with `suffix`, as `Path::join` does on Unix.
pub fn joined(base: &str, suffix: &str) -> (path: String)
    ensures
        path@ == joined_path(base@, suffix@),
{
    let suffix_len = suffix.unicode_len();
    if suffix_len > 0 && suffix.get_char(0) == '/' {
        return suffix.to_owned();
    }
    let base_len = base.unicode_len();
    let mut path = base.to_owned();
    if base_len > 0 && base.get_char(base_len - 1) != '/' {
        push_char(&mut path, '/');
    }
    path.append(suffix);
    path
}

} // verus!
