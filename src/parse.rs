//! Reading a guess out of one line of text.
use vstd::prelude::*;
use vstd::string::StrSliceExecFns;

verus! {

/// What `str::trim` returns: the text without its leading and trailing
/// Unicode white space.
pub uninterp spec fn trim_of(s: Seq<char>) -> Seq<char>;

/// Relies on `str::trim`: its result depends on the characters alone.
#[verifier::external_body]
fn trim_text<'a>(s: &'a str) -> (r: &'a str)
    ensures
        r@ == trim_of(s@),
{
    s.trim()
}

pub open spec fn is_digit(c: char) -> bool {
    '0' <= c && c <= '9'
}

pub open spec fn digit_value(c: char) -> int {
    (c as u32) - ('0' as u32)
}

/// The number that a sequence of decimal digits denotes, most significant first.
pub open spec fn digits_value(s: Seq<char>) -> int
    decreases s.len(),
{
    if s.len() == 0 {
        0
    } else {
        digits_value(s.drop_last()) * 10 + digit_value(s.last())
    }
}

/// Where the digits start: after an optional leading `+`.
pub open spec fn digits_start(s: Seq<char>) -> int {
    if s.len() > 0 && s[0] == '+' {
        1
    } else {
        0
    }
}

/// The text read as an unsigned 8-bit decimal number: an optional `+`, then
/// at least one digit and nothing else, denoting a value of at most 255.
pub open spec fn parse_u8_spec(s: Seq<char>) -> Option<u8> {
    let d = s.subrange(digits_start(s), s.len() as int);
    if d.len() > 0 && (forall|i: int| 0 <= i < d.len() ==> is_digit(#[trigger] d[i]))
        && digits_value(d) <= 255 {
        Some(digits_value(d) as u8)
    } else {
        None
    }
}

/// A guess line read as a number: surrounding white space is dropped first.
pub open spec fn guess_of_line(line: Seq<char>) -> Option<u8> {
    parse_u8_spec(trim_of(line))
}

proof fn lemma_digits_value_nonneg(s: Seq<char>)
    requires
        forall|i: int| 0 <= i < s.len() ==> is_digit(#[trigger] s[i]),
    ensures
        digits_value(s) >= 0,
    decreases s.len(),
{
    if s.len() > 0 {
        lemma_digits_value_nonneg(s.drop_last());
    }
}

/// Reads already trimmed text as an unsigned 8-bit decimal number.
pub fn parse_guess(text: &str) -> (r: Option<u8>)
    ensures
        r == parse_u8_spec(text@),
{
    let n = text.unicode_len();
    let start: usize = if n > 0 && text.get_char(0) == '+' { 1 } else { 0 };
    let ghost d = text@.subrange(start as int, n as int);
    if start >= n {
        return None;
    }
    let mut acc: u32 = 0;
    let mut k: usize = start;
    while k < n
        invariant
            n == text@.len(),
            start == digits_start(text@),
            d == text@.subrange(start as int, n as int),
            start <= k <= n,
            forall|i: int| start <= i < k ==> is_digit(#[trigger] text@[i]),
            acc <= 256,
            acc < 256 ==> acc == digits_value(text@.subrange(start as int, k as int)),
            acc == 256 ==> digits_value(text@.subrange(start as int, k as int)) > 255,
        decreases n - k,
    {
        let c = text.get_char(k);
        let ghost before = text@.subrange(start as int, k as int);
        let ghost after = text@.subrange(start as int, k + 1);
        assert(after.drop_last() =~= before);
        if !('0' <= c && c <= '9') {
            assert(d[k - start] == c);
            return None;
        }
        proof {
            assert forall|i: int| 0 <= i < before.len() implies is_digit(#[trigger] before[i]) by {
                assert(before[i] == text@[start + i]);
            }
            lemma_digits_value_nonneg(before);
        }
        let v = (c as u32) - ('0' as u32);
        if acc * 10 + v > 255 {
            acc = 256;
        } else {
            acc = acc * 10 + v;
        }
        k = k + 1;
    }
    assert(text@.subrange(start as int, k as int) =~= d);
    assert forall|i: int| 0 <= i < d.len() implies is_digit(#[trigger] d[i]) by {
        assert(d[i] == text@[start + i]);
    }
    if acc > 255 {
        None
    } else {
        Some(acc as u8)
    }
}

/// Reads a guess out of one line of input: the line is trimmed, then read as
/// an unsigned 8-bit decimal number.
pub fn read_guess(line: &str) -> (r: Option<u8>)
    ensures
        r == guess_of_line(line@),
{
    let t = trim_text(line);
    parse_guess(t)
}

} // verus!
