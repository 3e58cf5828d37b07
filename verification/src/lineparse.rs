//! The expressions of a line-number index, one to a line.
//!
//! ```text
//! natural    := digit+            a number from 1 to u32::MAX
//! single     := natural
//! left-open  := "," natural
//! right-open := natural ","
//! closed     := natural "," natural
//! range      := closed | left-open | right-open | single
//! ```
//!
//! An expression is read from the start of a text and need not fill it: what
//! follows the expression is handed back with it. The alternatives of `range`
//! are tried in the order given, and the first that fits is taken. The grammar
//! is stated as spec functions on `Seq<char>`, one for each production, and
//! [`range`] is proved to compute [`spec_range`].

use crate::text::{decimal_spec, digit_char};
use std::str::Chars;
use vstd::prelude::*;
use vstd::std_specs::iter::IteratorSpec;

verus! {

broadcast use vstd::string::group_string_axioms;

/// Expressions arranged in rows of index file.
#[derive(Debug, Clone, Copy, PartialEq, Eq, Structural)]
pub enum Range {
    /// NATURAL_NUMBER
    Single(u32),
    /// NATURAL_NUMBER,NATURAL_NUMBER
    /// ,NATURAL_NUMBER
    /// NATURAL_NUMBER,
    Interval(u32, u32),
}

/// Why a text does not begin with a range expression.
#[derive(Debug, Clone, Copy, PartialEq, Eq, Structural)]
pub enum ParseErrorKind {
    /// The text does not begin with a digit, nor with a comma and a natural
    /// number.
    Digit,
    /// The digits at the start of the text spell zero, or a number above
    /// `u32::MAX`.
    Natural,
}

/// A text that does not begin with a range expression.
#[derive(Debug, PartialEq, Eq)]
pub struct ParseError {
    /// The text that was refused, whole.
    pub input: String,
    /// Why it was refused.
    pub kind: ParseErrorKind,
}

impl ParseErrorKind {
    /// What the grammar asked for in vain.
    pub open spec fn reason(self) -> Seq<char> {
        match self {
            ParseErrorKind::Digit => "expected a digit"@,
            ParseErrorKind::Natural => "expected a number from 1 to 4294967295"@,
        }
    }
}

/// The text of a refusal: what was asked for, a colon, and the text that was
/// refused.
pub open spec fn spec_refusal(kind: ParseErrorKind, input: Seq<char>) -> Seq<char> {
    kind.reason() + ": "@ + input
}

impl ParseError {
    /// The refusal as a text for a reader.
    pub fn to_string(&self) -> (s: String)
        ensures
            s@ == spec_refusal(self.kind, self.input@),
    {
        let reason = match self.kind {
            ParseErrorKind::Digit => "expected a digit",
            ParseErrorKind::Natural => "expected a number from 1 to 4294967295",
        };
        String::from_str(reason).concat(": ").concat(self.input.as_str())
    }
}

/// Whether `c` is a decimal digit.
pub open spec fn is_digit(c: char) -> bool {
    '0' <= c <= '9'
}

/// The number that the digit `c` stands for.
pub open spec fn digit_value(c: char) -> nat
    recommends
        is_digit(c),
{
    (c as u32 - '0' as u32) as nat
}

/// How many digits `s` begins with.
pub open spec fn spec_digits(s: Seq<char>) -> nat
    decreases s.len(),
{
    if s.len() > 0 && is_digit(s[0]) {
        1 + spec_digits(s.drop_first())
    } else {
        0
    }
}

/// The number that the digits `s` spell in base ten.
pub open spec fn spec_decimal(s: Seq<char>) -> nat
    decreases s.len(),
{
    if s.len() == 0 {
        0
    } else {
        10 * spec_decimal(s.drop_last()) + digit_value(s.last())
    }
}

/// `natural`: all the digits that `s` begins with, where there is one at least
/// and they spell a number from 1 to `u32::MAX`. Gives the number and the rest
/// of `s`.
pub open spec fn spec_natural(s: Seq<char>) -> Option<(u32, Seq<char>)> {
    let n = spec_digits(s) as int;
    let v = spec_decimal(s.take(n));
    if n > 0 && 1 <= v <= u32::MAX {
        Some((v as u32, s.skip(n)))
    } else {
        None
    }
}

/// A comma at the start of `s`. Gives the rest of `s`.
pub open spec fn spec_comma(s: Seq<char>) -> Option<Seq<char>> {
    if s.len() > 0 && s[0] == ',' {
        Some(s.skip(1))
    } else {
        None
    }
}

/// `single`: a natural number, for the line of that number.
pub open spec fn spec_single(s: Seq<char>) -> Option<(Range, Seq<char>)> {
    match spec_natural(s) {
        Some((n, rest)) => Some((Range::Single(n), rest)),
        None => None,
    }
}

/// `left-open`: a comma and a natural number, for the lines up to that number.
pub open spec fn spec_interval_left_open(s: Seq<char>) -> Option<(Range, Seq<char>)> {
    match spec_comma(s) {
        Some(after) => match spec_natural(after) {
            Some((right, rest)) => Some((Range::Interval(u32::MIN, right), rest)),
            None => None,
        },
        None => None,
    }
}

/// `right-open`: a natural number and a comma, for the lines from that number
/// on.
pub open spec fn spec_interval_right_open(s: Seq<char>) -> Option<(Range, Seq<char>)> {
    match spec_natural(s) {
        Some((left, after)) => match spec_comma(after) {
            Some(rest) => Some((Range::Interval(left, u32::MAX), rest)),
            None => None,
        },
        None => None,
    }
}

/// `closed`: two natural numbers with a comma between them, for the lines from
/// the first to the second. The two are not compared.
pub open spec fn spec_interval(s: Seq<char>) -> Option<(Range, Seq<char>)> {
    match spec_natural(s) {
        Some((left, after)) => match spec_comma(after) {
            Some(second) => match spec_natural(second) {
                Some((right, rest)) => Some((Range::Interval(left, right), rest)),
                None => None,
            },
            None => None,
        },
        None => None,
    }
}

/// `range`: the first of `closed`, `left-open`, `right-open` and `single` that
/// `s` begins with, and the rest of `s`.
pub open spec fn spec_range(s: Seq<char>) -> Option<(Range, Seq<char>)> {
    if spec_interval(s) is Some {
        spec_interval(s)
    } else if spec_interval_left_open(s) is Some {
        spec_interval_left_open(s)
    } else if spec_interval_right_open(s) is Some {
        spec_interval_right_open(s)
    } else {
        spec_single(s)
    }
}

/// Why `s` is refused, where [`spec_range`] gives nothing for it.
pub open spec fn spec_rejection(s: Seq<char>) -> ParseErrorKind {
    if spec_digits(s) == 0 {
        ParseErrorKind::Digit
    } else {
        ParseErrorKind::Natural
    }
}

/// A run of `n` digits that ends with the text, or before a character that is
/// no digit, is all the digits that the text begins with.
proof fn lemma_digits_run(s: Seq<char>, n: int)
    requires
        0 <= n <= s.len(),
        forall|i: int| 0 <= i < n ==> is_digit(#[trigger] s[i]),
        n < s.len() ==> !is_digit(s[n]),
    ensures
        spec_digits(s) == n,
    decreases n,
{
    if n > 0 {
        let t = s.drop_first();
        assert forall|i: int| 0 <= i < n - 1 implies is_digit(#[trigger] t[i]) by {
            assert(t[i] == s[i + 1]);
        }
        lemma_digits_run(t, n - 1);
    }
}

/// A number written in base ten is digits throughout, and they spell the
/// number.
pub proof fn lemma_decimal_spells(n: nat)
    ensures
        decimal_spec(n).len() >= 1,
        forall|i: int| 0 <= i < decimal_spec(n).len() ==> is_digit(#[trigger] decimal_spec(n)[i]),
        spec_decimal(decimal_spec(n)) == n,
    decreases n,
{
    let d = decimal_spec(n);
    if n < 10 {
        assert(spec_decimal(d.drop_last()) == 0);
    } else {
        lemma_decimal_spells(n / 10);
        assert(d.drop_last() =~= decimal_spec(n / 10));
    }
}

/// A natural number written in base ten is read back as that number, up to
/// the end of the text or to the character that is no digit, and what
/// follows is the rest.
pub proof fn lemma_natural_reads_back(n: u32, rest: Seq<char>)
    requires
        n >= 1,
        rest.len() > 0 ==> !is_digit(rest[0]),
    ensures
        spec_natural(decimal_spec(n as nat) + rest) == Some((n, rest)),
{
    let d = decimal_spec(n as nat);
    let s = d + rest;
    lemma_decimal_spells(n as nat);
    assert forall|i: int| 0 <= i < d.len() implies is_digit(#[trigger] s[i]) by {
        assert(s[i] == d[i]);
    }
    lemma_digits_run(s, d.len() as int);
    assert(s.take(d.len() as int) =~= d);
}

/// The four forms of a range expression are read back as the ranges they
/// stand for, and nothing of the text is left over.
pub proof fn lemma_range_reads_back(left: u32, right: u32)
    requires
        left >= 1,
        right >= 1,
    ensures
        spec_range(decimal_spec(left as nat)) == Some((Range::Single(left), Seq::<char>::empty())),
        spec_range(decimal_spec(left as nat) + seq![','] + decimal_spec(right as nat)) == Some(
            (Range::Interval(left, right), Seq::<char>::empty()),
        ),
        spec_range(seq![','] + decimal_spec(right as nat)) == Some(
            (Range::Interval(u32::MIN, right), Seq::<char>::empty()),
        ),
        spec_range(decimal_spec(left as nat) + seq![',']) == Some(
            (Range::Interval(left, u32::MAX), Seq::<char>::empty()),
        ),
{
    let l = decimal_spec(left as nat);
    let r = decimal_spec(right as nat);
    let nothing = Seq::<char>::empty();
    let comma = seq![','];
    lemma_decimal_spells(left as nat);
    lemma_decimal_spells(right as nat);
    // the numbers alone
    lemma_natural_reads_back(left, nothing);
    lemma_natural_reads_back(right, nothing);
    // the left number before a comma and the right number
    lemma_natural_reads_back(left, comma + r);
    assert(l + comma + r =~= l + (comma + r));
    assert((comma + r).skip(1) =~= r);
    // the left number before a comma alone
    lemma_natural_reads_back(left, comma);
}

/// No range that is read names the line zero, but as the start of an
/// interval that is open to the left.
pub proof fn lemma_range_names_no_line_zero(s: Seq<char>)
    ensures
        spec_range(s) matches Some((Range::Single(n), _)) ==> n >= 1,
        spec_range(s) matches Some((Range::Interval(start, end), _)) ==> end >= 1 && (start >= 1
            || (start == u32::MIN && s.len() > 0 && s[0] == ',')),
{
}

/// What follows a range expression is the end of the text it was read from:
/// the text without its first characters, one at least.
pub proof fn lemma_range_leaves_a_tail(s: Seq<char>)
    ensures
        spec_range(s) matches Some((_, rest)) ==> rest.len() < s.len() && rest == s.skip(
            s.len() - rest.len(),
        ),
{
    let first = spec_digits(s) as int;
    lemma_digits_within(s);
    let after = s.skip(first);
    if after.len() > 0 {
        let second = spec_digits(after.skip(1)) as int;
        lemma_digits_within(after.skip(1));
        assert(after.skip(1) =~= s.skip(first + 1));
        assert(after.skip(1).skip(second) =~= s.skip(first + 1 + second));
    }
    if s.len() > 0 {
        let second = spec_digits(s.skip(1)) as int;
        lemma_digits_within(s.skip(1));
        assert(s.skip(1).skip(second) =~= s.skip(1 + second));
    }
}

/// A text begins with no more digits than it has characters.
proof fn lemma_digits_within(s: Seq<char>)
    ensures
        spec_digits(s) <= s.len(),
    decreases s.len(),
{
    if s.len() > 0 && is_digit(s[0]) {
        lemma_digits_within(s.drop_first());
    }
}

/// A text begins with a range expression exactly where it begins with a
/// natural number, or with a comma and a natural number.
pub proof fn lemma_range_is_refused(s: Seq<char>)
    ensures
        spec_range(s) is None <==> spec_natural(s) is None && spec_interval_left_open(s) is None,
{
}

/// What [`natural`] found at the front of a text.
struct Scan {
    /// How many digits the text begins with.
    digits: usize,
    /// The number they spell, where it is a natural number.
    value: Option<u32>,
    /// The character after the digits, which the scan has taken too.
    next: Option<char>,
}

/// Takes the digits at the front of `it`, and the character after them.
fn natural(it: &mut Chars<'_>, Ghost(limit): Ghost<usize>) -> (res: Scan)
    requires
        (*old(it)).remaining().len() <= limit,
    ensures
        res.digits <= (*old(it)).remaining().len(),
        res.digits == spec_digits((*old(it)).remaining()),
        res.value == match spec_natural((*old(it)).remaining()) {
            Some((v, _)) => Some(v),
            None => None,
        },
        res.digits < (*old(it)).remaining().len() ==> {
            &&& res.next == Some((*old(it)).remaining()[res.digits as int])
            &&& (*final(it)).remaining() == (*old(it)).remaining().skip(res.digits + 1)
        },
        res.digits == (*old(it)).remaining().len() ==> {
            &&& res.next is None
            &&& (*final(it)).remaining().len() == 0
        },
{
    let ghost s = (*it).remaining();
    let mut digits: usize = 0;
    let mut value: u64 = 0;
    let mut large = false;
    let mut next: Option<char> = None;
    loop
        invariant_except_break
            (*it).remaining() == s.skip(digits as int),
            next is None,
        invariant
            s.len() <= limit,
            0 <= digits <= s.len(),
            forall|i: int| 0 <= i < digits ==> is_digit(#[trigger] s[i]),
            !large ==> value == spec_decimal(s.take(digits as int)) && value <= u32::MAX,
            large ==> spec_decimal(s.take(digits as int)) > u32::MAX,
        ensures
            digits < s.len() ==> {
                &&& !is_digit(s[digits as int])
                &&& next == Some(s[digits as int])
                &&& (*it).remaining() == s.skip(digits + 1)
            },
            digits == s.len() ==> next is None && (*it).remaining().len() == 0,
        decreases limit - digits,
    {
        match it.next() {
            None => {
                break ;
            },
            Some(c) => {
                if '0' <= c && c <= '9' {
                    proof {
                        let longer = s.take(digits + 1);
                        assert(longer.drop_last() =~= s.take(digits as int));
                    }
                    if !large {
                        value = value * 10 + (c as u32 - '0' as u32) as u64;
                        large = value > u32::MAX as u64;
                    }
                    digits = digits + 1;
                } else {
                    next = Some(c);
                    break ;
                }
            },
        }
    }
    proof {
        lemma_digits_run(s, digits as int);
    }
    let value = if digits > 0 && !large && value >= 1 {
        Some(value as u32)
    } else {
        None
    };
    Scan { digits, value, next }
}

/// Reads a range expression from the start of `input`. Gives the expression
/// and what follows it in `input`, or the whole of `input` and why it begins
/// with no expression.
pub fn range(input: &str) -> (res: Result<(&str, Range), ParseError>)
    ensures
        match spec_range(input@) {
            Some((range, rest)) => res matches Ok((tail, r)) && r == range && tail@ == rest,
            None => res matches Err(e) && e.input@ == input@ && e.kind == spec_rejection(
                input@,
            ),
        },
{
    let len = input.unicode_len();
    let mut it = input.chars();
    let ghost s = input@;
    let first = natural(&mut it, Ghost(len));
    let ghost after = s.skip(first.digits as int);
    match first.value {
        Some(left) => {
            if first.next == Some(',') {
                assert(after.skip(1) =~= s.skip(first.digits + 1));
                let second = natural(&mut it, Ghost(len));
                match second.value {
                    Some(right) => {
                        let tail = input.substring_char(first.digits + 1 + second.digits, len);
                        Ok((tail, Range::Interval(left, right)))
                    },
                    None => {
                        let tail = input.substring_char(first.digits + 1, len);
                        Ok((tail, Range::Interval(left, u32::MAX)))
                    },
                }
            } else {
                let tail = input.substring_char(first.digits, len);
                Ok((tail, Range::Single(left)))
            }
        },
        None => {
            if first.digits == 0 && first.next == Some(',') {
                let second = natural(&mut it, Ghost(len));
                match second.value {
                    Some(right) => {
                        let tail = input.substring_char(1 + second.digits, len);
                        Ok((tail, Range::Interval(u32::MIN, right)))
                    },
                    None => Err(
                        ParseError { input: input.to_owned(), kind: ParseErrorKind::Digit },
                    ),
                }
            } else if first.digits == 0 {
                Err(ParseError { input: input.to_owned(), kind: ParseErrorKind::Digit })
            } else {
                Err(ParseError { input: input.to_owned(), kind: ParseErrorKind::Natural })
            }
        },
    }
}

} // verus!
