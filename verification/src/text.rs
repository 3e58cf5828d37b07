//! The text of lines and of messages: line terminators, and numbers in base
//! ten.

use vstd::prelude::*;
use vstd::std_specs::iter::IteratorSpec;

verus! {

broadcast use vstd::string::group_string_axioms;

/// Whether `c` is one of the two characters that end a line.
pub open spec fn is_terminator(c: char) -> bool {
    c == '\n' || c == '\r'
}

/// `s` without the line terminators at its end.
pub open spec fn rstrip_spec(s: Seq<char>) -> Seq<char>
    decreases s.len(),
{
    if s.len() > 0 && is_terminator(s.last()) {
        rstrip_spec(s.drop_last())
    } else {
        s
    }
}

/// What is cut off `s`: nothing but terminators. What is left does not end
/// with a terminator.
pub proof fn lemma_rstrip_cuts_terminators(s: Seq<char>)
    ensures
        rstrip_spec(s).len() <= s.len(),
        rstrip_spec(s) == s.take(rstrip_spec(s).len() as int),
        forall|i: int| rstrip_spec(s).len() <= i < s.len() ==> is_terminator(#[trigger] s[i]),
        rstrip_spec(s).len() > 0 ==> !is_terminator(rstrip_spec(s).last()),
    decreases s.len(),
{
    if s.len() > 0 && is_terminator(s.last()) {
        let shorter = s.drop_last();
        lemma_rstrip_cuts_terminators(shorter);
        let kept = rstrip_spec(s).len() as int;
        assert forall|i: int| kept <= i < s.len() implies is_terminator(#[trigger] s[i]) by {
            if i < shorter.len() {
                assert(s[i] == shorter[i]);
            }
        }
    }
}

/// A text that was stripped stays as it is when it is stripped again.
pub proof fn lemma_rstrip_is_idempotent(s: Seq<char>)
    ensures
        rstrip_spec(rstrip_spec(s)) == rstrip_spec(s),
{
    lemma_rstrip_cuts_terminators(s);
}

/// Number of characters of `s[..upto]` that are left once the terminators at
/// its end are gone.
spec fn kept_len(s: Seq<char>, upto: int) -> int
    decreases upto,
{
    if upto <= 0 {
        0
    } else if is_terminator(s[upto - 1]) {
        kept_len(s, upto - 1)
    } else {
        upto
    }
}

proof fn lemma_kept_len(s: Seq<char>, upto: int)
    requires
        0 <= upto <= s.len(),
    ensures
        0 <= kept_len(s, upto) <= upto,
        rstrip_spec(s.subrange(0, upto)) == s.subrange(0, kept_len(s, upto)),
    decreases upto,
{
    let p = s.subrange(0, upto);
    if upto > 0 && is_terminator(s[upto - 1]) {
        lemma_kept_len(s, upto - 1);
        assert(p.drop_last() =~= s.subrange(0, upto - 1));
    }
}

/// Strips the line terminators from the end of `s`.
pub fn rstrip(s: &str) -> (r: &str)
    ensures
        r@ == rstrip_spec(s@),
{
    let len = s.unicode_len();
    let mut it = s.chars();
    let mut seen: usize = 0;
    let mut keep: usize = 0;
    loop
        invariant
            0 <= keep <= seen <= len == s@.len(),
            it.remaining() == s@.subrange(seen as int, len as int),
            keep == kept_len(s@, seen as int),
        ensures
            seen == len,
        decreases len - seen,
    {
        match it.next() {
            None => {
                break;
            },
            Some(c) => {
                seen = seen + 1;
                if !(c == '\n' || c == '\r') {
                    keep = seen;
                }
            },
        }
    }
    proof {
        lemma_kept_len(s@, s@.len() as int);
        assert(s@.subrange(0, s@.len() as int) =~= s@);
    }
    s.substring_char(0, keep)
}

/// The character that stands for `d`, a number below ten.
pub open spec fn digit_char(d: nat) -> char
    recommends
        d < 10,
{
    ('0' as int + d) as char
}

/// `n` written in base ten, with no zero at the front unless `n` is zero.
pub open spec fn decimal_spec(n: nat) -> Seq<char>
    decreases n,
{
    if n < 10 {
        seq![digit_char(n)]
    } else {
        decimal_spec(n / 10).push(digit_char(n % 10))
    }
}

/// The one-character text of a digit.
fn digit(d: u32) -> (s: &'static str)
    requires
        d < 10,
    ensures
        s@ == seq![digit_char(d as nat)],
{
    proof {
        reveal_strlit("0");
        reveal_strlit("1");
        reveal_strlit("2");
        reveal_strlit("3");
        reveal_strlit("4");
        reveal_strlit("5");
        reveal_strlit("6");
        reveal_strlit("7");
        reveal_strlit("8");
        reveal_strlit("9");
    }
    let s = if d == 0 {
        "0"
    } else if d == 1 {
        "1"
    } else if d == 2 {
        "2"
    } else if d == 3 {
        "3"
    } else if d == 4 {
        "4"
    } else if d == 5 {
        "5"
    } else if d == 6 {
        "6"
    } else if d == 7 {
        "7"
    } else if d == 8 {
        "8"
    } else {
        "9"
    };
    s
}

/// Writes `n` in base ten.
pub fn decimal(n: u32) -> (s: String)
    ensures
        s@ == decimal_spec(n as nat),
    decreases n,
{
    if n < 10 {
        String::from_str(digit(n))
    } else {
        let mut s = decimal(n / 10);
        s.append(digit(n % 10));
        s
    }
}

} // verus!
