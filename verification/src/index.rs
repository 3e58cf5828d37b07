//! The two kinds of index, and what each selects.

use crate::lineparse::Range;
use regex::Regex;
use vstd::prelude::*;

verus! {

/// A compiled regular expression of the `regex` crate. Nothing of what it
/// holds is visible to the proofs: a value is only carried, and asked whether
/// it matches.
#[verifier::external_type_specification]
#[verifier::external_body]
pub struct ExRegex(Regex);

/// Whether the regular expression `re` matches somewhere in `text`.
pub uninterp spec fn regex_is_match(re: Regex, text: Seq<char>) -> bool;

/// `Regex::is_match` searches the whole haystack from its start, and what it
/// answers depends on the expression and the haystack alone. The contract
/// gives that answer the name [`regex_is_match`] and claims no more of it.
pub assume_specification[ Regex::is_match ](re: &Regex, haystack: &str) -> (found: bool)
    ensures
        found == regex_is_match(*re, haystack@),
;

/// An error of the `regex` crate: why a pattern was not compiled. A value is
/// only carried to the caller.
#[verifier::external_type_specification]
#[verifier::external_body]
pub struct ExRegexError(regex::Error);

/// The regular expression that `pattern` is compiled to, or `None` where it
/// is refused.
pub uninterp spec fn regex_new(pattern: Seq<char>) -> Option<Regex>;

/// `Regex::new` compiles a pattern with the settings of the crate, and gives
/// an error for a pattern that is invalid or grows too big. What it gives
/// depends on the pattern alone. The contract gives the compiled expression
/// the name [`regex_new`] and claims nothing of what it matches.
pub assume_specification[ Regex::new ](re: &str) -> (compiled: Result<Regex, regex::Error>)
    ensures
        compiled matches Ok(r) ==> regex_new(re@) == Some(r),
        compiled is Err ==> regex_new(re@) is None,
;

/// A clone of a `Regex` shares the compiled expression of its source, so it
/// matches the same texts.
pub assume_specification[ <Regex as Clone>::clone ](re: &Regex) -> (copy: Regex)
    ensures
        forall|text: Seq<char>| #[trigger] regex_is_match(copy, text) == regex_is_match(*re, text),
;

/// How the lines of an index are read.
#[derive(Debug)]
pub enum Type {
    /// Each index line stands for the target line of the same number, which is
    /// selected where the expression matches the index line.
    Re(Regex),
    /// The index lines name the numbers of the target lines to select. This is
    /// one such line, parsed.
    Number(Range),
}

impl Clone for Type {
    /// A copy selects what its source selects, and has the same bounds.
    fn clone(&self) -> (copy: Type)
        ensures
            forall|linum: u32, line: Seq<char>| #[trigger]
                copy.selects(linum, line) == self.selects(linum, line),
            copy.lower() == self.lower(),
            copy.upper() == self.upper(),
            *self is Number ==> copy == *self,
    {
        match self {
            Type::Re(r) => Type::Re(r.clone()),
            Type::Number(r) => Type::Number(*r),
        }
    }
}

impl Type {
    /// Whether the target line of number `linum` is selected, `line` being the
    /// index line that stands for it where the index is matched by content.
    pub open spec fn selects(self, linum: u32, line: Seq<char>) -> bool {
        match self {
            Type::Number(Range::Single(n)) => n == linum,
            Type::Number(Range::Interval(s, e)) => s <= linum <= e,
            Type::Re(r) => regex_is_match(r, line),
        }
    }

    /// The first line number that may be selected.
    pub open spec fn lower(self) -> u32 {
        match self {
            Type::Re(_) => u32::MIN,
            Type::Number(Range::Single(n)) => n,
            Type::Number(Range::Interval(s, _)) => s,
        }
    }

    /// The last line number that may be selected.
    pub open spec fn upper(self) -> u32 {
        match self {
            Type::Re(_) => u32::MAX,
            Type::Number(Range::Single(n)) => n,
            Type::Number(Range::Interval(_, e)) => e,
        }
    }

    /// Whether the line is selected: by its number `linum` for a numeric
    /// index, by the content `line` for a regular expression.
    pub fn select(&self, linum: u32, line: &str) -> (selected: bool)
        ensures
            selected == self.selects(linum, line@),
            *self matches Type::Number(Range::Single(k)) ==> selected == (linum == k),
            *self matches Type::Number(Range::Interval(s, e)) ==> selected == (s <= linum <= e),
    {
        match &self {
            Type::Number(r) => match r {
                Range::Single(n) => *n == linum,
                Range::Interval(s, e) => *s <= linum && linum <= *e,
            },
            Type::Re(r) => r.is_match(line),
        }
    }

    /// The lower bound of the selected line numbers; the least number there is
    /// for a regular expression, which is bound to no line.
    pub fn start(&self) -> (n: u32)
        ensures
            n == self.lower(),
    {
        match &self {
            Type::Re(_) => u32::MIN,
            Type::Number(r) => match r {
                Range::Single(n) => *n,
                Range::Interval(s, _) => *s,
            },
        }
    }

    /// The upper bound of the selected line numbers; the greatest number there
    /// is for a regular expression, which no line number leaves behind.
    pub fn end(&self) -> (n: u32)
        ensures
            n == self.upper(),
    {
        match &self {
            Type::Re(_) => u32::MAX,
            Type::Number(r) => match r {
                Range::Single(n) => *n,
                Range::Interval(_, e) => *e,
            },
        }
    }
}

/// The pattern of an index that is matched by content, where none is given:
/// an index line selects if it is not empty.
pub const DEFAULT_PATTERN: &'static str = ".+";

/// The index type of a run. A numeric index is asked for by
/// `index_line_number`, and is read with no regular expression at all.
/// Otherwise the index is matched by content: with `r` where it is given,
/// with [`DEFAULT_PATTERN`] where it is not. An error comes only of compiling
/// that pattern.
pub fn new_index_type(r: Option<Regex>, index_line_number: bool) -> (t: Result<
    Option<Type>,
    regex::Error,
>)
    ensures
        index_line_number ==> t == Ok::<Option<Type>, regex::Error>(None),
        !index_line_number ==> match r {
            Some(re) => t == Ok::<Option<Type>, regex::Error>(Some(Type::Re(re))),
            None => match regex_new(DEFAULT_PATTERN@) {
                Some(re) => t == Ok::<Option<Type>, regex::Error>(Some(Type::Re(re))),
                None => t is Err,
            },
        },
{
    if index_line_number {
        Ok(None)
    } else {
        match r {
            Some(re) => Ok(Some(Type::Re(re))),
            None => match Regex::new(DEFAULT_PATTERN) {
                Ok(re) => Ok(Some(Type::Re(re))),
                Err(e) => Err(e),
            },
        }
    }
}

/// A numeric expression selects a line exactly where the number of the line
/// lies between its bounds.
pub proof fn lemma_number_selects_within_bounds(r: Range, linum: u32, line: Seq<char>)
    ensures
        Type::Number(r).selects(linum, line) == (Type::Number(r).lower() <= linum
            <= Type::Number(r).upper()),
{
}

/// An interval whose start lies above its end selects no line.
pub proof fn lemma_inverted_interval_selects_nothing(s: u32, e: u32, linum: u32, line: Seq<char>)
    requires
        s > e,
    ensures
        !Type::Number(Range::Interval(s, e)).selects(linum, line),
{
}

/// A regular expression is never behind a line: no line number is above its
/// upper bound.
pub proof fn lemma_content_is_never_passed(re: Regex, linum: u32)
    ensures
        !(Type::Re(re).upper() < linum),
        Type::Re(re).lower() <= linum,
{
}

} // verus!
