//! What an index that is matched by content selects.
//!
//! The engine is stated step by step. Here the output of a whole run is said
//! at once: the target line at a place is selected by the index line at the
//! same place.

use crate::output::{after_read, output, output_from, Item};
use crate::index::{regex_is_match, Type};
use crate::select::{InputView, State, StepView};
use crate::text::rstrip_spec;
use regex::Regex;
use vstd::prelude::*;

verus! {

/// Whether an index that is matched by content selects the target line at
/// `at`, counted from 0: by the index line at the same place, and by the
/// inversion alone where the index has no such line.
pub open spec fn content_selects(
    re: Regex,
    invert_match: bool,
    index: Seq<Seq<char>>,
    at: int,
) -> bool {
    if 0 <= at < index.len() {
        regex_is_match(re, rstrip_spec(index[at])) != invert_match
    } else {
        invert_match
    }
}

/// The lines of `target` from `from` on that an index matched by content
/// selects, in their order.
pub open spec fn content_output(
    re: Regex,
    invert_match: bool,
    target: Seq<Seq<char>>,
    index: Seq<Seq<char>>,
    from: int,
) -> Seq<Item>
    decreases target.len() - from,
{
    if from < 0 || from >= target.len() {
        Seq::empty()
    } else if content_selects(re, invert_match, index, from) {
        seq![Ok(target[from])] + content_output(re, invert_match, target, index, from + 1)
    } else {
        content_output(re, invert_match, target, index, from + 1)
    }
}

/// Without inversion nothing is selected behind the end of the index.
proof fn lemma_content_ends_with_the_index(
    re: Regex,
    target: Seq<Seq<char>>,
    index: Seq<Seq<char>>,
    from: int,
)
    requires
        index.len() <= from,
    ensures
        content_output(re, false, target, index, from) == Seq::<Item>::empty(),
    decreases target.len() - from,
{
    if from < target.len() {
        lemma_content_ends_with_the_index(re, target, index, from + 1);
    }
}

/// What is still to come when an engine with a regular expression asks for
/// the target line at `from`, having read as many lines of the index as
/// there are.
proof fn lemma_content_output_from(
    state: State,
    re: Regex,
    target: Seq<Seq<char>>,
    index: Seq<Seq<char>>,
    from: int,
)
    requires
        state.index_type == Some(Type::Re(re)),
        !state.eoi,
        0 <= from <= target.len(),
    ensures
        output_from(
            state,
            StepView::Target,
            target.skip(from),
            index.skip(if from <= index.len() {
                from
            } else {
                index.len() as int
            }),
        ) == content_output(re, state.invert_match, target, index, from),
    decreases target.len() - from,
{
    let invert = state.invert_match;
    let read_of_index = if from <= index.len() {
        from
    } else {
        index.len() as int
    };
    let target_left = target.skip(from);
    let index_left = index.skip(read_of_index);
    if from == target.len() {
        assert(output_from(state.disable(), StepView::End, target_left, index_left)
            == Seq::<Item>::empty());
    } else {
        let line = target[from];
        assert(after_read(target_left) =~= target.skip(from + 1));
        let (asked, _) = state.target(InputView::Line(line));
        if from < index.len() {
            assert(after_read(index_left) =~= index.skip(from + 1));
            let (judged, verdict) = asked.index(InputView::Line(index[from]));
            if content_selects(re, invert, index, from) {
                let (next, _) = judged.next();
                lemma_content_output_from(next, re, target, index, from + 1);
                assert(output_from(judged, verdict, target.skip(from + 1), index.skip(from + 1))
                    == seq![Ok(line)] + content_output(re, invert, target, index, from + 1));
            } else {
                lemma_content_output_from(judged, re, target, index, from + 1);
            }
            assert(output_from(asked, StepView::Index, target.skip(from + 1), index_left)
                == content_output(re, invert, target, index, from));
        } else {
            let (judged, verdict) = asked.index(InputView::End);
            if invert {
                let (next, _) = judged.next();
                lemma_content_output_from(next, re, target, index, from + 1);
                assert(output_from(judged, verdict, target.skip(from + 1), index_left) == seq![
                    Ok(line),
                ] + content_output(re, invert, target, index, from + 1));
            } else {
                lemma_content_ends_with_the_index(re, target, index, from);
                assert(output_from(judged, verdict, target.skip(from + 1), index_left)
                    == Seq::<Item>::empty());
            }
            assert(output_from(asked, StepView::Index, target.skip(from + 1), index_left)
                == content_output(re, invert, target, index, from));
        }
    }
}

/// The output for an index that is matched by content: the target lines whose
/// index line the regular expression matches, each as it was read and in the
/// order of the target. Under inversion they are the lines whose index line it
/// does not match, and those that have no index line. No line fails.
pub proof fn lemma_output_by_content(
    re: Regex,
    invert_match: bool,
    target: Seq<Seq<char>>,
    index: Seq<Seq<char>>,
)
    ensures
        output(Some(Type::Re(re)), invert_match, target, index) == content_output(
            re,
            invert_match,
            target,
            index,
            0,
        ),
{
    let (state, _) = State::new(Some(Type::Re(re)), invert_match).next();
    lemma_content_output_from(state, re, target, index, 0);
    assert(target.skip(0) =~= target);
    assert(index.skip(0) =~= index);
}

/// The lines of the index behind the length of the target are never read:
/// the output is the same without them.
pub proof fn lemma_surplus_index_is_never_read(
    re: Regex,
    invert_match: bool,
    target: Seq<Seq<char>>,
    index: Seq<Seq<char>>,
)
    requires
        target.len() <= index.len(),
    ensures
        output(Some(Type::Re(re)), invert_match, target, index) == output(
            Some(Type::Re(re)),
            invert_match,
            target,
            index.take(target.len() as int),
        ),
{
    let short = index.take(target.len() as int);
    lemma_output_by_content(re, invert_match, target, index);
    lemma_output_by_content(re, invert_match, target, short);
    lemma_content_output_is_local(re, invert_match, target, index, short, 0);
}

/// The selected lines depend on the index lines that stand beside a target
/// line, and on no other.
proof fn lemma_content_output_is_local(
    re: Regex,
    invert_match: bool,
    target: Seq<Seq<char>>,
    index: Seq<Seq<char>>,
    short: Seq<Seq<char>>,
    from: int,
)
    requires
        target.len() <= index.len(),
        short == index.take(target.len() as int),
        0 <= from,
    ensures
        content_output(re, invert_match, target, index, from) == content_output(
            re,
            invert_match,
            target,
            short,
            from,
        ),
    decreases target.len() - from,
{
    if from < target.len() {
        lemma_content_output_is_local(re, invert_match, target, index, short, from + 1);
    }
}

} // verus!
