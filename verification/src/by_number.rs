//! What a numeric index selects.
//!
//! The engine is stated step by step. Here the output of a whole run is said
//! at once: a target line is judged by the first expression of the index that
//! does not end before the line.

use crate::output::{after_read, output, output_from, Item};
use crate::index::Type;
use crate::lineparse::{spec_range, Range};
use crate::select::{spec_parse_failure, InputView, SelectErrorView, State, StepView, Waiting};
use crate::text::rstrip_spec;
use vstd::prelude::*;

verus! {

/// What the index says of one target line.
pub enum Verdict {
    /// An index line is no range expression: the output ends with this
    /// failure.
    Error(SelectErrorView),
    /// The index has ended and left the line unjudged: the output ends.
    EndOfIndex,
    /// The line is selected.
    Accept,
    /// The line is not selected.
    Deny,
}

/// Whether the index line `line` is empty but for its terminator.
pub open spec fn is_blank(line: Seq<char>) -> bool {
    rstrip_spec(line).len() == 0
}

/// The range that the index line `line` begins with, if it begins with one.
pub open spec fn expression(line: Seq<char>) -> Option<Range> {
    match spec_range(rstrip_spec(line)) {
        Some((r, _)) => Some(r),
        None => None,
    }
}

/// Whether the index line `line` has nothing to say of the target line
/// `linum` and of those after it: it is blank, or its range ends before
/// `linum`.
pub open spec fn is_behind(line: Seq<char>, linum: int) -> bool {
    is_blank(line) || (expression(line) matches Some(r) && Type::Number(r).upper() < linum)
}

/// Whether the first `upto` lines of `index` are all behind the target line
/// `linum`.
pub open spec fn all_behind(index: Seq<Seq<char>>, linum: int, upto: int) -> bool {
    forall|j: int| 0 <= j < upto && j < index.len() ==> is_behind(#[trigger] index[j], linum)
}

/// The place of the first line of `index`, from `from` on, that is not behind
/// the target line `linum`; the length of `index` if there is none.
pub open spec fn first_ahead(index: Seq<Seq<char>>, linum: int, from: int) -> int
    decreases index.len() - from,
{
    if from < 0 || from >= index.len() {
        index.len() as int
    } else if is_behind(index[from], linum) {
        first_ahead(index, linum, from + 1)
    } else {
        from
    }
}

/// What a numeric index says of the target line `linum`, counted from 1. The
/// line is judged by the first index line that is not behind it: selected
/// where the range of that line holds `linum`, under inversion where it does
/// not. A line that is no range expression is a failure. Where the index has
/// no such line, the target line is selected under inversion, and the output
/// ends without.
pub open spec fn numeric_verdict(invert_match: bool, index: Seq<Seq<char>>, linum: int) -> Verdict {
    let at = first_ahead(index, linum, 0);
    if at >= index.len() {
        if invert_match {
            Verdict::Accept
        } else {
            Verdict::EndOfIndex
        }
    } else {
        match expression(index[at]) {
            Some(r) => if Type::Number(r).selects(linum as u32, Seq::empty()) != invert_match {
                Verdict::Accept
            } else {
                Verdict::Deny
            },
            None => Verdict::Error(
                SelectErrorView::Parse(
                    spec_parse_failure(linum as u32, (at + 1) as u32, rstrip_spec(index[at])),
                ),
            ),
        }
    }
}

/// The output for the lines of `target` from `from` on: the lines that are
/// selected, in their order, up to the first line that ends the output.
pub open spec fn numeric_output(
    invert_match: bool,
    target: Seq<Seq<char>>,
    index: Seq<Seq<char>>,
    from: int,
) -> Seq<Item>
    decreases target.len() - from,
{
    if from < 0 || from >= target.len() {
        Seq::empty()
    } else {
        match numeric_verdict(invert_match, index, from + 1) {
            Verdict::Accept => seq![Ok(target[from])] + numeric_output(
                invert_match,
                target,
                index,
                from + 1,
            ),
            Verdict::Deny => numeric_output(invert_match, target, index, from + 1),
            Verdict::EndOfIndex => Seq::empty(),
            Verdict::Error(e) => seq![Err(e)],
        }
    }
}

/// The lines that are behind a target line give no verdict on it.
proof fn lemma_first_ahead_passes(index: Seq<Seq<char>>, linum: int, upto: int)
    requires
        0 <= upto <= index.len(),
        all_behind(index, linum, upto),
    ensures
        first_ahead(index, linum, 0) == first_ahead(index, linum, upto),
    decreases upto,
{
    if upto > 0 {
        lemma_first_ahead_passes(index, linum, upto - 1);
    }
}

/// What is behind a target line is behind the next.
proof fn lemma_behind_stays_behind(index: Seq<Seq<char>>, linum: int, upto: int)
    requires
        all_behind(index, linum, upto),
    ensures
        all_behind(index, linum + 1, upto),
{
    assert forall|j: int| 0 <= j < upto && j < index.len() implies is_behind(
        #[trigger] index[j],
        linum + 1,
    ) by {
        assert(is_behind(index[j], linum));
    }
}

/// How a state that asks for the target line at `at`, counted from 0, stands
/// to an index of which `read` lines were read: the lines read are behind the
/// target line, but for the last where its range is the predicate in force.
spec fn settled(state: State, index: Seq<Seq<char>>, at: int, read: int) -> bool {
    &&& !state.eoi
    &&& state.target_stream_linum == at + 1
    &&& 0 <= read <= index.len()
    &&& match state.index_type {
        Some(Type::Number(r)) => {
            &&& read >= 1
            &&& !is_blank(index[read - 1])
            &&& expression(index[read - 1]) == Some(r)
            &&& all_behind(index, at + 1, read - 1)
            &&& state.index_stream_linum == read
        },
        Some(Type::Re(_)) => false,
        None => {
            &&& all_behind(index, at + 1, read)
            &&& (state.index_stream_linum == read || read == index.len())
        },
    }
}

/// How a state that asks for the next index line stands to an index of which
/// `read` lines were read, the pending target line being the one at `at`.
spec fn searching(
    state: State,
    target: Seq<Seq<char>>,
    index: Seq<Seq<char>>,
    at: int,
    read: int,
) -> bool {
    &&& !state.eoi
    &&& state.target_stream_linum == at + 1
    &&& 0 <= at < target.len()
    &&& 0 <= read <= index.len()
    &&& state.index_type is None
    &&& state.waiting == Waiting::Index(target[at])
    &&& all_behind(index, at + 1, read)
    &&& (read < index.len() ==> state.index_stream_linum == read + 1)
}

/// What is still to come when the engine asks for the target line at `at`.
proof fn lemma_numeric_output_at_target(
    state: State,
    target: Seq<Seq<char>>,
    index: Seq<Seq<char>>,
    at: int,
    read_of_index: int,
)
    requires
        target.len() < u32::MAX,
        index.len() < u32::MAX,
        0 <= at <= target.len(),
        settled(state, index, at, read_of_index),
    ensures
        output_from(state, StepView::Target, target.skip(at), index.skip(read_of_index))
            == numeric_output(state.invert_match, target, index, at),
    decreases target.len() - at, index.len() - read_of_index, 1nat,
{
    let invert = state.invert_match;
    let linum = at + 1;
    let target_left = target.skip(at);
    let index_left = index.skip(read_of_index);
    if at == target.len() {
        assert(output_from(state.disable(), StepView::End, target_left, index_left)
            == Seq::<Item>::empty());
    } else {
        let line = target[at];
        assert(after_read(target_left) =~= target.skip(at + 1));
        let (judged, verdict) = state.target(InputView::Line(line));
        match state.index_type {
            Some(Type::Number(r)) => {
                if Type::Number(r).upper() < linum {
                    // the range lies before the line: the next one is asked for
                    lemma_numeric_output_at_index(judged, target, index, at, read_of_index);
                } else {
                    lemma_first_ahead_passes(index, linum, read_of_index - 1);
                    lemma_behind_stays_behind(index, linum, read_of_index - 1);
                    if Type::Number(r).selects(linum as u32, Seq::empty()) != invert {
                        let (next, _) = judged.next();
                        lemma_numeric_output_at_target(next, target, index, at + 1, read_of_index);
                        assert(output_from(judged, verdict, target.skip(at + 1), index_left)
                            == seq![Ok(line)] + numeric_output(invert, target, index, at + 1));
                    } else {
                        lemma_numeric_output_at_target(
                            judged,
                            target,
                            index,
                            at + 1,
                            read_of_index,
                        );
                    }
                }
            },
            _ => {
                lemma_numeric_output_at_index(judged, target, index, at, read_of_index);
            },
        }
    }
}

/// What is still to come when the engine asks for the next index line, to
/// judge the target line at `at`.
proof fn lemma_numeric_output_at_index(
    state: State,
    target: Seq<Seq<char>>,
    index: Seq<Seq<char>>,
    at: int,
    read_of_index: int,
)
    requires
        target.len() < u32::MAX,
        index.len() < u32::MAX,
        searching(state, target, index, at, read_of_index),
    ensures
        output_from(state, StepView::Index, target.skip(at + 1), index.skip(read_of_index))
            == numeric_output(state.invert_match, target, index, at),
    decreases target.len() - at, index.len() - read_of_index, 0nat,
{
    let invert = state.invert_match;
    let linum = at + 1;
    let line = target[at];
    let target_left = target.skip(at + 1);
    let index_left = index.skip(read_of_index);
    lemma_first_ahead_passes(index, linum, read_of_index);
    if read_of_index == index.len() {
        let (judged, verdict) = state.index(InputView::End);
        if invert {
            let (next, _) = judged.next();
            lemma_behind_stays_behind(index, linum, read_of_index);
            lemma_numeric_output_at_target(next, target, index, at + 1, read_of_index);
            assert(output_from(judged, verdict, target_left, index_left) == seq![Ok(line)]
                + numeric_output(invert, target, index, at + 1));
        } else {
            assert(output_from(judged, verdict, target_left, index_left) == Seq::<Item>::empty());
        }
    } else {
        let raw = index[read_of_index];
        let text = rstrip_spec(raw);
        assert(after_read(index_left) =~= index.skip(read_of_index + 1));
        let (judged, verdict) = state.index(InputView::Line(raw));
        if is_blank(raw) {
            lemma_numeric_output_at_index(judged, target, index, at, read_of_index + 1);
        } else {
            match expression(raw) {
                None => {
                    // the line is refused: the failure is the last item
                    let failure = SelectErrorView::Parse(
                        spec_parse_failure(linum as u32, (read_of_index + 1) as u32, text),
                    );
                    let (last, end) = judged.next();
                    assert(output_from(last, end, target_left, index.skip(read_of_index + 1))
                        == Seq::<Item>::empty());
                    assert(output_from(
                        judged,
                        verdict,
                        target_left,
                        index.skip(read_of_index + 1),
                    ) =~= seq![Err(failure)]);
                },
                Some(r) => {
                    if Type::Number(r).upper() < linum {
                        // the range lies before the line: the next one is asked for
                        lemma_numeric_output_at_index(judged, target, index, at, read_of_index + 1);
                    } else {
                        lemma_behind_stays_behind(index, linum, read_of_index);
                        if Type::Number(r).selects(linum as u32, Seq::empty()) != invert {
                            let (next, _) = judged.next();
                            lemma_numeric_output_at_target(
                                next,
                                target,
                                index,
                                at + 1,
                                read_of_index + 1,
                            );
                            assert(output_from(
                                judged,
                                verdict,
                                target_left,
                                index.skip(read_of_index + 1),
                            ) == seq![Ok(line)] + numeric_output(invert, target, index, at + 1));
                        } else {
                            lemma_numeric_output_at_target(
                                judged,
                                target,
                                index,
                                at + 1,
                                read_of_index + 1,
                            );
                        }
                    }
                },
            }
        }
    }
}

/// The output for a numeric index: each target line is judged by the first
/// index line that is not behind it, and the selected lines are yielded as
/// they were read, in the order of the target, until a line is left unjudged
/// or an index line is refused.
pub proof fn lemma_output_by_number(
    invert_match: bool,
    target: Seq<Seq<char>>,
    index: Seq<Seq<char>>,
)
    requires
        target.len() < u32::MAX,
        index.len() < u32::MAX,
    ensures
        output(None, invert_match, target, index) == numeric_output(invert_match, target, index, 0),
{
    let (state, _) = State::new(None, invert_match).next();
    lemma_numeric_output_at_target(state, target, index, 0, 0);
    assert(target.skip(0) =~= target);
    assert(index.skip(0) =~= index);
}

/// Whether the index line `line` is an expression that holds the target line
/// `linum`.
pub open spec fn holds(line: Seq<char>, linum: int) -> bool {
    &&& !is_blank(line)
    &&& expression(line) matches Some(r)
    &&& Type::Number(r).lower() <= linum <= Type::Number(r).upper()
}

/// Whether some expression of `index` holds the target line `linum`.
pub open spec fn listed(index: Seq<Seq<char>>, linum: int) -> bool {
    exists|j: int| 0 <= j < index.len() && holds(#[trigger] index[j], linum)
}

/// Whether `index` is in order: each line is blank or a range expression,
/// and no expression starts before one that stands above it.
pub open spec fn in_order(index: Seq<Seq<char>>) -> bool {
    &&& forall|j: int|
        0 <= j < index.len() ==> is_blank(#[trigger] index[j]) || expression(index[j]) is Some
    &&& forall|j: int, k: int|
        0 <= j < k < index.len() && !is_blank(#[trigger] index[j]) && !is_blank(
            #[trigger] index[k],
        ) ==> Type::Number(expression(index[j])->0).lower() <= Type::Number(
            expression(index[k])->0,
        ).lower()
}

/// The lines of `target` from `from` on that `index` lists, or under
/// inversion those that it does not list, in their order.
pub open spec fn listed_output(
    invert_match: bool,
    target: Seq<Seq<char>>,
    index: Seq<Seq<char>>,
    from: int,
) -> Seq<Item>
    decreases target.len() - from,
{
    if from < 0 || from >= target.len() {
        Seq::empty()
    } else if listed(index, from + 1) != invert_match {
        seq![Ok(target[from])] + listed_output(invert_match, target, index, from + 1)
    } else {
        listed_output(invert_match, target, index, from + 1)
    }
}

/// The first line that is not behind a target line has only lines before it
/// that are.
proof fn lemma_first_ahead_is_first(index: Seq<Seq<char>>, linum: int, from: int)
    requires
        0 <= from <= index.len(),
    ensures
        from <= first_ahead(index, linum, from) <= index.len(),
        forall|j: int|
            from <= j < first_ahead(index, linum, from) ==> is_behind(#[trigger] index[j], linum),
        first_ahead(index, linum, from) < index.len() ==> !is_behind(
            index[first_ahead(index, linum, from)],
            linum,
        ),
    decreases index.len() - from,
{
    if from < index.len() && is_behind(index[from], linum) {
        lemma_first_ahead_passes_one(index, linum, from);
        lemma_first_ahead_is_first(index, linum, from + 1);
    }
}

/// A line that is behind is not the first that is not.
proof fn lemma_first_ahead_passes_one(index: Seq<Seq<char>>, linum: int, from: int)
    requires
        0 <= from < index.len(),
        is_behind(index[from], linum),
    ensures
        first_ahead(index, linum, from) == first_ahead(index, linum, from + 1),
{
}

/// With an index in order, the first expression that is not behind a target
/// line holds the line if any expression does: the verdict is whether the
/// line is listed.
proof fn lemma_verdict_in_order(invert_match: bool, index: Seq<Seq<char>>, linum: int)
    requires
        in_order(index),
        1 <= linum <= u32::MAX,
    ensures
        numeric_verdict(invert_match, index, linum) == if listed(index, linum) != invert_match {
            Verdict::Accept
        } else if first_ahead(index, linum, 0) >= index.len() {
            Verdict::EndOfIndex
        } else {
            Verdict::Deny
        },
        first_ahead(index, linum, 0) >= index.len() ==> !listed(index, linum),
{
    let at = first_ahead(index, linum, 0);
    lemma_first_ahead_is_first(index, linum, 0);
    if listed(index, linum) {
        // the expression that holds the line is not behind it, so the first
        // that is not behind stands at its place or above it, and starts no
        // later
        let j = choose|j: int| 0 <= j < index.len() && holds(#[trigger] index[j], linum);
        assert(at <= j);
    }
}

/// Where the index has ended for a target line it lists no line from there
/// on.
proof fn lemma_nothing_is_listed_behind_the_index(
    target: Seq<Seq<char>>,
    index: Seq<Seq<char>>,
    linum: int,
    from: int,
)
    requires
        first_ahead(index, linum, 0) >= index.len(),
        linum <= from + 1,
    ensures
        listed_output(false, target, index, from) == Seq::<Item>::empty(),
    decreases target.len() - from,
{
    if 0 <= from < target.len() {
        lemma_first_ahead_is_first(index, linum, 0);
        if listed(index, from + 1) {
            // an expression that holds a later line is not behind this one
            let j = choose|j: int| 0 <= j < index.len() && holds(#[trigger] index[j], from + 1);
            assert(is_behind(index[j], linum));
        }
        lemma_nothing_is_listed_behind_the_index(target, index, linum, from + 1);
    }
}

/// With an index in order, the lines that are yielded are the lines that
/// are listed.
proof fn lemma_numeric_output_in_order(
    invert_match: bool,
    target: Seq<Seq<char>>,
    index: Seq<Seq<char>>,
    from: int,
)
    requires
        in_order(index),
        target.len() < u32::MAX,
        0 <= from,
    ensures
        numeric_output(invert_match, target, index, from) == listed_output(
            invert_match,
            target,
            index,
            from,
        ),
    decreases target.len() - from,
{
    if from < target.len() {
        lemma_verdict_in_order(invert_match, index, from + 1);
        lemma_numeric_output_in_order(invert_match, target, index, from + 1);
        if numeric_verdict(invert_match, index, from + 1) is EndOfIndex {
            lemma_nothing_is_listed_behind_the_index(target, index, from + 1, from);
        }
    }
}

/// The output for a numeric index that is in order: the target lines whose
/// number an expression of the index holds, or under inversion those whose
/// number none holds, each as it was read and in the order of the target. No
/// line fails.
pub proof fn lemma_output_in_order(
    invert_match: bool,
    target: Seq<Seq<char>>,
    index: Seq<Seq<char>>,
)
    requires
        in_order(index),
        target.len() < u32::MAX,
        index.len() < u32::MAX,
    ensures
        output(None, invert_match, target, index) == listed_output(invert_match, target, index, 0),
{
    lemma_output_by_number(invert_match, target, index);
    lemma_numeric_output_in_order(invert_match, target, index, 0);
}

} // verus!
