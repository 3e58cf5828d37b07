//! The output of a whole run.
//!
//! [`output`] says what the engine yields when it is driven from the start to
//! the end over a target and an index that are given as sequences of lines:
//! each step that asks for a line is answered with the next line of that
//! text, or with its end.

use crate::index::Type;
use crate::select::{InputView, SelectErrorView, State, StepView};
use vstd::prelude::*;

verus! {

/// An item of the output: a selected line, or the failure that ends the
/// output.
pub type Item = Result<Seq<char>, SelectErrorView>;

/// What a read gives of a stream that still holds `lines`: the first of them,
/// or the end.
pub open spec fn read(lines: Seq<Seq<char>>) -> InputView {
    if lines.len() > 0 {
        InputView::Line(lines[0])
    } else {
        InputView::End
    }
}

/// What a stream that held `lines` holds after a read.
pub open spec fn after_read(lines: Seq<Seq<char>>) -> Seq<Seq<char>> {
    if lines.len() > 0 {
        lines.drop_first()
    } else {
        lines
    }
}

/// How far a step is from the next read, at most.
pub open spec fn rank(step: StepView) -> nat {
    match step {
        StepView::Index => 3,
        StepView::Yield(_) => 2,
        StepView::Target => 1,
        StepView::End => 0,
    }
}

/// The items that are still to come when the engine is in `state`, has just
/// answered `step`, and `target` and `index` are the lines not yet read.
pub open spec fn output_from(
    state: State,
    step: StepView,
    target: Seq<Seq<char>>,
    index: Seq<Seq<char>>,
) -> Seq<Item>
    decreases target.len() + index.len(), rank(step),
{
    match step {
        StepView::End => Seq::empty(),
        StepView::Yield(item) => {
            let (next, answer) = state.next();
            seq![item] + output_from(next, answer, target, index)
        },
        StepView::Target => {
            let (next, answer) = state.target(read(target));
            output_from(next, answer, after_read(target), index)
        },
        StepView::Index => {
            let (next, answer) = state.index(read(index));
            output_from(next, answer, target, after_read(index))
        },
    }
}

/// The output of the engine for the lines `target` and the lines `index`: all
/// that it yields from the start until the output ends.
pub open spec fn output(
    index_type: Option<Type>,
    invert_match: bool,
    target: Seq<Seq<char>>,
    index: Seq<Seq<char>>,
) -> Seq<Item> {
    let (state, step) = State::new(index_type, invert_match).next();
    output_from(state, step, target, index)
}

/// The output is a function of the index type, the inversion and the lines
/// of the two texts: two runs that are given the same yield the same items,
/// text for text.
pub proof fn lemma_output_is_reproducible(
    first: Seq<Item>,
    second: Seq<Item>,
    index_type: Option<Type>,
    invert_match: bool,
    target: Seq<Seq<char>>,
    index: Seq<Seq<char>>,
)
    requires
        first == output(index_type, invert_match, target, index),
        second == output(index_type, invert_match, target, index),
    ensures
        first == second,
{
}

/// Whether `items` is a selection of `lines`: some of the lines, each as it
/// stands there and in the order of `lines`, with nothing behind a failure.
pub open spec fn is_selection(items: Seq<Item>, lines: Seq<Seq<char>>) -> bool
    decreases items.len() + lines.len(),
{
    if items.len() == 0 {
        true
    } else if items[0] is Err {
        items.len() == 1
    } else if lines.len() == 0 {
        false
    } else {
        ||| items[0] == Ok::<Seq<char>, SelectErrorView>(lines[0]) && is_selection(
            items.drop_first(),
            lines.drop_first(),
        )
        ||| is_selection(items, lines.drop_first())
    }
}

/// The lines that may still be yielded: the target line that is judged or
/// about to be yielded, and the lines of the target that were not read.
spec fn in_play(state: State, step: StepView, target: Seq<Seq<char>>) -> Seq<Seq<char>> {
    match step {
        StepView::Index => seq![state.pending()] + target,
        StepView::Yield(Ok(line)) => seq![line] + target,
        _ => target,
    }
}

/// What is still to come is a selection of the lines in play.
proof fn lemma_output_from_is_a_selection(
    state: State,
    step: StepView,
    target: Seq<Seq<char>>,
    index: Seq<Seq<char>>,
)
    requires
        step matches StepView::Yield(Err(_)) ==> state.eoi,
        step is Index ==> state.waiting is Index,
    ensures
        is_selection(output_from(state, step, target, index), in_play(state, step, target)),
    decreases target.len() + index.len(), rank(step),
{
    let items = output_from(state, step, target, index);
    match step {
        StepView::End => {},
        StepView::Yield(item) => {
            let (next, answer) = state.next();
            lemma_output_from_is_a_selection(next, answer, target, index);
            let rest = output_from(next, answer, target, index);
            assert(items.drop_first() =~= rest);
            if let Ok(line) = item {
                assert((seq![line] + target).drop_first() =~= target);
            }
        },
        StepView::Target => {
            let (next, answer) = state.target(read(target));
            lemma_output_from_is_a_selection(next, answer, after_read(target), index);
            if target.len() > 0 {
                let line = target[0];
                let left = target.drop_first();
                assert(seq![line] + left =~= target);
                lemma_selection_may_pass(items, line, left);
            }
        },
        StepView::Index => {
            let (next, answer) = state.index(read(index));
            lemma_output_from_is_a_selection(next, answer, target, after_read(index));
            lemma_selection_may_pass(items, state.pending(), target);
        },
    }
}

/// A selection of some lines is a selection of these lines with one more
/// before them.
proof fn lemma_selection_may_pass(items: Seq<Item>, line: Seq<char>, lines: Seq<Seq<char>>)
    requires
        is_selection(items, lines) || is_selection(items, seq![line] + lines),
    ensures
        is_selection(items, seq![line] + lines),
{
    assert((seq![line] + lines).drop_first() =~= lines);
}

/// The output is a selection of the target: its lines are lines of the
/// target, each as it was read and in the order of the target, and a failure
/// is the last item.
pub proof fn lemma_output_is_a_selection(
    index_type: Option<Type>,
    invert_match: bool,
    target: Seq<Seq<char>>,
    index: Seq<Seq<char>>,
)
    ensures
        is_selection(output(index_type, invert_match, target, index), target),
{
    let (state, step) = State::new(index_type, invert_match).next();
    lemma_output_from_is_a_selection(state, step, target, index);
}

} // verus!
