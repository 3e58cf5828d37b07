//! The engine over a target and an index that are held in memory, line by
//! line.

use crate::by_content::{content_output, lemma_output_by_content};
use crate::by_number::{in_order, lemma_output_by_number, lemma_output_in_order, listed_output,
    numeric_output};
use crate::index::Type;
use crate::output::{after_read, output, output_from, rank, Item};
use crate::select::{item_view, Input, Select, SelectError, State, Step, StepView};
use vstd::prelude::*;

verus! {

/// The texts of `lines`.
pub open spec fn texts(lines: Seq<String>) -> Seq<Seq<char>> {
    Seq::new(lines.len(), |k: int| lines[k]@)
}

/// The items `items` with their texts as sequences of characters.
pub open spec fn items_view(items: Seq<Result<String, SelectError>>) -> Seq<Item> {
    Seq::new(items.len(), |k: int| item_view(items[k]))
}

/// What holds of the two line counters after `target` lines of the target and
/// `index` lines of the index were read: the target counter is ahead of the
/// lines read by the one read that is asked for or that found the end, and
/// the index counter has been raised once for a line read at most.
spec fn in_step(state: State, step: StepView, target: nat, index: nat) -> bool {
    &&& step is Target <==> state.waiting is Target
    &&& step is Index <==> state.waiting is Index
    &&& state.eoi ==> state.waiting is Consumer
    &&& state.target_stream_linum <= target + 1
    &&& !(state.waiting is Target) && !state.eoi ==> state.target_stream_linum <= target
    &&& state.index_stream_linum <= target + index
}

/// Runs the engine to the end over the lines `target` and the lines `index`,
/// and gives all the items that it yields, in order.
///
/// With a regular expression these are the target lines whose index line it
/// matches. With a numeric index that starts with no range they are the
/// target lines that the first index line not behind them selects, up to the
/// line that the index leaves unjudged or to the failure; where the index is
/// in order, they are the target lines whose number it lists.
pub fn select_lines(
    target: &Vec<String>,
    index: &Vec<String>,
    index_type: Option<Type>,
    invert_match: bool,
) -> (items: Vec<Result<String, SelectError>>)
    requires
        target.len() + index.len() + 1 < u32::MAX,
    ensures
        items_view(items@) == output(index_type, invert_match, texts(target@), texts(index@)),
        index_type matches Some(Type::Re(re)) ==> items_view(items@) == content_output(
            re,
            invert_match,
            texts(target@),
            texts(index@),
            0,
        ),
        index_type is None ==> items_view(items@) == numeric_output(
            invert_match,
            texts(target@),
            texts(index@),
            0,
        ),
        index_type is None && in_order(texts(index@)) ==> items_view(items@) == listed_output(
            invert_match,
            texts(target@),
            texts(index@),
            0,
        ),
{
    let ghost all = output(index_type, invert_match, texts(target@), texts(index@));
    let ghost kind = index_type;
    proof {
        match kind {
            Some(Type::Re(re)) => {
                lemma_output_by_content(re, invert_match, texts(target@), texts(index@));
            },
            Some(Type::Number(_)) => {},
            None => {
                lemma_output_by_number(invert_match, texts(target@), texts(index@));
                if in_order(texts(index@)) {
                    lemma_output_in_order(invert_match, texts(target@), texts(index@));
                }
            },
        }
    }
    let mut engine = Select::new(index_type, invert_match);
    let mut items: Vec<Result<String, SelectError>> = Vec::new();
    let mut t: usize = 0;
    let mut i: usize = 0;
    let mut step = engine.next();
    assert(texts(target@).skip(0) =~= texts(target@));
    assert(texts(index@).skip(0) =~= texts(index@));
    loop
        invariant_except_break
            in_step(engine@, step@, t as nat, i as nat),
            items_view(items@) + output_from(
                engine@,
                step@,
                texts(target@).skip(t as int),
                texts(index@).skip(i as int),
            ) == all,
        invariant
            t <= target.len(),
            i <= index.len(),
            target.len() + index.len() + 1 < u32::MAX,
        ensures
            items_view(items@) == all,
        decreases (target.len() - t) + (index.len() - i), rank(step@),
    {
        let ghost before = items_view(items@);
        let ghost state = engine@;
        let ghost target_left = texts(target@).skip(t as int);
        let ghost index_left = texts(index@).skip(i as int);
        match step {
            Step::End => {
                break ;
            },
            Step::Yield(item) => {
                items.push(item);
                step = engine.next();
            },
            Step::Target => {
                let input = if t < target.len() {
                    t = t + 1;
                    Input::Line(target[t - 1].clone())
                } else {
                    Input::End
                };
                assert(texts(target@).skip(t as int) =~= after_read(target_left));
                step = engine.target(input);
            },
            Step::Index => {
                let input = if i < index.len() {
                    i = i + 1;
                    Input::Line(index[i - 1].clone())
                } else {
                    Input::End
                };
                assert(texts(index@).skip(i as int) =~= after_read(index_left));
                step = engine.index(input);
            },
        }
    }
    items
}

} // verus!
