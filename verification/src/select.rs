//! The selection engine.
//!
//! The engine goes through the target and the index in one pass and yields the
//! selected target lines. It reads nothing itself. Whoever drives it reads the
//! two streams for it, one line at a time and only when asked:
//!
//! 1. [`Select::next`] asks for the next item of the output.
//! 2. Each call answers with a [`Step`]. [`Step::Target`] and [`Step::Index`]
//!    ask for the next line of that stream: the driver reads it and hands what
//!    came back, an [`Input`], to [`Select::target`] or [`Select::index`].
//! 3. [`Step::Yield`] is the next item, and [`Step::End`] the end of the
//!    output.
//!
//! The three calls are to be made in turn, and each may raise a line counter
//! by one: a caller that is verified shows both. [`Select::step`] is for a
//! caller that is not: it makes the call that is due, and refuses what is not.
//!
//! What the engine does is stated on [`State`], the view of a [`Select`]: one
//! spec function for each call, from the state and what was read to the next
//! state and the step.

use crate::index::Type;
use crate::lineparse::{range, spec_range, spec_refusal, spec_rejection, ParseError};
use crate::text::{decimal, decimal_spec, rstrip, rstrip_spec};
use vstd::prelude::*;

verus! {

/// Why the engine gave up. Either failure ends the output.
#[derive(Debug, PartialEq)]
pub enum SelectError {
    /// A read from the target or from the index failed.
    Io(String),
    /// A line of a numeric index is no range expression.
    Parse(String),
}

/// A [`SelectError`] with its text as a sequence of characters.
pub enum SelectErrorView {
    Io(Seq<char>),
    Parse(Seq<char>),
}

impl SelectErrorView {
    /// The failure as a text for a reader.
    pub open spec fn message(self) -> Seq<char> {
        match self {
            SelectErrorView::Io(detail) => "IO ("@ + detail + ")"@,
            SelectErrorView::Parse(detail) => "Parse ("@ + detail + ")"@,
        }
    }
}

impl View for SelectError {
    type V = SelectErrorView;

    open spec fn view(&self) -> SelectErrorView {
        match self {
            SelectError::Io(detail) => SelectErrorView::Io(detail@),
            SelectError::Parse(detail) => SelectErrorView::Parse(detail@),
        }
    }
}

impl SelectError {
    /// The failure as a text for a reader.
    pub fn to_string(&self) -> (s: String)
        ensures
            s@ == self@.message(),
    {
        match self {
            SelectError::Io(detail) => String::from_str("IO (").concat(detail.as_str()).concat(
                ")",
            ),
            SelectError::Parse(detail) => String::from_str("Parse (").concat(
                detail.as_str(),
            ).concat(")"),
        }
    }
}

/// What came of one attempt to read the next line of a stream.
#[derive(Debug, PartialEq)]
pub enum Input {
    /// A line, with the terminator that ended it in the stream.
    Line(String),
    /// The stream has ended.
    End,
    /// The read failed; the text says how.
    Failure(String),
}

/// An [`Input`] with its text as a sequence of characters.
pub enum InputView {
    Line(Seq<char>),
    End,
    Failure(Seq<char>),
}

impl View for Input {
    type V = InputView;

    open spec fn view(&self) -> InputView {
        match self {
            Input::Line(line) => InputView::Line(line@),
            Input::End => InputView::End,
            Input::Failure(detail) => InputView::Failure(detail@),
        }
    }
}

/// What the engine answers to a call.
#[derive(Debug, PartialEq)]
pub enum Step {
    /// The engine needs the next line of the target, by [`Select::target`].
    Target,
    /// The engine needs the next line of the index, by [`Select::index`].
    Index,
    /// The next item of the output: a selected target line as it was read,
    /// or the failure that ends the output.
    Yield(Result<String, SelectError>),
    /// The output has ended.
    End,
}

/// A [`Step`] with its text as a sequence of characters.
pub enum StepView {
    Target,
    Index,
    Yield(Result<Seq<char>, SelectErrorView>),
    End,
}

/// An item of the output with its text as a sequence of characters.
pub open spec fn item_view(item: Result<String, SelectError>) -> Result<
    Seq<char>,
    SelectErrorView,
> {
    match item {
        Ok(line) => Ok(line@),
        Err(e) => Err(e@),
    }
}

/// What was read, if anything was, with its text as a sequence of
/// characters.
pub open spec fn read_view(input: Option<Input>) -> Option<InputView> {
    match input {
        Some(read) => Some(read@),
        None => None,
    }
}

impl View for Step {
    type V = StepView;

    open spec fn view(&self) -> StepView {
        match self {
            Step::Target => StepView::Target,
            Step::Index => StepView::Index,
            Step::Yield(item) => StepView::Yield(item_view(*item)),
            Step::End => StepView::End,
        }
    }
}

/// Whose turn it is: who is to make the next call, and which.
#[derive(Debug, Clone, Copy, PartialEq, Eq, Structural)]
pub enum Turn {
    /// The consumer's, by [`Select::next`].
    Consumer,
    /// The driver's, with what a read of the target gave, by
    /// [`Select::target`].
    Target,
    /// The driver's, with what a read of the index gave, by
    /// [`Select::index`].
    Index,
}

/// For whom the engine waits.
pub enum Waiting {
    /// For the consumer, to ask for the next item.
    Consumer,
    /// For the next line of the target.
    Target,
    /// For the next line of the index. It is to judge the target line held
    /// here, which was read last.
    Index(Seq<char>),
}

impl Waiting {
    /// Whose turn it is.
    pub open spec fn turn(self) -> Turn {
        match self {
            Waiting::Consumer => Turn::Consumer,
            Waiting::Target => Turn::Target,
            Waiting::Index(_) => Turn::Index,
        }
    }
}

/// The diagnostic for an index line that is no range expression: the numbers
/// of the target line and of the index line, the index line without its
/// terminator, and the refusal of the grammar.
pub open spec fn spec_parse_failure(target: u32, index: u32, line: Seq<char>) -> Seq<char> {
    "Number|target="@ + decimal_spec(target as nat) + "|index="@ + decimal_spec(index as nat)
        + "|line="@ + line + "|result="@ + spec_refusal(spec_rejection(line), line)
}

/// Writes the diagnostic for the index line `line`, which the grammar has
/// refused with `refusal`.
fn parse_failure(target: u32, index: u32, line: &str, refusal: &ParseError) -> (detail: String)
    requires
        refusal.input@ == line@,
        refusal.kind == spec_rejection(line@),
    ensures
        detail@ == spec_parse_failure(target, index, line@),
{
    String::from_str("Number|target=").concat(decimal(target).as_str()).concat("|index=").concat(
        decimal(index).as_str(),
    ).concat("|line=").concat(line).concat("|result=").concat(refusal.to_string().as_str())
}

/// The state of the engine.
pub struct State {
    /// The predicate in force. For an index that is matched by content it is
    /// the regular expression, from the start to the end. For a numeric index
    /// it is the range that was read last, or `None` when the next one is yet
    /// to be read.
    pub index_type: Option<Type>,
    /// Whether the lines that the index does not select are the output.
    pub invert_match: bool,
    /// How many reads of the target were asked for.
    pub target_stream_linum: u32,
    /// How many reads of the index were asked for.
    pub index_stream_linum: u32,
    /// Whether the output has ended.
    pub eoi: bool,
    /// For whom the engine waits.
    pub waiting: Waiting,
}

impl State {
    /// The start: nothing read, nothing asked for.
    pub open spec fn new(index_type: Option<Type>, invert_match: bool) -> State {
        State {
            index_type,
            invert_match,
            target_stream_linum: 0,
            index_stream_linum: 0,
            eoi: false,
            waiting: Waiting::Consumer,
        }
    }

    /// Whether both line counters can still be raised.
    pub open spec fn has_room(self) -> bool {
        self.target_stream_linum < u32::MAX && self.index_stream_linum < u32::MAX
    }

    /// Ends the output, for good.
    pub open spec fn disable(self) -> State {
        State { eoi: true, waiting: Waiting::Consumer, ..self }
    }

    /// Yields the target line `line`.
    pub open spec fn accept(self, line: Seq<char>) -> (State, StepView) {
        (State { waiting: Waiting::Consumer, ..self }, StepView::Yield(Ok(line)))
    }

    /// Drops the target line under judgement and goes on to the next: counts
    /// the read and asks for it.
    pub open spec fn advance(self) -> (State, StepView) {
        (
            State {
                target_stream_linum: (self.target_stream_linum + 1) as u32,
                waiting: Waiting::Target,
                ..self
            },
            StepView::Target,
        )
    }

    /// Counts a read of the index and asks for it, to judge the target line
    /// `line`.
    pub open spec fn consult(self, line: Seq<char>) -> (State, StepView) {
        (
            State {
                index_stream_linum: (self.index_stream_linum + 1) as u32,
                waiting: Waiting::Index(line),
                ..self
            },
            StepView::Index,
        )
    }

    /// Judges the target line `line`, whose number is the target counter, as
    /// far as that goes without a read. A range that lies wholly before the
    /// line is dropped, and the next one is asked for. A range that is still
    /// in play decides. Without a range, and with a regular expression, the
    /// index is read.
    pub open spec fn select(self, line: Seq<char>) -> (State, StepView) {
        match self.index_type {
            Some(Type::Number(r)) => {
                let predicate = Type::Number(r);
                if predicate.upper() < self.target_stream_linum {
                    State { index_type: None, ..self }.consult(line)
                } else if predicate.selects(self.target_stream_linum, Seq::empty())
                    != self.invert_match {
                    self.accept(line)
                } else {
                    self.advance()
                }
            },
            _ => self.consult(line),
        }
    }

    /// The consumer asks for the next item: nothing more once the output has
    /// ended, else the next target line is asked for.
    pub open spec fn next(self) -> (State, StepView) {
        if self.eoi {
            (self, StepView::End)
        } else {
            self.advance()
        }
    }

    /// The read of the target gave `input`. A failure is the last item. The
    /// end of the target ends the output, and is no failure. A line is judged.
    pub open spec fn target(self, input: InputView) -> (State, StepView) {
        match input {
            InputView::Failure(detail) => (
                self.disable(),
                StepView::Yield(Err(SelectErrorView::Io(detail))),
            ),
            InputView::End => (self.disable(), StepView::End),
            InputView::Line(line) => self.select(line),
        }
    }

    /// The call that answers to what the engine waits for, if `input` is the
    /// answer: no input for the consumer, the input of a read for the driver.
    /// `None` where it is not, and where a line counter that the call may
    /// raise is at its greatest: then nothing is done.
    pub open spec fn step(self, input: Option<InputView>) -> Option<(State, StepView)> {
        match (self.waiting, input) {
            (Waiting::Consumer, None) if self.eoi || self.has_room() => Some(self.next()),
            (Waiting::Target, Some(read)) if self.has_room() => Some(self.target(read)),
            (Waiting::Index(_), Some(read)) if self.has_room() => Some(self.index(read)),
            _ => None,
        }
    }

    /// The target line that the index is asked about, or the empty text while
    /// there is none.
    pub open spec fn pending(self) -> Seq<char> {
        match self.waiting {
            Waiting::Index(line) => line,
            _ => Seq::empty(),
        }
    }

    /// The read of the index gave `input`, to judge the pending target line.
    ///
    /// A failure is the last item. Where the index has ended, every target
    /// line that is left is selected if the selection is inverted, and none
    /// is, so that the output ends, if it is not.
    ///
    /// A line loses its terminator first. A regular expression selects the
    /// pending target line where it matches the index line. For a numeric
    /// index an empty line is passed over, a range expression becomes the
    /// predicate that judges the pending target line, and any other line is a
    /// failure, the last item.
    pub open spec fn index(self, input: InputView) -> (State, StepView) {
        let line = self.pending();
        match input {
            InputView::Failure(detail) => (
                self.disable(),
                StepView::Yield(Err(SelectErrorView::Io(detail))),
            ),
            InputView::End => if self.invert_match {
                self.accept(line)
            } else {
                (self.disable(), StepView::End)
            },
            InputView::Line(raw) => {
                let text = rstrip_spec(raw);
                match self.index_type {
                    Some(Type::Re(re)) => if Type::Re(re).selects(0, text) != self.invert_match {
                        self.accept(line)
                    } else {
                        self.advance()
                    },
                    _ => if text.len() == 0 {
                        self.consult(line)
                    } else {
                        match spec_range(text) {
                            Some((r, _)) => State {
                                index_type: Some(Type::Number(r)),
                                ..self
                            }.select(line),
                            None => (
                                self.disable(),
                                StepView::Yield(
                                    Err(
                                        SelectErrorView::Parse(
                                            spec_parse_failure(
                                                self.target_stream_linum,
                                                self.index_stream_linum,
                                                text,
                                            ),
                                        ),
                                    ),
                                ),
                            ),
                        }
                    },
                }
            },
        }
    }
}

impl State {
    /// Whether the index is matched by content, with a regular expression.
    pub open spec fn by_content(self) -> bool {
        self.index_type matches Some(Type::Re(_))
    }

    /// What holds of every state that the engine reaches from the start.
    ///
    /// Once the output has ended the engine waits for the consumer alone. The
    /// index is not asked while a range is in force. The target counter is not
    /// behind the index counter where the index is matched by content, and is
    /// ahead of it while a target line is asked for: the index is never read
    /// further than the target.
    pub open spec fn inv(self) -> bool {
        &&& self.eoi ==> self.waiting is Consumer
        &&& self.waiting is Index ==> !(self.index_type matches Some(Type::Number(_)))
        &&& self.by_content() ==> self.index_stream_linum <= self.target_stream_linum
        &&& self.by_content() && self.waiting is Target ==> self.index_stream_linum
            < self.target_stream_linum
    }

    /// Whether `step` asks for what the engine waits for.
    pub open spec fn asks(self, step: StepView) -> bool {
        &&& step is Target <==> self.waiting is Target
        &&& step is Index <==> self.waiting is Index
        &&& step is Yield || step is End <==> self.waiting is Consumer
    }
}

/// Each answer names what the engine then waits for: a driver that does what
/// the steps ask meets the precondition of its next call.
pub proof fn lemma_step_names_the_wait(s: State, input: InputView)
    requires
        s.inv(),
    ensures
        s.next().0.asks(s.next().1),
        s.target(input).0.asks(s.target(input).1),
        s.index(input).0.asks(s.index(input).1),
{
}

/// The invariant holds at the start, and each call keeps it.
pub proof fn lemma_inv_is_kept(
    s: State,
    input: InputView,
    index_type: Option<Type>,
    invert_match: bool,
)
    requires
        s.inv(),
        s.has_room(),
    ensures
        State::new(index_type, invert_match).inv(),
        s.waiting is Consumer ==> s.next().0.inv(),
        s.waiting is Target ==> s.target(input).0.inv(),
        s.waiting is Index ==> s.index(input).0.inv(),
{
}

/// The end is final: once the output has ended, the answer to the consumer
/// is the end again and nothing changes, and no call takes the end back.
pub proof fn lemma_end_is_final(s: State, input: InputView)
    requires
        s.eoi,
    ensures
        s.next() == (s, StepView::End),
        s.target(input).0.eoi,
        s.index(input).0.eoi,
{
}

/// The output ends with the step that says so, and with a failure: after
/// either the engine is disabled.
pub proof fn lemma_failure_ends_the_output(s: State, input: InputView)
    ensures
        s.next().1 is End ==> s.next().0.eoi,
        (s.target(input).1 is End || s.target(input).1 matches StepView::Yield(Err(_)))
            ==> s.target(input).0.eoi,
        (s.index(input).1 is End || s.index(input).1 matches StepView::Yield(Err(_)))
            ==> s.index(input).0.eoi,
{
}

/// A line that is yielded is the target line that was read last, as it was
/// read.
pub proof fn lemma_yield_is_the_target_line(s: State, input: InputView)
    ensures
        !(s.next().1 is Yield),
        s.target(input).1 matches StepView::Yield(Ok(line)) ==> input == InputView::Line(line),
        s.index(input).1 matches StepView::Yield(Ok(line)) ==> line == s.pending(),
{
}

/// Where the index is matched by content it stays so, with the same regular
/// expression, and it is read once for each target line that was read and
/// at no other time: no line of the index is read beyond the end of the
/// target.
pub proof fn lemma_content_index_keeps_pace(s: State, input: InputView)
    requires
        s.by_content(),
    ensures
        s.next().0.index_type == s.index_type,
        s.target(input).0.index_type == s.index_type,
        s.index(input).0.index_type == s.index_type,
        !(s.next().1 is Index),
        s.target(input).1 is Index <==> input is Line,
        !(s.index(input).1 is Index),
{
}

/// A numeric index stays numeric: no call brings a regular expression.
pub proof fn lemma_numeric_index_stays_numeric(s: State, input: InputView)
    requires
        !s.by_content(),
    ensures
        !s.next().0.by_content(),
        !s.target(input).0.by_content(),
        !s.index(input).0.by_content(),
{
}

/// The end of the index under inversion: the pending target line is
/// yielded, and the engine goes on. Without inversion the output ends there,
/// and that is no failure.
pub proof fn lemma_end_of_index(s: State)
    ensures
        s.invert_match ==> s.index(InputView::End) == s.accept(s.pending()),
        !s.invert_match ==> s.index(InputView::End) == (s.disable(), StepView::End),
{
}

/// For whom the engine waits, with the target line under judgement.
#[derive(Debug)]
enum Wait {
    Consumer,
    Target,
    Index(String),
}

impl View for Wait {
    type V = Waiting;

    closed spec fn view(&self) -> Waiting {
        match self {
            Wait::Consumer => Waiting::Consumer,
            Wait::Target => Waiting::Target,
            Wait::Index(line) => Waiting::Index(line@),
        }
    }
}

/// The selection engine. See the module for how to drive it.
#[derive(Debug)]
pub struct Select {
    index_type: Option<Type>,
    invert_match: bool,
    target_stream_linum: u32,
    index_stream_linum: u32,
    /// End of iterator.
    eoi: bool,
    waiting: Wait,
}

impl View for Select {
    type V = State;

    closed spec fn view(&self) -> State {
        State {
            index_type: self.index_type,
            invert_match: self.invert_match,
            target_stream_linum: self.target_stream_linum,
            index_stream_linum: self.index_stream_linum,
            eoi: self.eoi,
            waiting: self.waiting@,
        }
    }
}

impl Select {
    /// An engine at the start. With `Some` regular expression the index is
    /// matched by content, line for line; with `None` it is numeric.
    pub fn new(index_type: Option<Type>, invert_match: bool) -> (s: Select)
        ensures
            s@ == State::new(index_type, invert_match),
            s@.inv(),
    {
        Select {
            index_type,
            invert_match,
            target_stream_linum: 0,
            eoi: false,
            index_stream_linum: 0,
            waiting: Wait::Consumer,
        }
    }

    /// Whether both line counters can still be raised, as each call may do.
    pub fn has_room(&self) -> (b: bool)
        ensures
            b == self@.has_room(),
    {
        self.target_stream_linum < u32::MAX && self.index_stream_linum < u32::MAX
    }

    /// Whose turn it is.
    pub fn turn(&self) -> (t: Turn)
        ensures
            t == self@.waiting.turn(),
    {
        match &self.waiting {
            Wait::Consumer => Turn::Consumer,
            Wait::Target => Turn::Target,
            Wait::Index(_) => Turn::Index,
        }
    }

    /// The number of the target line that was asked for last.
    pub fn target_line(&self) -> (n: u32)
        ensures
            n == self@.target_stream_linum,
    {
        self.target_stream_linum
    }

    /// The number of the index line that was asked for last.
    pub fn index_line(&self) -> (n: u32)
        ensures
            n == self@.index_stream_linum,
    {
        self.index_stream_linum
    }

    /// Disable self as an iterator.
    fn disable(&mut self)
        ensures
            final(self)@ == old(self)@.disable(),
    {
        self.eoi = true;
        self.waiting = Wait::Consumer;
    }

    fn accept(&mut self, line: String) -> (step: Step)
        ensures
            (final(self)@, step@) == old(self)@.accept(line@),
    {
        self.waiting = Wait::Consumer;
        Step::Yield(Ok(line))
    }

    fn advance(&mut self) -> (step: Step)
        requires
            old(self)@.has_room(),
        ensures
            (final(self)@, step@) == old(self)@.advance(),
    {
        self.target_stream_linum = self.target_stream_linum + 1;
        self.waiting = Wait::Target;
        Step::Target
    }

    fn consult(&mut self, line: String) -> (step: Step)
        requires
            old(self)@.has_room(),
        ensures
            (final(self)@, step@) == old(self)@.consult(line@),
    {
        self.index_stream_linum = self.index_stream_linum + 1;
        self.waiting = Wait::Index(line);
        Step::Index
    }

    fn select(&mut self, line: String) -> (step: Step)
        requires
            old(self)@.has_room(),
        ensures
            (final(self)@, step@) == old(self)@.select(line@),
    {
        match self.index_type {
            Some(Type::Number(r)) => {
                let predicate = Type::Number(r);
                // since we have passed the specified range, we will find a new expression
                if predicate.end() < self.target_stream_linum {
                    self.index_type = None;
                    self.consult(line)
                } else if predicate.select(self.target_stream_linum, "") != self.invert_match {
                    self.accept(line)
                } else {
                    self.advance()
                }
            },
            _ => self.consult(line),
        }
    }

    /// Asks for the next item of the output.
    pub fn next(&mut self) -> (step: Step)
        requires
            old(self)@.waiting is Consumer,
            old(self)@.eoi || old(self)@.has_room(),
        ensures
            (final(self)@, step@) == old(self)@.next(),
            old(self)@.inv() ==> final(self)@.inv() && final(self)@.asks(step@),
    {
        if self.eoi {
            return Step::End;
        }
        self.advance()
    }

    /// Makes the call that is due, whichever it is: [`Select::next`] with no
    /// input when it is the consumer's turn, [`Select::target`] or
    /// [`Select::index`] with the input of the read that was asked for.
    /// Answers `None` and does nothing if `input` is not what is due, or if
    /// a line counter that the call may raise is at its greatest.
    pub fn step(&mut self, input: Option<Input>) -> (step: Option<Step>)
        ensures
            match old(self)@.step(read_view(input)) {
                Some((state, answer)) => {
                    &&& final(self)@ == state
                    &&& step matches Some(s) && s@ == answer
                },
                None => final(self)@ == old(self)@ && step is None,
            },
            old(self)@.inv() ==> final(self)@.inv(),
    {
        let room = self.has_room();
        match self.turn() {
            Turn::Consumer => match input {
                None => if self.eoi || room {
                    Some(self.next())
                } else {
                    None
                },
                Some(_) => None,
            },
            Turn::Target => match input {
                Some(read) => if room {
                    Some(self.target(read))
                } else {
                    None
                },
                None => None,
            },
            Turn::Index => match input {
                Some(read) => if room {
                    Some(self.index(read))
                } else {
                    None
                },
                None => None,
            },
        }
    }

    /// Takes what the read of the target gave, after [`Step::Target`].
    pub fn target(&mut self, input: Input) -> (step: Step)
        requires
            old(self)@.waiting is Target,
            old(self)@.has_room(),
        ensures
            (final(self)@, step@) == old(self)@.target(input@),
            old(self)@.inv() ==> final(self)@.inv() && final(self)@.asks(step@),
    {
        match input {
            Input::Failure(detail) => {
                self.disable();
                Step::Yield(Err(SelectError::Io(detail)))
            },
            // EOF of target
            Input::End => {
                self.disable();
                Step::End
            },
            Input::Line(line) => self.select(line),
        }
    }

    /// Takes what the read of the index gave, after [`Step::Index`].
    pub fn index(&mut self, input: Input) -> (step: Step)
        requires
            old(self)@.waiting is Index,
            old(self)@.has_room(),
        ensures
            (final(self)@, step@) == old(self)@.index(input@),
            old(self)@.inv() ==> final(self)@.inv() && final(self)@.asks(step@),
    {
        let mut waiting = Wait::Consumer;
        core::mem::swap(&mut self.waiting, &mut waiting);
        let line = match waiting {
            Wait::Index(line) => line,
            _ => String::new(),
        };
        match input {
            Input::Failure(detail) => {
                self.disable();
                Step::Yield(Err(SelectError::Io(detail)))
            },
            Input::End => {
                if self.invert_match {
                    // invert end of index, accept all lines
                    self.accept(line)
                } else {
                    // ignore lines in the index file that exceed the number of lines in the target file
                    self.disable();
                    Step::End
                }
            },
            Input::Line(raw) => {
                let text = rstrip(raw.as_str());
                let matched = match &self.index_type {
                    Some(predicate) => match predicate {
                        Type::Re(_) => Some(predicate.select(0, text)),
                        Type::Number(_) => None,
                    },
                    None => None,
                };
                match matched {
                    Some(m) => {
                        if m != self.invert_match {
                            self.accept(line)
                        } else {
                            self.advance()
                        }
                    },
                    None => {
                        if text.is_empty() {
                            // ignore empty lines
                            self.consult(line)
                        } else {
                            match range(text) {
                                Err(e) => {
                                    let detail = parse_failure(
                                        self.target_stream_linum,
                                        self.index_stream_linum,
                                        text,
                                        &e,
                                    );
                                    self.disable();
                                    Step::Yield(Err(SelectError::Parse(detail)))
                                },
                                Ok((_, r)) => {
                                    self.index_type = Some(Type::Number(r));
                                    self.select(line)
                                },
                            }
                        }
                    },
                }
            },
        }
    }
}

} // verus!
