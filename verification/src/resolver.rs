//! A guessing session: a hidden target, and the lines of input judged against
//! it one by one until a guess hits it.

use crate::chance::gen_range;
use crate::guess::{evaluate, guess_of, lemma_written_number_is_read, outcome_of, parse, Outcome};
use crate::numeral::{decimal_text, is_numeral, ParseError};
use crate::text::trimmed;
use vstd::prelude::*;

verus! {

/// The smallest target a session can have.
pub const LOWEST: u32 = 1;

/// The largest target a session can have.
pub const HIGHEST: u32 = 100;

/// Whether `target` lies in the range that targets are drawn from.
pub open spec fn valid_target(target: int) -> bool {
    LOWEST <= target <= HIGHEST
}

/// Where a session stands between two lines of input.
#[derive(Clone, Copy, Debug, PartialEq, Eq, Structural)]
pub enum State {
    /// The session waits for the next line.
    AwaitingInput,
    /// The target was guessed: the session is over and takes no more input.
    Terminal,
}

/// What became of one line of input.
#[derive(Clone, Copy, Debug, PartialEq, Eq, Structural)]
pub enum Step {
    /// The line held no guess. Nothing was judged, and nothing is to be said
    /// but the next prompt.
    Rejected(ParseError),
    /// The line held a guess, which stands to the target as given.
    Judged(Outcome),
}

/// The input gave no further line, so the session cannot go on.
#[derive(Clone, Copy, Debug, PartialEq, Eq, Structural)]
pub struct InputReadFailure;

/// How a session went over a finite input.
pub struct Report {
    /// What became of each line that the session looked at, in order.
    pub steps: Vec<Step>,
    /// `Ok` where a guess hit the target; the failure where the lines ran out
    /// before one did.
    pub end: Result<(), InputReadFailure>,
}

/// A session as contracts see it.
pub struct SessionView {
    pub target: u32,
    pub state: State,
}

/// A session. The target is fixed when the session is made and cannot be read
/// from outside.
pub struct GuessResolver {
    target: u32,
    state: State,
}

impl View for GuessResolver {
    type V = SessionView;

    closed spec fn view(&self) -> SessionView {
        SessionView { target: self.target, state: self.state }
    }
}

/// The session after the line `raw`, and what became of the line: `None` where
/// the session was over already and the line was not looked at.
pub open spec fn step(s: SessionView, raw: Seq<char>) -> (SessionView, Option<Step>) {
    match s.state {
        State::Terminal => (s, None),
        State::AwaitingInput => match guess_of(raw) {
            Err(e) => (s, Some(Step::Rejected(e))),
            Ok(guess) => {
                let outcome = outcome_of(guess as int, s.target as int);
                let state = if outcome == Outcome::Equal {
                    State::Terminal
                } else {
                    State::AwaitingInput
                };
                (SessionView { target: s.target, state }, Some(Step::Judged(outcome)))
            },
        },
    }
}

/// The session after the lines `inputs`, taken in order.
pub open spec fn run(s: SessionView, inputs: Seq<Seq<char>>) -> SessionView
    decreases inputs.len(),
{
    if inputs.len() == 0 {
        s
    } else {
        step(run(s, inputs.drop_last()), inputs.last()).0
    }
}

/// What became of each of the lines `inputs` that the session looked at, in
/// order: those up to and including the first that hit the target.
pub open spec fn transcript(s: SessionView, inputs: Seq<Seq<char>>) -> Seq<Step>
    decreases inputs.len(),
{
    if inputs.len() == 0 {
        Seq::empty()
    } else {
        let before = transcript(s, inputs.drop_last());
        match step(run(s, inputs.drop_last()), inputs.last()).1 {
            Some(done) => before.push(done),
            None => before,
        }
    }
}

/// The words that tell a player how a guess stood to the target.
pub open spec fn words_for(outcome: Outcome) -> Seq<char> {
    match outcome {
        Outcome::Less => "Too small!"@,
        Outcome::Greater => "Too big!"@,
        Outcome::Equal => "You win!"@,
    }
}

/// The line that opens a session.
pub fn banner() -> (text: &'static str)
    ensures
        text@ == "Guess the number!"@,
{
    "Guess the number!"
}

/// The line that asks for the next guess.
pub fn prompt() -> (text: &'static str)
    ensures
        text@ == "please input your guess."@,
{
    "please input your guess."
}

/// What to tell the player of a line that was taken: the words for the
/// outcome of a guess, and nothing for a line that held none.
pub fn feedback(done: Step) -> (text: Option<&'static str>)
    ensures
        done is Rejected ==> text is None,
        done matches Step::Judged(outcome) ==> text is Some && text->0@ == words_for(outcome),
{
    match done {
        Step::Rejected(_) => None,
        Step::Judged(Outcome::Less) => Some("Too small!"),
        Step::Judged(Outcome::Greater) => Some("Too big!"),
        Step::Judged(Outcome::Equal) => Some("You win!"),
    }
}

impl GuessResolver {
    /// Whether the target lies in the range.
    pub open spec fn wf(&self) -> bool {
        valid_target(self@.target as int)
    }

    /// A session with the given target, waiting for its first line; `None`
    /// where the target is out of range.
    pub fn with_target(target: u32) -> (r: Option<GuessResolver>)
        ensures
            valid_target(target as int) ==> r is Some && r->0@ == (SessionView {
                target,
                state: State::AwaitingInput,
            }),
            !valid_target(target as int) ==> r is None,
    {
        if LOWEST <= target && target <= HIGHEST {
            Some(GuessResolver { target, state: State::AwaitingInput })
        } else {
            None
        }
    }

    /// A session with a target drawn at random from the range, waiting for
    /// its first line.
    pub fn initialize() -> (r: GuessResolver)
        ensures
            r.wf(),
            r@.state == State::AwaitingInput,
    {
        let mut rng = rand::thread_rng();
        let drawn: u32 = gen_range(&mut rng, LOWEST, HIGHEST + 1);
        GuessResolver::with_target(drawn).unwrap()
    }

    /// Where the session stands.
    pub fn state(&self) -> (state: State)
        ensures
            state == self@.state,
    {
        self.state
    }

    /// Takes one line of input. A line that holds no guess is rejected and
    /// leaves the session as it was. A guess is judged against the target: one
    /// that misses leaves the session waiting, the one that hits ends it. A
    /// session that is over does not look at the line and gives `None`.
    pub fn submit(&mut self, raw: &str) -> (done: Option<Step>)
        ensures
            (final(self)@, done) == step(old(self)@, raw@),
    {
        match self.state {
            State::Terminal => None,
            State::AwaitingInput => match parse(raw) {
                Err(e) => Some(Step::Rejected(e)),
                Ok(guess) => {
                    let outcome = evaluate(guess, self.target);
                    match outcome {
                        Outcome::Equal => {
                            self.state = State::Terminal;
                        },
                        _ => {},
                    }
                    Some(Step::Judged(outcome))
                },
            },
        }
    }

    /// Runs the session over a finite input: takes the lines of `lines` in
    /// order until one hits the target. Where none is left before that, the
    /// input has failed.
    pub fn run_session(&mut self, lines: &Vec<String>) -> (report: Report)
        ensures
            final(self)@ == run(old(self)@, lines.deep_view()),
            report.steps@ == transcript(old(self)@, lines.deep_view()),
            report.end == if final(self)@.state == State::Terminal {
                Ok::<(), InputReadFailure>(())
            } else {
                Err::<(), InputReadFailure>(InputReadFailure)
            },
    {
        let ghost first = self@;
        let ghost inputs = lines.deep_view();
        let mut steps: Vec<Step> = Vec::new();
        let mut i: usize = 0;
        while i < lines.len() && self.state == State::AwaitingInput
            invariant
                i <= lines.len(),
                inputs == lines.deep_view(),
                self@ == run(first, inputs.take(i as int)),
                steps@ == transcript(first, inputs.take(i as int)),
            decreases lines.len() - i,
        {
            proof {
                assert(inputs.take(i + 1).drop_last() =~= inputs.take(i as int));
                assert(inputs.take(i + 1).last() == lines@[i as int]@);
            }
            match self.submit(lines[i].as_str()) {
                Some(done) => {
                    steps.push(done);
                },
                None => {},
            }
            i += 1;
        }
        proof {
            if i < lines.len() {
                lemma_over_stays_over(first, inputs, i as int);
            } else {
                assert(inputs.take(i as int) =~= inputs);
            }
        }
        let end = match self.state {
            State::Terminal => Ok(()),
            State::AwaitingInput => Err(InputReadFailure),
        };
        Report { steps, end }
    }
}

/// Once a session is over, further lines change neither the session nor what
/// is told of it.
pub proof fn lemma_over_stays_over(s: SessionView, inputs: Seq<Seq<char>>, n: int)
    requires
        0 <= n <= inputs.len(),
        run(s, inputs.take(n)).state == State::Terminal,
    ensures
        run(s, inputs) == run(s, inputs.take(n)),
        transcript(s, inputs) == transcript(s, inputs.take(n)),
    decreases inputs.len(),
{
    if n == inputs.len() {
        assert(inputs.take(n) =~= inputs);
    } else {
        let shorter = inputs.drop_last();
        assert(shorter.take(n) =~= inputs.take(n));
        lemma_over_stays_over(s, shorter, n);
    }
}

/// The target of a session never changes, whatever lines it is given.
pub proof fn lemma_target_is_fixed(s: SessionView, inputs: Seq<Seq<char>>)
    ensures
        run(s, inputs).target == s.target,
    decreases inputs.len(),
{
    if inputs.len() > 0 {
        lemma_target_is_fixed(s, inputs.drop_last());
    }
}

/// A line that is no numeral once trimmed holds no guess, and a session that
/// waits for input still waits after it, unchanged.
pub proof fn lemma_malformed_line_is_rejected(s: SessionView, raw: Seq<char>)
    requires
        !is_numeral(trimmed(raw)),
    ensures
        guess_of(raw) == Err::<u32, ParseError>(ParseError::Malformed),
        s.state == State::AwaitingInput ==> step(s, raw) == (
            s,
            Some(Step::Rejected(ParseError::Malformed)),
        ),
{
}

/// Lines that hold no guess, however many, leave the session as it was, and
/// each of them that was looked at is told as rejected: none is judged.
pub proof fn lemma_rejections_change_nothing(s: SessionView, inputs: Seq<Seq<char>>)
    requires
        forall|i: int| 0 <= i < inputs.len() ==> (#[trigger] guess_of(inputs[i])) is Err,
    ensures
        run(s, inputs) == s,
        transcript(s, inputs).len() == if s.state == State::AwaitingInput {
            inputs.len()
        } else {
            0
        },
        forall|i: int|
            0 <= i < transcript(s, inputs).len() ==> #[trigger] transcript(s, inputs)[i]
                == Step::Rejected(guess_of(inputs[i])->Err_0),
    decreases inputs.len(),
{
    if inputs.len() > 0 {
        let shorter = inputs.drop_last();
        assert forall|i: int| 0 <= i < shorter.len() implies (#[trigger] guess_of(
            shorter[i],
        )) is Err by {
            assert(shorter[i] == inputs[i]);
        }
        lemma_rejections_change_nothing(s, shorter);
        assert(guess_of(inputs[inputs.len() - 1]) is Err);
        assert forall|i: int| 0 <= i < transcript(s, inputs).len() implies #[trigger] transcript(
            s,
            inputs,
        )[i] == Step::Rejected(guess_of(inputs[i])->Err_0) by {
            if i < transcript(s, shorter).len() {
                assert(shorter[i] == inputs[i]);
            }
        }
    }
}

/// Every session that waits for input can be ended: the line that writes its
/// target in base 10 hits it.
pub proof fn lemma_target_can_be_hit(s: SessionView)
    requires
        s.state == State::AwaitingInput,
    ensures
        step(s, decimal_text(s.target as nat)) == (
            SessionView { target: s.target, state: State::Terminal },
            Some(Step::Judged(Outcome::Equal)),
        ),
{
    lemma_written_number_is_read(s.target);
}

/// The two ends of the range, written out, are read as the guesses 1 and 100,
/// and each is judged rightly against every target in the range: 1 is the
/// target or below it, 100 is the target or above it.
pub proof fn lemma_range_ends_are_judged(s: SessionView)
    requires
        s.state == State::AwaitingInput,
        valid_target(s.target as int),
    ensures
        guess_of(seq!['1']) == Ok::<u32, ParseError>(1),
        guess_of(seq!['1', '0', '0']) == Ok::<u32, ParseError>(100),
        step(s, seq!['1']).1 == Some(
            Step::Judged(
                if s.target == 1 {
                    Outcome::Equal
                } else {
                    Outcome::Less
                },
            ),
        ),
        step(s, seq!['1', '0', '0']).1 == Some(
            Step::Judged(
                if s.target == 100 {
                    Outcome::Equal
                } else {
                    Outcome::Greater
                },
            ),
        ),
{
    lemma_written_number_is_read(1);
    lemma_written_number_is_read(100);
    assert(decimal_text(1) =~= seq!['1']);
    assert(decimal_text(100) =~= seq!['1', '0', '0']) by {
        reveal_with_fuel(decimal_text, 3);
    }
}

/// As long as no line holds the target, the session waits for input.
pub proof fn lemma_no_hit_no_end(s: SessionView, inputs: Seq<Seq<char>>)
    requires
        s.state == State::AwaitingInput,
        forall|i: int| 0 <= i < inputs.len() ==> #[trigger] guess_of(inputs[i]) != Ok::<
            u32,
            ParseError,
        >(s.target),
    ensures
        run(s, inputs) == s,
        transcript(s, inputs).len() == inputs.len(),
        forall|i: int|
            0 <= i < inputs.len() ==> #[trigger] transcript(s, inputs)[i] != Step::Judged(
                Outcome::Equal,
            ),
    decreases inputs.len(),
{
    if inputs.len() > 0 {
        let shorter = inputs.drop_last();
        assert forall|i: int| 0 <= i < shorter.len() implies #[trigger] guess_of(shorter[i])
            != Ok::<u32, ParseError>(s.target) by {
            assert(shorter[i] == inputs[i]);
        }
        lemma_no_hit_no_end(s, shorter);
        assert(guess_of(inputs[inputs.len() - 1]) != Ok::<u32, ParseError>(s.target));
    }
}

/// A session ends with the first line that holds the target, and not before:
/// it waits for input after each earlier line, is over after that line and
/// stays so, and the last thing told of it is the hit.
pub proof fn lemma_ends_at_first_hit(s: SessionView, inputs: Seq<Seq<char>>, hit: int)
    requires
        s.state == State::AwaitingInput,
        0 <= hit < inputs.len(),
        guess_of(inputs[hit]) == Ok::<u32, ParseError>(s.target),
        forall|i: int| 0 <= i < hit ==> #[trigger] guess_of(inputs[i]) != Ok::<u32, ParseError>(
            s.target,
        ),
    ensures
        forall|n: int| 0 <= n <= hit ==> (#[trigger] run(s, inputs.take(n))).state
            == State::AwaitingInput,
        forall|n: int| hit < n <= inputs.len() ==> (#[trigger] run(s, inputs.take(n))).state
            == State::Terminal,
        run(s, inputs) == (SessionView { target: s.target, state: State::Terminal }),
        transcript(s, inputs).len() == hit + 1,
        transcript(s, inputs)[hit] == Step::Judged(Outcome::Equal),
        forall|i: int|
            0 <= i < hit ==> #[trigger] transcript(s, inputs)[i] != Step::Judged(Outcome::Equal),
{
    let upto = inputs.take(hit + 1);
    let before = inputs.take(hit);
    assert(upto.drop_last() =~= before);
    assert(upto.last() == inputs[hit]);
    assert forall|i: int| 0 <= i < before.len() implies #[trigger] guess_of(before[i]) != Ok::<
        u32,
        ParseError,
    >(s.target) by {
        assert(before[i] == inputs[i]);
    }
    lemma_no_hit_no_end(s, before);
    assert(run(s, upto).state == State::Terminal);
    assert(transcript(s, upto) == transcript(s, before).push(Step::Judged(Outcome::Equal)));
    lemma_over_stays_over(s, inputs, hit + 1);
    assert forall|n: int| 0 <= n <= hit implies (#[trigger] run(s, inputs.take(n))).state
        == State::AwaitingInput by {
        let prefix = inputs.take(n);
        assert forall|i: int| 0 <= i < prefix.len() implies #[trigger] guess_of(prefix[i])
            != Ok::<u32, ParseError>(s.target) by {
            assert(prefix[i] == inputs[i]);
        }
        lemma_no_hit_no_end(s, prefix);
    }
    assert forall|n: int| hit < n <= inputs.len() implies (#[trigger] run(
        s,
        inputs.take(n),
    )).state == State::Terminal by {
        let prefix = inputs.take(n);
        assert(prefix.take(hit + 1) =~= upto);
        lemma_over_stays_over(s, prefix, hit + 1);
    }
}

} // verus!
