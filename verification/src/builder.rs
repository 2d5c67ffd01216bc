//! The card-creation workflow as an explicit state machine. One card is
//! built in three stages — questions (mandatory), answers and topics (each
//! behind a yes/no gate) — and each stage collects lines until the
//! sentinel, then asks whether to save or to discard and collect again.
//! The unverified shell reads lines and prints prompts; every decision is
//! taken here, one line at a time.

use vstd::prelude::*;
use crate::text::fold_seq;
use crate::text::trim;
use crate::text::line_matches_keyword;
use crate::card::Card;
use crate::store::CardStore;

verus! {

/// The case-insensitive literal that ends a line-collection stage.
pub open spec fn is_sentinel_spec(s: Seq<char>) -> bool {
    fold_seq(trim(s)) == "done!"@
}

/// A confirming answer at a yes/no prompt.
pub open spec fn is_yes_spec(s: Seq<char>) -> bool {
    fold_seq(trim(s)) == "y"@
}

/// A declining answer at a yes/no prompt.
pub open spec fn is_no_spec(s: Seq<char>) -> bool {
    fold_seq(trim(s)) == "n"@
}

/// Whether a line ends a collection stage.
pub fn is_sentinel(s: &str) -> (r: bool)
    ensures
        r == is_sentinel_spec(s@),
{
    line_matches_keyword(s, "done!")
}

/// Whether a line confirms a yes/no prompt.
pub fn is_yes(s: &str) -> (r: bool)
    ensures
        r == is_yes_spec(s@),
{
    line_matches_keyword(s, "y")
}

/// Whether a line declines a yes/no prompt.
pub fn is_no(s: &str) -> (r: bool)
    ensures
        r == is_no_spec(s@),
{
    line_matches_keyword(s, "n")
}

/// Where the creation workflow stands.
#[derive(Clone, Copy, PartialEq, Eq, Structural, Debug)]
pub enum Stage {
    /// Collecting question lines.
    Questions,
    /// Sentinel seen; save or discard the collected questions?
    QuestionsConfirm,
    /// Add answers at all?
    AnswersGate,
    /// Collecting answer lines.
    Answers,
    /// Sentinel seen; save or discard the collected answers?
    AnswersConfirm,
    /// Add topics at all?
    TopicsGate,
    /// Collecting topic lines.
    Topics,
    /// Sentinel seen; save or discard the collected topics?
    TopicsConfirm,
    /// All three stages settled; the card can be taken.
    Done,
}

/// What one step did, so the shell knows which prompt to print next.
#[derive(Clone, Copy, PartialEq, Eq, Structural, Debug)]
pub enum Feedback {
    /// The line was added to the current collection.
    Collected,
    /// The sentinel was consumed (and not added); ask whether to save.
    AskSave,
    /// The collection was committed to its field.
    Saved,
    /// The collection was dropped; collecting resumes from nothing.
    Cleared,
    /// Yes at an optional stage's gate: collecting begins.
    Opened,
    /// No at an optional stage's gate: the field stays empty.
    Skipped,
    /// The line answered a yes/no prompt with neither; ask again.
    Invalid,
    /// The workflow was already complete; nothing changed.
    Finished,
}

/// The mathematical state of a card under construction.
pub ghost struct BuilderView {
    pub stage: Stage,
    pub ordinal: int,
    pub buf: Seq<Seq<char>>,
    pub questions: Seq<Seq<char>>,
    pub answers: Seq<Seq<char>>,
    pub topics: Seq<Seq<char>>,
}

/// The state a creation workflow starts in: collecting questions for the
/// card with the given ordinal, everything empty.
pub open spec fn initial_builder(ordinal: int) -> BuilderView {
    BuilderView {
        stage: Stage::Questions,
        ordinal: ordinal,
        buf: Seq::<Seq<char>>::empty(),
        questions: Seq::<Seq<char>>::empty(),
        answers: Seq::<Seq<char>>::empty(),
        topics: Seq::<Seq<char>>::empty(),
    }
}

/// The transition relation of the workflow: from a state and one entered
/// line to the next state and the feedback for the shell.
pub open spec fn builder_step_spec(m: BuilderView, line: Seq<char>) -> (BuilderView, Feedback) {
    match m.stage {
        Stage::Questions => if is_sentinel_spec(line) {
            (BuilderView { stage: Stage::QuestionsConfirm, ..m }, Feedback::AskSave)
        } else {
            (BuilderView { buf: m.buf.push(line), ..m }, Feedback::Collected)
        },
        Stage::QuestionsConfirm => if is_yes_spec(line) {
            (
                BuilderView {
                    stage: Stage::AnswersGate,
                    questions: m.buf,
                    buf: Seq::<Seq<char>>::empty(),
                    ..m
                },
                Feedback::Saved,
            )
        } else if is_no_spec(line) {
            (
                BuilderView { stage: Stage::Questions, buf: Seq::<Seq<char>>::empty(), ..m },
                Feedback::Cleared,
            )
        } else {
            (m, Feedback::Invalid)
        },
        Stage::AnswersGate => if is_yes_spec(line) {
            (BuilderView { stage: Stage::Answers, ..m }, Feedback::Opened)
        } else if is_no_spec(line) {
            (BuilderView { stage: Stage::TopicsGate, ..m }, Feedback::Skipped)
        } else {
            (m, Feedback::Invalid)
        },
        Stage::Answers => if is_sentinel_spec(line) {
            (BuilderView { stage: Stage::AnswersConfirm, ..m }, Feedback::AskSave)
        } else {
            (BuilderView { buf: m.buf.push(line), ..m }, Feedback::Collected)
        },
        Stage::AnswersConfirm => if is_yes_spec(line) {
            (
                BuilderView {
                    stage: Stage::TopicsGate,
                    answers: m.buf,
                    buf: Seq::<Seq<char>>::empty(),
                    ..m
                },
                Feedback::Saved,
            )
        } else if is_no_spec(line) {
            (
                BuilderView { stage: Stage::Answers, buf: Seq::<Seq<char>>::empty(), ..m },
                Feedback::Cleared,
            )
        } else {
            (m, Feedback::Invalid)
        },
        Stage::TopicsGate => if is_yes_spec(line) {
            (BuilderView { stage: Stage::Topics, ..m }, Feedback::Opened)
        } else if is_no_spec(line) {
            (BuilderView { stage: Stage::Done, ..m }, Feedback::Skipped)
        } else {
            (m, Feedback::Invalid)
        },
        Stage::Topics => if is_sentinel_spec(line) {
            (BuilderView { stage: Stage::TopicsConfirm, ..m }, Feedback::AskSave)
        } else {
            (BuilderView { buf: m.buf.push(line), ..m }, Feedback::Collected)
        },
        Stage::TopicsConfirm => if is_yes_spec(line) {
            (
                BuilderView {
                    stage: Stage::Done,
                    topics: m.buf,
                    buf: Seq::<Seq<char>>::empty(),
                    ..m
                },
                Feedback::Saved,
            )
        } else if is_no_spec(line) {
            (
                BuilderView { stage: Stage::Topics, buf: Seq::<Seq<char>>::empty(), ..m },
                Feedback::Cleared,
            )
        } else {
            (m, Feedback::Invalid)
        },
        Stage::Done => (m, Feedback::Finished),
    }
}

/// No step of the workflow changes the card's ordinal: it stays what it
/// was when creation began, whatever is typed afterwards.
pub proof fn lemma_step_preserves_ordinal(m: BuilderView, line: Seq<char>)
    ensures
        builder_step_spec(m, line).0.ordinal == m.ordinal,
{
}

/// Discarding a collection and then immediately confirming again commits
/// the empty sequence: the discarded lines are gone for good.
pub proof fn lemma_discard_then_empty_commit(
    m: BuilderView,
    no_line: Seq<char>,
    done_line: Seq<char>,
    yes_line: Seq<char>,
)
    requires
        m.stage == Stage::QuestionsConfirm || m.stage == Stage::AnswersConfirm || m.stage
            == Stage::TopicsConfirm,
        is_no_spec(no_line),
        is_sentinel_spec(done_line),
        is_yes_spec(yes_line),
    ensures
        ({
            let m1 = builder_step_spec(m, no_line).0;
            let m2 = builder_step_spec(m1, done_line).0;
            let m3 = builder_step_spec(m2, yes_line).0;
            &&& (m.stage == Stage::QuestionsConfirm ==> m3.questions
                == Seq::<Seq<char>>::empty())
            &&& (m.stage == Stage::AnswersConfirm ==> m3.answers == Seq::<Seq<char>>::empty())
            &&& (m.stage == Stage::TopicsConfirm ==> m3.topics == Seq::<Seq<char>>::empty())
        }),
{
    reveal_strlit("y");
    reveal_strlit("n");
    assert("y"@ != "n"@) by {
        assert("y"@[0] == 'y' && "n"@[0] == 'n');
    }
}

/// Declining an optional gate skips its stage and changes nothing else:
/// the gated field keeps whatever it held, an empty sequence on a card
/// built from scratch.
pub proof fn lemma_decline_gate(m: BuilderView, line: Seq<char>)
    requires
        m.stage == Stage::AnswersGate || m.stage == Stage::TopicsGate,
        is_no_spec(line),
    ensures
        builder_step_spec(m, line).1 == Feedback::Skipped,
        builder_step_spec(m, line).0 == (
        BuilderView {
            stage: if m.stage == Stage::AnswersGate {
                Stage::TopicsGate
            } else {
                Stage::Done
            },
            ..m
        }),
{
    reveal_strlit("y");
    reveal_strlit("n");
    assert("y"@ != "n"@) by {
        assert("y"@[0] == 'y' && "n"@[0] == 'n');
    }
}

/// A card under construction.
pub struct CardBuilder {
    stage: Stage,
    ordinal: usize,
    buf: Vec<String>,
    questions: Vec<String>,
    answers: Vec<String>,
    topics: Vec<String>,
}

impl View for CardBuilder {
    type V = BuilderView;

    closed spec fn view(&self) -> BuilderView {
        BuilderView {
            stage: self.stage,
            ordinal: self.ordinal as int,
            buf: self.buf.deep_view(),
            questions: self.questions.deep_view(),
            answers: self.answers.deep_view(),
            topics: self.topics.deep_view(),
        }
    }
}

impl CardBuilder {
    /// Begin creating the card with the given ordinal.
    pub fn new(ordinal: usize) -> (b: Self)
        ensures
            b@ == initial_builder(ordinal as int),
    {
        let b = CardBuilder {
            stage: Stage::Questions,
            ordinal,
            buf: Vec::new(),
            questions: Vec::new(),
            answers: Vec::new(),
            topics: Vec::new(),
        };
        proof {
            assert(b.buf.deep_view() =~= Seq::<Seq<char>>::empty());
            assert(b.questions.deep_view() =~= Seq::<Seq<char>>::empty());
            assert(b.answers.deep_view() =~= Seq::<Seq<char>>::empty());
            assert(b.topics.deep_view() =~= Seq::<Seq<char>>::empty());
        }
        b
    }

    /// Begin creating a card numbered by the store's size at this moment.
    pub fn begin(store: &CardStore) -> (b: Self)
        ensures
            b@ == initial_builder(store@.len() as int),
    {
        CardBuilder::new(store.len())
    }

    /// Where the workflow stands.
    pub fn stage(&self) -> (st: Stage)
        ensures
            st == self@.stage,
    {
        self.stage
    }

    /// Whether the workflow is complete and the card can be taken.
    pub fn done(&self) -> (r: bool)
        ensures
            r == (self@.stage == Stage::Done),
    {
        self.stage == Stage::Done
    }

    /// Feed one entered line to the workflow.
    pub fn step(&mut self, line: String) -> (fb: Feedback)
        ensures
            final(self)@ == builder_step_spec(old(self)@, line@).0,
            fb == builder_step_spec(old(self)@, line@).1,
    {
        match self.stage {
            Stage::Questions => {
                if is_sentinel(line.as_str()) {
                    self.stage = Stage::QuestionsConfirm;
                    Feedback::AskSave
                } else {
                    self.buf.push(line);
                    proof {
                        assert(self.buf.deep_view() =~= old(self).buf.deep_view().push(line@));
                    }
                    Feedback::Collected
                }
            },
            Stage::QuestionsConfirm => {
                if is_yes(line.as_str()) {
                    let mut taken: Vec<String> = Vec::new();
                    core::mem::swap(&mut taken, &mut self.buf);
                    self.questions = taken;
                    self.stage = Stage::AnswersGate;
                    proof {
                        assert(self.buf.deep_view() =~= Seq::<Seq<char>>::empty());
                    }
                    Feedback::Saved
                } else if is_no(line.as_str()) {
                    self.buf = Vec::new();
                    self.stage = Stage::Questions;
                    proof {
                        assert(self.buf.deep_view() =~= Seq::<Seq<char>>::empty());
                    }
                    Feedback::Cleared
                } else {
                    Feedback::Invalid
                }
            },
            Stage::AnswersGate => {
                if is_yes(line.as_str()) {
                    self.stage = Stage::Answers;
                    Feedback::Opened
                } else if is_no(line.as_str()) {
                    self.stage = Stage::TopicsGate;
                    Feedback::Skipped
                } else {
                    Feedback::Invalid
                }
            },
            Stage::Answers => {
                if is_sentinel(line.as_str()) {
                    self.stage = Stage::AnswersConfirm;
                    Feedback::AskSave
                } else {
                    self.buf.push(line);
                    proof {
                        assert(self.buf.deep_view() =~= old(self).buf.deep_view().push(line@));
                    }
                    Feedback::Collected
                }
            },
            Stage::AnswersConfirm => {
                if is_yes(line.as_str()) {
                    let mut taken: Vec<String> = Vec::new();
                    core::mem::swap(&mut taken, &mut self.buf);
                    self.answers = taken;
                    self.stage = Stage::TopicsGate;
                    proof {
                        assert(self.buf.deep_view() =~= Seq::<Seq<char>>::empty());
                    }
                    Feedback::Saved
                } else if is_no(line.as_str()) {
                    self.buf = Vec::new();
                    self.stage = Stage::Answers;
                    proof {
                        assert(self.buf.deep_view() =~= Seq::<Seq<char>>::empty());
                    }
                    Feedback::Cleared
                } else {
                    Feedback::Invalid
                }
            },
            Stage::TopicsGate => {
                if is_yes(line.as_str()) {
                    self.stage = Stage::Topics;
                    Feedback::Opened
                } else if is_no(line.as_str()) {
                    self.stage = Stage::Done;
                    Feedback::Skipped
                } else {
                    Feedback::Invalid
                }
            },
            Stage::Topics => {
                if is_sentinel(line.as_str()) {
                    self.stage = Stage::TopicsConfirm;
                    Feedback::AskSave
                } else {
                    self.buf.push(line);
                    proof {
                        assert(self.buf.deep_view() =~= old(self).buf.deep_view().push(line@));
                    }
                    Feedback::Collected
                }
            },
            Stage::TopicsConfirm => {
                if is_yes(line.as_str()) {
                    let mut taken: Vec<String> = Vec::new();
                    core::mem::swap(&mut taken, &mut self.buf);
                    self.topics = taken;
                    self.stage = Stage::Done;
                    proof {
                        assert(self.buf.deep_view() =~= Seq::<Seq<char>>::empty());
                    }
                    Feedback::Saved
                } else if is_no(line.as_str()) {
                    self.buf = Vec::new();
                    self.stage = Stage::Topics;
                    proof {
                        assert(self.buf.deep_view() =~= Seq::<Seq<char>>::empty());
                    }
                    Feedback::Cleared
                } else {
                    Feedback::Invalid
                }
            },
            Stage::Done => Feedback::Finished,
        }
    }

    /// Take the finished card: its ordinal is the one creation began with,
    /// and each field is exactly the sequence committed for it.
    pub fn finish(self) -> (c: Card)
        requires
            self@.stage == Stage::Done,
        ensures
            c@.card_no == self@.ordinal,
            c@.questions == self@.questions,
            c@.answers == self@.answers,
            c@.topics == self@.topics,
    {
        let mut card = Card::new(self.ordinal, self.questions);
        card.answer(self.answers);
        card.tags(self.topics);
        card
    }
}

} // verus!
