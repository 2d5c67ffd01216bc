//! The card record: an ordinal, topic lines, question lines and answer
//! lines, with accessor and mutator operations and a plain-text rendering.

use vstd::prelude::*;

verus! {

/// One flashcard: the position it was created at and its three line lists.
pub struct Card {
    pub card_no: usize,
    pub topics: Vec<String>,
    pub questions: Vec<String>,
    pub answers: Vec<String>,
}

/// The mathematical value of a card.
pub ghost struct CardView {
    pub card_no: int,
    pub topics: Seq<Seq<char>>,
    pub questions: Seq<Seq<char>>,
    pub answers: Seq<Seq<char>>,
}

impl View for Card {
    type V = CardView;

    open spec fn view(&self) -> CardView {
        CardView {
            card_no: self.card_no as int,
            topics: self.topics.deep_view(),
            questions: self.questions.deep_view(),
            answers: self.answers.deep_view(),
        }
    }
}

impl Card {
    /// A fresh card: the given ordinal and questions, no answers, no topics.
    pub fn new(card_no: usize, questions: Vec<String>) -> (c: Self)
        ensures
            c@.card_no == card_no,
            c@.questions == questions.deep_view(),
            c@.answers == Seq::<Seq<char>>::empty(),
            c@.topics == Seq::<Seq<char>>::empty(),
    {
        let c = Card { card_no, questions, answers: Vec::new(), topics: Vec::new() };
        proof {
            assert(c.answers.deep_view() =~= Seq::<Seq<char>>::empty());
            assert(c.topics.deep_view() =~= Seq::<Seq<char>>::empty());
        }
        c
    }

    /// Replace the whole answer list.
    pub fn answer(&mut self, answer: Vec<String>)
        ensures
            final(self)@ == (CardView { answers: answer.deep_view(), ..old(self)@ }),
    {
        self.answers = answer;
    }

    /// Replace the whole topic list.
    pub fn tags(&mut self, tags: Vec<String>)
        ensures
            final(self)@ == (CardView { topics: tags.deep_view(), ..old(self)@ }),
    {
        self.topics = tags;
    }

    /// Append one question line.
    pub fn add_question(&mut self, question: &str)
        ensures
            final(self)@ == (
            CardView { questions: old(self)@.questions.push(question@), ..old(self)@ }),
    {
        self.questions.push(question.to_owned());
        proof {
            assert(self.questions.deep_view() =~= old(self).questions.deep_view().push(
                question@,
            ));
        }
    }

    /// Append one answer line.
    pub fn add_answer(&mut self, answer: &str)
        ensures
            final(self)@ == (CardView { answers: old(self)@.answers.push(answer@), ..old(self)@ }),
    {
        self.answers.push(answer.to_owned());
        proof {
            assert(self.answers.deep_view() =~= old(self).answers.deep_view().push(answer@));
        }
    }

    /// Append one topic line.
    pub fn add_topic(&mut self, topic: &str)
        ensures
            final(self)@ == (CardView { topics: old(self)@.topics.push(topic@), ..old(self)@ }),
    {
        self.topics.push(topic.to_owned());
        proof {
            assert(self.topics.deep_view() =~= old(self).topics.deep_view().push(topic@));
        }
    }

    /// The card in its human-readable multi-line form.
    pub fn render(&self) -> (r: String)
        ensures
            r@ == render_spec(self@),
    {
        let mut out = String::new();
        out.append("Card ");
        push_decimal(&mut out, self.card_no);
        out.append("\n");
        out.append("Topics:\n");
        append_items(&mut out, &self.topics);
        out.append("Questions:\n");
        append_items(&mut out, &self.questions);
        out.append("Answers:\n");
        append_items(&mut out, &self.answers);
        proof {
            assert(out@ =~= render_spec(self@));
        }
        out
    }
}

/// The decimal digit for one value below ten.
pub open spec fn dec_digit(d: int) -> char {
    if d == 0 {
        '0'
    } else if d == 1 {
        '1'
    } else if d == 2 {
        '2'
    } else if d == 3 {
        '3'
    } else if d == 4 {
        '4'
    } else if d == 5 {
        '5'
    } else if d == 6 {
        '6'
    } else if d == 7 {
        '7'
    } else if d == 8 {
        '8'
    } else {
        '9'
    }
}

/// The decimal representation of a non-negative number, most significant
/// digit first, with no leading zero except for zero itself.
pub open spec fn dec_rep(n: int) -> Seq<char>
    decreases n,
{
    if n < 10 {
        seq![dec_digit(n)]
    } else {
        dec_rep(n / 10) + seq![dec_digit(n % 10)]
    }
}

/// How one collected line appears in a listing.
pub open spec fn render_item_spec(item: Seq<char>) -> Seq<char> {
    "  "@ + item + "\n"@
}

/// How a whole line list appears in a listing.
pub open spec fn render_items_spec(items: Seq<Seq<char>>) -> Seq<char>
    decreases items.len(),
{
    if items.len() == 0 {
        Seq::<char>::empty()
    } else {
        render_items_spec(items.drop_last()) + render_item_spec(items.last())
    }
}

/// The full human-readable form of a card: its ordinal and its three line
/// lists, each under its heading.
pub open spec fn render_spec(c: CardView) -> Seq<char> {
    "Card "@ + dec_rep(c.card_no) + "\n"@ + "Topics:\n"@ + render_items_spec(c.topics)
        + "Questions:\n"@ + render_items_spec(c.questions) + "Answers:\n"@ + render_items_spec(
        c.answers,
    )
}

fn digit_str(d: usize) -> (r: &'static str)
    requires
        d < 10,
    ensures
        r@ == seq![dec_digit(d as int)],
{
    let r = match d {
        0 => "0",
        1 => "1",
        2 => "2",
        3 => "3",
        4 => "4",
        5 => "5",
        6 => "6",
        7 => "7",
        8 => "8",
        _ => "9",
    };
    proof {
        reveal_strlit("0");
        reveal_strlit("1");
        reveal_strlit("2");
        reveal_strlit("3");
        reveal_strlit("4");
        reveal_strlit("5");
        reveal_strlit("6");
        reveal_strlit("7");
        reveal_strlit("8");
        reveal_strlit("9");
        assert(r@ =~= seq![dec_digit(d as int)]);
    }
    r
}

fn push_decimal(out: &mut String, n: usize)
    ensures
        final(out)@ == old(out)@ + dec_rep(n as int),
    decreases n,
{
    if n < 10 {
        out.append(digit_str(n));
        proof {
            assert(old(out)@ + seq![dec_digit(n as int)] =~= out@);
        }
    } else {
        push_decimal(out, n / 10);
        out.append(digit_str(n % 10));
        proof {
            assert(old(out)@ + (dec_rep(n as int / 10) + seq![dec_digit(n as int % 10)]) =~= (old(
                out,
            )@ + dec_rep(n as int / 10)) + seq![dec_digit(n as int % 10)]);
        }
    }
}

fn append_items(out: &mut String, items: &Vec<String>)
    ensures
        final(out)@ == old(out)@ + render_items_spec(items.deep_view()),
{
    let ghost pre = out@;
    let ghost dv = items.deep_view();
    proof {
        assert(dv.take(0) =~= Seq::<Seq<char>>::empty());
        assert(pre + render_items_spec(dv.take(0)) =~= pre);
    }
    let mut i: usize = 0;
    while i < items.len()
        invariant
            dv == items.deep_view(),
            dv.len() == items@.len(),
            0 <= i <= items@.len(),
            out@ == pre + render_items_spec(dv.take(i as int)),
        decreases items@.len() - i,
    {
        out.append("  ");
        out.append(items[i].as_str());
        out.append("\n");
        proof {
            assert(dv.take(i + 1).drop_last() =~= dv.take(i as int));
            assert(dv.take(i + 1).last() == dv[i as int]);
            assert(dv[i as int] == items@[i as int]@);
            assert(render_items_spec(dv.take(i + 1)) == render_items_spec(dv.take(i as int))
                + render_item_spec(dv[i as int]));
            assert(out@ =~= pre + render_items_spec(dv.take(i + 1)));
        }
        i += 1;
    }
    proof {
        assert(dv.take(items@.len() as int) =~= dv);
    }
}

fn clone_lines(v: &Vec<String>) -> (r: Vec<String>)
    ensures
        r.deep_view() == v.deep_view(),
{
    let mut r: Vec<String> = Vec::new();
    let mut i: usize = 0;
    while i < v.len()
        invariant
            0 <= i <= v.len(),
            r.len() == i,
            forall|j: int| 0 <= j < i ==> r.deep_view()[j] == v.deep_view()[j],
        decreases v.len() - i,
    {
        r.push(v[i].clone());
        i += 1;
    }
    proof {
        assert(r.deep_view() =~= v.deep_view());
    }
    r
}

impl Clone for Card {
    /// A clone carries the same value.
    fn clone(&self) -> (c: Self)
        ensures
            c@ == self@,
    {
        Card {
            card_no: self.card_no,
            topics: clone_lines(&self.topics),
            questions: clone_lines(&self.questions),
            answers: clone_lines(&self.answers),
        }
    }
}

} // verus!
