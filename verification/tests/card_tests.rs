use flashcards::card::Card;
use flashcards::store::CardStore;
use flashcards::store::add_card;

#[test]
fn new_card_has_questions_and_nothing_else() {
    let card = Card::new(7, vec!["q\n".to_string()]);
    assert_eq!(card.card_no, 7);
    assert_eq!(card.questions, vec!["q\n".to_string()]);
    assert_eq!(card.answers, Vec::<String>::new());
    assert_eq!(card.topics, Vec::<String>::new());
}

#[test]
fn setters_overwrite_the_whole_field() {
    let mut card = Card::new(0, vec![]);
    card.answer(vec!["a1".to_string(), "a2".to_string()]);
    card.answer(vec!["a3".to_string()]);
    assert_eq!(card.answers, vec!["a3".to_string()]);
    card.tags(vec!["t1".to_string()]);
    card.tags(vec!["t2".to_string()]);
    assert_eq!(card.topics, vec!["t2".to_string()]);
}

#[test]
fn adders_append_one_line() {
    let mut card = Card::new(0, vec![]);
    card.add_question("q1");
    card.add_question("q2");
    card.add_answer("a1");
    card.add_topic("t1");
    assert_eq!(card.questions, vec!["q1".to_string(), "q2".to_string()]);
    assert_eq!(card.answers, vec!["a1".to_string()]);
    assert_eq!(card.topics, vec!["t1".to_string()]);
}

#[test]
fn render_lists_ordinal_and_all_three_sections() {
    let mut card = Card::new(12, vec![]);
    card.add_question("q1");
    card.add_question("q2");
    card.add_topic("t");
    assert_eq!(
        card.render(),
        "Card 12\nTopics:\n  t\nQuestions:\n  q1\n  q2\nAnswers:\n"
    );
}

#[test]
fn render_of_empty_card_keeps_headings() {
    let card = Card::new(0, vec![]);
    assert_eq!(card.render(), "Card 0\nTopics:\nQuestions:\nAnswers:\n");
}

#[test]
fn render_of_multidigit_ordinal() {
    let card = Card::new(305, vec![]);
    assert_eq!(card.render(), "Card 305\nTopics:\nQuestions:\nAnswers:\n");
}

#[test]
fn clone_copies_every_field() {
    let mut card = Card::new(2, vec!["q\n".to_string()]);
    card.add_answer("a");
    let copy = card.clone();
    assert_eq!(copy.card_no, card.card_no);
    assert_eq!(copy.questions, card.questions);
    assert_eq!(copy.answers, card.answers);
    assert_eq!(copy.topics, card.topics);
}

#[test]
fn store_appends_and_snapshots_in_order() {
    let mut store = CardStore::new();
    assert_eq!(store.len(), 0);
    add_card(&mut store, Card::new(0, vec!["first\n".to_string()]));
    add_card(&mut store, Card::new(1, vec!["second\n".to_string()]));
    let snap = store.snapshot();
    assert_eq!(snap.len(), 2);
    assert_eq!(snap[0].card_no, 0);
    assert_eq!(snap[0].questions, vec!["first\n".to_string()]);
    assert_eq!(snap[1].card_no, 1);
    assert_eq!(snap[1].questions, vec!["second\n".to_string()]);
}

#[test]
fn snapshot_is_a_copy_not_a_drain() {
    let mut store = CardStore::new();
    add_card(&mut store, Card::new(0, vec![]));
    let first = store.snapshot();
    let second = store.snapshot();
    assert_eq!(first.len(), 1);
    assert_eq!(second.len(), 1);
    assert_eq!(store.len(), 1);
}
