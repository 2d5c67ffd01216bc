use flashcards::builder::CardBuilder;
use flashcards::builder::Feedback;
use flashcards::builder::Stage;
use flashcards::reader::process_line;
use flashcards::store::CardStore;
use flashcards::store::add_card;

/// Drive the builder with raw terminal lines, the way the shell would:
/// each line goes through the reader first, and blank lines never reach
/// the workflow.
fn drive(builder: &mut CardBuilder, raw_lines: &[&str]) -> Vec<Feedback> {
    let mut feedbacks = Vec::new();
    for raw in raw_lines {
        match process_line(raw) {
            Some(line) => feedbacks.push(builder.step(line)),
            None => {}
        }
    }
    feedbacks
}

#[test]
fn single_question_card_with_declined_gates() {
    let mut store = CardStore::new();
    let mut builder = CardBuilder::begin(&store);
    drive(&mut builder, &["What is 2+2?\n", "DONE!\n", "y\n", "n\n", "n\n"]);
    assert!(builder.done());
    let card = builder.finish();
    assert_eq!(card.card_no, 0);
    assert_eq!(card.questions, vec!["What is 2+2?\n".to_string()]);
    assert_eq!(card.answers, Vec::<String>::new());
    assert_eq!(card.topics, Vec::<String>::new());
    add_card(&mut store, card);
    assert_eq!(store.len(), 1);
}

#[test]
fn discarded_answers_never_reappear() {
    let mut builder = CardBuilder::new(0);
    drive(&mut builder, &["q\n", "done!\n", "y\n"]);
    assert_eq!(builder.stage(), Stage::AnswersGate);
    let fbs = drive(&mut builder, &["y\n", "4\n", "done!\n", "n\n", "four\n", "DONE!\n", "y\n"]);
    assert_eq!(
        fbs,
        vec![
            Feedback::Opened,
            Feedback::Collected,
            Feedback::AskSave,
            Feedback::Cleared,
            Feedback::Collected,
            Feedback::AskSave,
            Feedback::Saved,
        ]
    );
    drive(&mut builder, &["n\n"]);
    let card = builder.finish();
    assert_eq!(card.answers, vec!["four\n".to_string()]);
    assert!(!card.answers.contains(&"4\n".to_string()));
}

#[test]
fn discard_then_immediate_confirm_commits_empty() {
    let mut builder = CardBuilder::new(0);
    let fbs = drive(&mut builder, &["x\n", "done!\n", "n\n", "done!\n", "y\n"]);
    assert_eq!(
        fbs,
        vec![
            Feedback::Collected,
            Feedback::AskSave,
            Feedback::Cleared,
            Feedback::AskSave,
            Feedback::Saved,
        ]
    );
    drive(&mut builder, &["n\n", "n\n"]);
    let card = builder.finish();
    assert_eq!(card.questions, Vec::<String>::new());
}

#[test]
fn declining_a_gate_leaves_the_field_empty() {
    let mut builder = CardBuilder::new(3);
    drive(&mut builder, &["q\n", "done!\n", "y\n"]);
    let fbs = drive(&mut builder, &["n\n", "y\n", "rust\n", "done!\n", "y\n"]);
    assert_eq!(fbs[0], Feedback::Skipped);
    let card = builder.finish();
    assert_eq!(card.card_no, 3);
    assert_eq!(card.answers, Vec::<String>::new());
    assert_eq!(card.topics, vec!["rust\n".to_string()]);
}

#[test]
fn invalid_confirmation_reasks_without_resuming_collection() {
    let mut builder = CardBuilder::new(0);
    drive(&mut builder, &["a\n", "b\n", "done!\n"]);
    assert_eq!(builder.stage(), Stage::QuestionsConfirm);
    let fbs = drive(&mut builder, &["maybe\n", "done!\n", "y\n"]);
    assert_eq!(fbs, vec![Feedback::Invalid, Feedback::Invalid, Feedback::Saved]);
    drive(&mut builder, &["n\n", "n\n"]);
    let card = builder.finish();
    assert_eq!(card.questions, vec!["a\n".to_string(), "b\n".to_string()]);
}

#[test]
fn sentinel_is_trimmed_and_case_insensitive() {
    let mut builder = CardBuilder::new(0);
    let fbs = drive(&mut builder, &["q\n", "  DoNe!  \n"]);
    assert_eq!(fbs, vec![Feedback::Collected, Feedback::AskSave]);
}

#[test]
fn ordinal_is_store_size_when_creation_begins() {
    let mut store = CardStore::new();
    let mut first = CardBuilder::begin(&store);
    drive(&mut first, &["q1\n", "done!\n", "y\n", "n\n", "n\n"]);
    add_card(&mut store, first.finish());

    let mut second = CardBuilder::begin(&store);
    drive(&mut second, &["q2\n", "done!\n", "y\n", "n\n", "n\n"]);
    let card = second.finish();
    assert_eq!(card.card_no, 1);
    add_card(&mut store, card);
    assert_eq!(store.len(), 2);
}

#[test]
fn finished_workflow_ignores_further_lines() {
    let mut builder = CardBuilder::new(0);
    drive(&mut builder, &["q\n", "done!\n", "y\n", "n\n", "n\n"]);
    let fbs = drive(&mut builder, &["anything\n"]);
    assert_eq!(fbs, vec![Feedback::Finished]);
    assert!(builder.done());
}
