use typing_practice::engine::{step, Outcome};
use typing_practice::input::UserInput;
use typing_practice::word_cursor::WordCursor;

fn round(word: &str) -> (WordCursor, WordCursor) {
    (WordCursor::new(&String::from(word)), WordCursor::new(&String::new()))
}

fn type_text(target: &mut WordCursor, buffer: &mut WordCursor, text: &str) -> Vec<Outcome> {
    text.chars().map(|c| step(target, buffer, UserInput::Char(c))).collect()
}

#[test]
fn hello_typed_exactly() {
    let (mut target, mut buffer) = round("hello");
    let outcomes = type_text(&mut target, &mut buffer, "hello");
    assert_eq!(outcomes.len(), 5);
    assert!(outcomes.iter().all(|o| *o != Outcome::Mismatch));
    assert_eq!(
        outcomes,
        vec![
            Outcome::Continue,
            Outcome::Continue,
            Outcome::Continue,
            Outcome::Continue,
            Outcome::WordComplete
        ]
    );
    assert_eq!(target.position(), 5);
    assert!(target.is_at_end());
    assert_eq!(buffer.word(), "hello");
    assert_eq!(buffer.position(), 5);
}

#[test]
fn cat_with_a_wrong_second_character() {
    let (mut target, mut buffer) = round("cat");

    assert_eq!(step(&mut target, &mut buffer, UserInput::Char('c')), Outcome::Continue);
    assert_eq!(target.position(), 1);

    assert_eq!(step(&mut target, &mut buffer, UserInput::Char('x')), Outcome::Mismatch);
    assert_eq!(target.position(), 1);
    assert_eq!(buffer.word(), "cx");
    assert_eq!(buffer.position(), 2);

    assert_eq!(step(&mut target, &mut buffer, UserInput::Backspace), Outcome::Continue);
    assert_eq!(buffer.word(), "c");
    assert_eq!(buffer.position(), 1);
    // Backspace takes the target cursor back as well.
    assert_eq!(target.position(), 0);

    // The cursors are apart now, so even the right character is refused.
    assert_eq!(step(&mut target, &mut buffer, UserInput::Char('a')), Outcome::Mismatch);
    assert_eq!(target.position(), 0);
    assert_eq!(buffer.word(), "ca");

    // Emptying the buffer brings the cursors together again.
    assert_eq!(step(&mut target, &mut buffer, UserInput::Backspace), Outcome::Continue);
    assert_eq!(step(&mut target, &mut buffer, UserInput::Backspace), Outcome::Continue);
    assert_eq!(buffer.word(), "");
    assert_eq!(buffer.position(), 0);
    assert_eq!(target.position(), 0);

    assert_eq!(step(&mut target, &mut buffer, UserInput::Char('c')), Outcome::Continue);
    assert_eq!(step(&mut target, &mut buffer, UserInput::Char('a')), Outcome::Continue);
    assert_eq!(target.position(), 2);
    assert_eq!(step(&mut target, &mut buffer, UserInput::Char('t')), Outcome::WordComplete);
    assert_eq!(target.position(), 3);
    assert_eq!(buffer.word(), "cat");
}

#[test]
fn exact_typing_completes_with_the_last_character() {
    for word in ["ab", "word", "naïve", "日本語"] {
        let (mut target, mut buffer) = round(word);
        let outcomes = type_text(&mut target, &mut buffer, word);
        let n = word.chars().count();
        assert_eq!(outcomes.len(), n);
        for (k, outcome) in outcomes.iter().enumerate() {
            let expected = if k + 1 == n { Outcome::WordComplete } else { Outcome::Continue };
            assert_eq!(*outcome, expected);
        }
        assert_eq!(target.position(), n);
        assert_eq!(buffer.word(), word);
    }
}

#[test]
fn wrong_character_is_kept_and_target_stays() {
    let (mut target, mut buffer) = round("word");
    type_text(&mut target, &mut buffer, "wo");
    assert_eq!(step(&mut target, &mut buffer, UserInput::Char('x')), Outcome::Mismatch);
    assert_eq!(target.position(), 2);
    assert_eq!(buffer.word(), "wox");
    assert_eq!(buffer.word().chars().nth(2), Some('x'));
    assert_eq!(buffer.position(), 3);
}

#[test]
fn wrong_first_character_then_backspace_restores_the_start() {
    let (mut target, mut buffer) = round("cat");
    assert_eq!(step(&mut target, &mut buffer, UserInput::Char('x')), Outcome::Mismatch);
    assert_eq!(buffer.word(), "x");
    assert_eq!(step(&mut target, &mut buffer, UserInput::Backspace), Outcome::Continue);
    assert_eq!(buffer.len(), 0);
    assert_eq!(buffer.position(), 0);
    assert_eq!(target.position(), 0);
    let outcomes = type_text(&mut target, &mut buffer, "cat");
    assert_eq!(outcomes, vec![Outcome::Continue, Outcome::Continue, Outcome::WordComplete]);
}

#[test]
fn backspace_after_a_later_mismatch_rewinds_the_target() {
    let (mut target, mut buffer) = round("word");
    type_text(&mut target, &mut buffer, "wo");
    assert_eq!(step(&mut target, &mut buffer, UserInput::Char('x')), Outcome::Mismatch);
    assert_eq!(step(&mut target, &mut buffer, UserInput::Backspace), Outcome::Continue);
    assert_eq!(buffer.word(), "wo");
    assert_eq!(buffer.len(), 2);
    assert_eq!(buffer.position(), 2);
    assert_eq!(target.position(), 1);
}

#[test]
fn backspace_on_empty_buffer_changes_nothing() {
    let (mut target, mut buffer) = round("cat");
    assert_eq!(step(&mut target, &mut buffer, UserInput::Backspace), Outcome::Continue);
    assert_eq!(buffer.len(), 0);
    assert_eq!(buffer.position(), 0);
    assert_eq!(target.position(), 0);
    assert_eq!(target.word(), "cat");
}

#[test]
fn backspace_takes_back_a_right_character() {
    let (mut target, mut buffer) = round("cat");
    type_text(&mut target, &mut buffer, "ca");
    assert_eq!(step(&mut target, &mut buffer, UserInput::Backspace), Outcome::Continue);
    assert_eq!(buffer.word(), "c");
    assert_eq!(target.position(), 1);
    assert_eq!(step(&mut target, &mut buffer, UserInput::Char('a')), Outcome::Continue);
    assert_eq!(step(&mut target, &mut buffer, UserInput::Char('t')), Outcome::WordComplete);
}

#[test]
fn kill_mid_word_leaves_the_state() {
    let (mut target, mut buffer) = round("cat");
    type_text(&mut target, &mut buffer, "c");
    assert_eq!(step(&mut target, &mut buffer, UserInput::Kill), Outcome::Killed);
    assert_eq!(target.position(), 1);
    assert_eq!(buffer.word(), "c");
    assert_eq!(buffer.position(), 1);
}

#[test]
fn kill_at_the_word_boundary() {
    let (mut target, mut buffer) = round("cat");
    assert_eq!(step(&mut target, &mut buffer, UserInput::Kill), Outcome::Killed);
    type_text(&mut target, &mut buffer, "cat");
    assert_eq!(step(&mut target, &mut buffer, UserInput::Kill), Outcome::Killed);
    assert_eq!(target.position(), 3);
    assert_eq!(buffer.word(), "cat");
}

#[test]
fn character_on_a_complete_word_is_not_taken() {
    let (mut target, mut buffer) = round("ab");
    type_text(&mut target, &mut buffer, "ab");
    assert_eq!(step(&mut target, &mut buffer, UserInput::Char('c')), Outcome::WordComplete);
    assert_eq!(buffer.word(), "ab");
    assert_eq!(buffer.position(), 2);
    assert_eq!(target.position(), 2);
}

#[test]
fn character_on_an_empty_word_is_not_taken() {
    let (mut target, mut buffer) = round("");
    assert_eq!(step(&mut target, &mut buffer, UserInput::Char('a')), Outcome::WordComplete);
    assert_eq!(buffer.len(), 0);
}

#[test]
fn tab_is_a_no_op() {
    let (mut target, mut buffer) = round("cat");
    type_text(&mut target, &mut buffer, "c");
    assert_eq!(step(&mut target, &mut buffer, UserInput::Tab), Outcome::Continue);
    assert_eq!(target.position(), 1);
    assert_eq!(buffer.word(), "c");
    assert_eq!(buffer.position(), 1);
}

#[test]
fn right_character_at_the_wrong_offset_is_a_mismatch() {
    let (mut target, mut buffer) = round("cat");
    assert_eq!(step(&mut target, &mut buffer, UserInput::Char('x')), Outcome::Mismatch);
    assert_eq!(step(&mut target, &mut buffer, UserInput::Char('c')), Outcome::Mismatch);
    assert_eq!(target.position(), 0);
    assert_eq!(buffer.word(), "xc");
    assert_eq!(buffer.position(), 2);
}
