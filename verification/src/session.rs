//! The session: one round per word of the test, each round fed key by key
//! until its word is typed, the list is used up, or the session is killed.

use crate::engine::{lemma_typed_prefix, state_of, step, MatchState, Outcome};
use crate::input::UserInput;
use crate::typing_test::{is_word, TestView, TypingTest};
use crate::word_cursor::WordCursor;
use vstd::prelude::*;
use vstd::string::StringExecFns;

verus! {

/// Where a session stands.
#[derive(Clone, Copy, Debug, PartialEq, Eq, Structural)]
pub enum Status {
    /// A round is running and waits for the next key.
    AwaitingInput,
    /// The word of the round has been typed; the next round can begin.
    WordComplete,
    /// Every word has been typed.
    Finished,
    /// The kill signal ended the session.
    Killed,
}

/// What can happen to a session.
#[derive(Clone, Copy, Debug, PartialEq, Eq, Structural)]
pub enum SessionEvent {
    /// A key event arrived.
    Key(UserInput),
    /// The caller asks for the next round.
    NextRound,
}

/// The content of a [`Session`]: the test, the state of the round, and
/// where the session stands.
pub struct SessionView {
    pub test: TestView,
    pub round: MatchState,
    pub status: Status,
}

impl SessionView {
    /// The test and the round are well formed; a round that waits for
    /// input is not complete and one that is over is; and while a round
    /// exists, its target is the word that was handed out last.
    pub open spec fn wf(self) -> bool {
        &&& self.test.wf()
        &&& self.round.wf()
        &&& self.status is AwaitingInput ==> !self.round.complete()
        &&& self.status is WordComplete ==> self.round.complete()
        &&& (self.status is AwaitingInput || self.status is WordComplete) ==> {
            &&& 1 <= self.test.current <= self.test.words.len()
            &&& self.round.target.chars == self.test.words[self.test.current - 1]
        }
    }

    /// The session after the next word was asked of `test`: a fresh round
    /// on that word, or, with no word left, the finished session, which
    /// keeps `round`. The test has counted the call in both cases.
    pub open spec fn begin_round(test: TestView, round: MatchState) -> SessionView {
        match test.upcoming() {
            Some(word) => SessionView {
                test: test.advance(),
                round: MatchState::fresh(word),
                status: if word.len() == 0 {
                    Status::WordComplete
                } else {
                    Status::AwaitingInput
                },
            },
            None => SessionView { test: test.advance(), round, status: Status::Finished },
        }
    }

    /// The session at its start: the first round of `test`, if it has a
    /// word.
    pub open spec fn opening(test: TestView) -> SessionView {
        Self::begin_round(test, MatchState::fresh(Seq::empty()))
    }

    /// The session after a key event, and the outcome of the event.
    ///
    /// A session that waits for input takes every key: the matching rules
    /// are applied to the round, the kill signal ends the session, and a
    /// completed word ends the round. Between two rounds, when the word is
    /// complete, only the kill signal is taken, and it ends the session
    /// there too. Every other key is dropped and has no outcome, as is
    /// every key once the session is finished or killed.
    pub open spec fn on_key(self, key: UserInput) -> (SessionView, Option<Outcome>) {
        if self.status is AwaitingInput {
            let (round, outcome) = self.round.step(key);
            let status = match outcome {
                Outcome::Killed => Status::Killed,
                Outcome::WordComplete => Status::WordComplete,
                _ => Status::AwaitingInput,
            };
            (SessionView { test: self.test, round, status }, Some(outcome))
        } else if self.status is WordComplete && key is Kill {
            (
                SessionView { test: self.test, round: self.round, status: Status::Killed },
                Some(Outcome::Killed),
            )
        } else {
            (self, None)
        }
    }

    /// The session after the caller asked for the next round: a new round
    /// begins if the last one is over, and nothing changes otherwise.
    pub open spec fn on_next_round(self) -> SessionView {
        if self.status is WordComplete {
            Self::begin_round(self.test, self.round)
        } else {
            self
        }
    }

    /// The session after one event.
    pub open spec fn apply(self, event: SessionEvent) -> SessionView {
        match event {
            SessionEvent::Key(key) => self.on_key(key).0,
            SessionEvent::NextRound => self.on_next_round(),
        }
    }

    /// The session after a sequence of events.
    pub open spec fn apply_all(self, events: Seq<SessionEvent>) -> SessionView
        decreases events.len(),
    {
        if events.len() == 0 {
            self
        } else {
            self.apply_all(events.drop_last()).apply(events.last())
        }
    }

    /// The session after `text` has been typed, one character key for each
    /// of its characters, in order.
    pub open spec fn after_typing(self, text: Seq<char>) -> SessionView
        decreases text.len(),
    {
        if text.len() == 0 {
            self
        } else {
            self.after_typing(text.drop_last()).on_key(UserInput::Char(text.last())).0
        }
    }

    /// The session after each of `words` has been typed, in order, and the
    /// next round asked for after each.
    pub open spec fn after_words(self, words: Seq<Seq<char>>) -> SessionView
        decreases words.len(),
    {
        if words.len() == 0 {
            self
        } else {
            self.after_words(words.drop_last()).after_typing(words.last()).on_next_round()
        }
    }

    /// What is shown for the round: the target word and the typed
    /// characters, each on a line of its own.
    pub open spec fn screen(self) -> Seq<char> {
        self.round.target.chars.push('\n') + self.round.buffer.chars.push('\n')
    }
}

/// A typing session over the words of one test.
pub struct Session {
    test: TypingTest,
    target: WordCursor,
    buffer: WordCursor,
    status: Status,
}

impl View for Session {
    type V = SessionView;

    closed spec fn view(&self) -> SessionView {
        SessionView {
            test: self.test@,
            round: state_of(&self.target, &self.buffer),
            status: self.status,
        }
    }
}

impl Session {
    /// The invariant of the type, see [`SessionView::wf`].
    pub open spec fn wf(&self) -> bool {
        self@.wf()
    }

    /// Starts a session on `test` and begins its first round.
    pub fn new(test: TypingTest) -> (session: Self)
        requires
            test.wf(),
            test@.current < usize::MAX,
        ensures
            session.wf(),
            session@ == SessionView::opening(test@),
    {
        let mut test = test;
        let empty = String::new();
        let buffer = WordCursor::new(&empty);
        let target = match test.next_word() {
            Some(word) => Some(WordCursor::new(word)),
            None => None,
        };
        match target {
            Some(target) => {
                let status = if target.is_at_end() {
                    Status::WordComplete
                } else {
                    Status::AwaitingInput
                };
                Session { test, target, buffer, status }
            },
            None => Session { test, target: WordCursor::new(&empty), buffer, status: Status::Finished },
        }
    }

    /// Where the session stands.
    pub fn status(&self) -> (status: Status)
        ensures
            status == self@.status,
    {
        self.status
    }

    /// Feeds one key event to the session.
    pub fn handle_key(&mut self, key: UserInput) -> (outcome: Option<Outcome>)
        requires
            old(self).wf(),
        ensures
            final(self).wf(),
            (final(self)@, outcome) == old(self)@.on_key(key),
    {
        match self.status {
            Status::AwaitingInput => {
                let outcome = step(&mut self.target, &mut self.buffer, key);
                match outcome {
                    Outcome::Killed => {
                        self.status = Status::Killed;
                    },
                    Outcome::WordComplete => {
                        self.status = Status::WordComplete;
                    },
                    _ => {},
                }
                Some(outcome)
            },
            Status::WordComplete => {
                match key {
                    UserInput::Kill => {
                        self.status = Status::Killed;
                        Some(Outcome::Killed)
                    },
                    _ => None,
                }
            },
            _ => None,
        }
    }

    /// Begins the next round if the last one is over, and gives the status
    /// of the session after that.
    pub fn next_round(&mut self) -> (status: Status)
        requires
            old(self).wf(),
        ensures
            final(self).wf(),
            final(self)@ == old(self)@.on_next_round(),
            status == final(self)@.status,
    {
        match self.status {
            Status::WordComplete => {
                let target = match self.test.next_word() {
                    Some(word) => Some(WordCursor::new(word)),
                    None => None,
                };
                match target {
                    Some(target) => {
                        let empty = String::new();
                        self.status = if target.is_at_end() {
                            Status::WordComplete
                        } else {
                            Status::AwaitingInput
                        };
                        self.target = target;
                        self.buffer = WordCursor::new(&empty);
                    },
                    None => {
                        self.status = Status::Finished;
                    },
                }
            },
            _ => {},
        }
        self.status
    }

    /// The target word of the round.
    pub fn target_word(&self) -> (word: String)
        ensures
            word@ == self@.round.target.chars,
    {
        self.target.word()
    }

    /// What has been typed in the round.
    pub fn typed(&self) -> (text: String)
        ensures
            text@ == self@.round.buffer.chars,
    {
        self.buffer.word()
    }

    /// The text to show for the round: the target word, a newline, the
    /// typed characters, a newline.
    pub fn screen_text(&self) -> (text: String)
        ensures
            text@ == self@.screen(),
    {
        proof {
            reveal_strlit("\n");
        }
        let mut text = self.target.word();
        text.append("\n");
        let typed = self.buffer.word();
        text.append(typed.as_str());
        text.append("\n");
        assert("\n"@ == seq!['\n']);
        text
    }
}

/// Events keep a well-formed session well formed, and never change the
/// words of the test.
pub proof fn lemma_apply_keeps_wf(s: SessionView, event: SessionEvent)
    requires
        s.wf(),
    ensures
        s.apply(event).wf(),
        s.apply(event).test.words == s.test.words,
        s.apply(event).test.current >= s.test.current,
{
}

/// The kill signal ends a session in the middle of a word and between
/// two words alike: the outcome is `Killed`, the status is `Killed`, and
/// the test and the round are as they were.
pub proof fn lemma_kill_ends_session(s: SessionView)
    requires
        s.status is AwaitingInput || s.status is WordComplete,
    ensures
        s.on_key(UserInput::Kill) == (
            SessionView { test: s.test, round: s.round, status: Status::Killed },
            Some(Outcome::Killed),
        ),
{
}

/// A killed session stays as it is, whatever events follow: no key is
/// taken and no further word is handed out.
pub proof fn lemma_killed_is_final(s: SessionView, events: Seq<SessionEvent>)
    requires
        s.status is Killed,
    ensures
        s.apply_all(events) == s,
    decreases events.len(),
{
    if events.len() > 0 {
        lemma_killed_is_final(s, events.drop_last());
    }
}

/// A finished session stays as it is, whatever events follow.
pub proof fn lemma_finished_is_final(s: SessionView, events: Seq<SessionEvent>)
    requires
        s.status is Finished,
    ensures
        s.apply_all(events) == s,
    decreases events.len(),
{
    if events.len() > 0 {
        lemma_finished_is_final(s, events.drop_last());
    }
}

/// Wherever a running session stands, in a word or between two, once the
/// kill signal has been taken no later event hands out another word or
/// changes the round.
pub proof fn lemma_kill_stops_the_run(s: SessionView, events: Seq<SessionEvent>)
    requires
        s.status is AwaitingInput || s.status is WordComplete,
    ensures
        s.on_key(UserInput::Kill).0.apply_all(events).status is Killed,
        s.on_key(UserInput::Kill).0.apply_all(events).test == s.test,
        s.on_key(UserInput::Kill).0.apply_all(events).round == s.round,
{
    lemma_kill_ends_session(s);
    lemma_killed_is_final(s.on_key(UserInput::Kill).0, events);
}

/// While the word of a fresh round is typed exactly, the session waits
/// for input after every character but the last, and the round is over
/// after the last.
pub proof fn lemma_typing_in_session(s: SessionView, word: Seq<char>, k: int)
    requires
        s.status is AwaitingInput,
        s.round == MatchState::fresh(word),
        0 <= k <= word.len(),
        word.len() > 0,
    ensures
        s.after_typing(word.take(k)) == (SessionView {
            test: s.test,
            round: MatchState::fresh(word).after_typing(word.take(k)),
            status: if k == word.len() {
                Status::WordComplete
            } else {
                Status::AwaitingInput
            },
        }),
    decreases k,
{
    if k > 0 {
        lemma_typing_in_session(s, word, k - 1);
        lemma_typed_prefix(word, k - 1);
        lemma_typed_prefix(word, k);
        assert(word.take(k).drop_last() == word.take(k - 1));
        assert(word.take(k).last() == word[k - 1]);
    }
}

/// When the first `j` of the words that are left have been typed exactly,
/// the session waits for the first character of the next one, or is
/// finished if that was the last.
pub proof fn lemma_words_typed(test: TestView, j: int)
    requires
        test.wf(),
        test.current <= test.words.len(),
        0 <= j <= test.words.len() - test.current,
    ensures
        SessionView::opening(test).after_words(
            test.words.subrange(test.current as int, test.current + j),
        ).test.words == test.words,
        test.current + j < test.words.len() ==> SessionView::opening(test).after_words(
            test.words.subrange(test.current as int, test.current + j),
        ) == (SessionView {
            test: TestView { words: test.words, current: (test.current + j + 1) as nat },
            round: MatchState::fresh(test.words[test.current + j]),
            status: Status::AwaitingInput,
        }),
        test.current + j == test.words.len() ==> SessionView::opening(test).after_words(
            test.words.subrange(test.current as int, test.current + j),
        ).status is Finished,
        test.current + j == test.words.len() ==> SessionView::opening(test).after_words(
            test.words.subrange(test.current as int, test.current + j),
        ).test.exhausted(),
    decreases j,
{
    let from = test.current as int;
    let typed = test.words.subrange(from, from + j);
    if j > 0 {
        lemma_words_typed(test, j - 1);
        let before = SessionView::opening(test).after_words(test.words.subrange(from, from + j - 1));
        let word = test.words[from + j - 1];
        assert(typed.drop_last() == test.words.subrange(from, from + j - 1));
        assert(typed.last() == word);
        assert(is_word(word));
        lemma_typing_in_session(before, word, word.len() as int);
        assert(word.take(word.len() as int) == word);
        if from + j < test.words.len() {
            assert(is_word(test.words[from + j]));
        }
    } else {
        if from < test.words.len() {
            assert(is_word(test.words[from]));
        }
    }
}

/// Typing every word that is left, each exactly, ends the session
/// normally: it is finished, not killed, and every word has been handed
/// out.
pub proof fn lemma_typing_every_word_finishes(test: TestView)
    requires
        test.wf(),
        test.current <= test.words.len(),
    ensures
        SessionView::opening(test).after_words(test.words.skip(test.current as int)).status
            is Finished,
        SessionView::opening(test).after_words(
            test.words.skip(test.current as int),
        ).test.exhausted(),
{
    lemma_words_typed(test, test.words.len() - test.current);
    assert(test.words.skip(test.current as int) == test.words.subrange(
        test.current as int,
        test.words.len() as int,
    ));
}

} // verus!
