//! The matching rules: how one key event changes the target cursor and the
//! typed buffer, and what it says about the user's progress.

use crate::input::UserInput;
use crate::word_cursor::{CursorView, WordCursor};
use vstd::prelude::*;

verus! {

/// What one key event meant for the word being typed.
#[derive(Clone, Copy, Debug, PartialEq, Eq, Structural)]
pub enum Outcome {
    /// Go on reading keys.
    Continue,
    /// The key was not the expected one; it stays in the buffer.
    Mismatch,
    /// The whole word has been typed.
    WordComplete,
    /// The session is to end at once.
    Killed,
}

/// The state that the matching rules work on: the target word with its
/// cursor, and what the user has typed with its own cursor.
pub struct MatchState {
    pub target: CursorView,
    pub buffer: CursorView,
}

impl MatchState {
    /// Both cursors lie within their characters.
    pub open spec fn wf(self) -> bool {
        self.target.wf() && self.buffer.wf()
    }

    /// The state at the start of a round: the target cursor at the first
    /// character of `word`, nothing typed.
    pub open spec fn fresh(word: Seq<char>) -> MatchState {
        MatchState {
            target: CursorView { chars: word, cur: 0 },
            buffer: CursorView { chars: Seq::empty(), cur: 0 },
        }
    }

    /// Every character of the target word has been matched.
    pub open spec fn complete(self) -> bool {
        self.target.at_end()
    }

    /// The two cursors stand at the same position.
    pub open spec fn aligned(self) -> bool {
        self.target.cur == self.buffer.cur
    }

    /// The state after one key event, and the outcome of that event.
    ///
    /// A character key on a complete word changes nothing. Otherwise the
    /// character is appended to the buffer and the buffer cursor moves on;
    /// the target cursor moves on only if the character is the expected one
    /// and the cursors were aligned. Backspace takes the last character off
    /// the buffer and moves both cursors one step back, neither below zero.
    /// Tab and the kill signal leave the state as it is.
    pub open spec fn step(self, key: UserInput) -> (MatchState, Outcome) {
        match key {
            UserInput::Char(c) => {
                if self.complete() {
                    (self, Outcome::WordComplete)
                } else {
                    let buffer = self.buffer.push(c).advance();
                    if self.target.current() == Some(c) && self.aligned() {
                        let target = self.target.advance();
                        (
                            MatchState { target, buffer },
                            if target.at_end() {
                                Outcome::WordComplete
                            } else {
                                Outcome::Continue
                            },
                        )
                    } else {
                        (MatchState { target: self.target, buffer }, Outcome::Mismatch)
                    }
                }
            },
            UserInput::Backspace => (
                MatchState { target: self.target.retreat(), buffer: self.buffer.retreat().pop() },
                Outcome::Continue,
            ),
            UserInput::Tab => (self, Outcome::Continue),
            UserInput::Kill => (self, Outcome::Killed),
        }
    }

    /// The state after a sequence of key events, taken in order.
    pub open spec fn after(self, keys: Seq<UserInput>) -> MatchState
        decreases keys.len(),
    {
        if keys.len() == 0 {
            self
        } else {
            self.after(keys.drop_last()).step(keys.last()).0
        }
    }

    /// The state after `text` has been typed, one character key for each
    /// of its characters, in order.
    pub open spec fn after_typing(self, text: Seq<char>) -> MatchState
        decreases text.len(),
    {
        if text.len() == 0 {
            self
        } else {
            self.after_typing(text.drop_last()).step(UserInput::Char(text.last())).0
        }
    }

    /// The buffer cursor stands at the end of the buffer, the target cursor
    /// is not ahead of it, and the characters typed up to the target
    /// cursor are those of the word. Every state that the rules reach from
    /// a fresh one is like this.
    pub open spec fn coherent(self) -> bool {
        &&& self.wf()
        &&& self.buffer.cur == self.buffer.chars.len()
        &&& self.target.cur <= self.buffer.cur
        &&& self.buffer.chars.take(self.target.cur as int) == self.target.chars.take(
            self.target.cur as int,
        )
    }
}

/// The state that a target cursor and a typed buffer make up.
pub open spec fn state_of(target: &WordCursor, buffer: &WordCursor) -> MatchState {
    MatchState { target: target@, buffer: buffer@ }
}

/// Applies one key event to the target cursor and the typed buffer.
pub fn step(target: &mut WordCursor, buffer: &mut WordCursor, key: UserInput) -> (outcome: Outcome)
    requires
        old(target).wf(),
        old(buffer).wf(),
    ensures
        final(target).wf(),
        final(buffer).wf(),
        (state_of(final(target), final(buffer)), outcome) == state_of(old(target), old(buffer)).step(
            key,
        ),
{
    match key {
        UserInput::Char(typed) => {
            let expected: char = match target.peek() {
                Some(c) => *c,
                None => {
                    return Outcome::WordComplete;
                },
            };
            let aligned = target.position() == buffer.position();
            buffer.push(typed);
            buffer.next();
            if typed == expected && aligned {
                target.next();
                if target.is_at_end() {
                    Outcome::WordComplete
                } else {
                    Outcome::Continue
                }
            } else {
                Outcome::Mismatch
            }
        },
        UserInput::Backspace => {
            buffer.prev();
            buffer.pop();
            target.prev();
            Outcome::Continue
        },
        UserInput::Tab => Outcome::Continue,
        UserInput::Kill => Outcome::Killed,
    }
}

/// The rules never move a cursor out of its characters, and never touch
/// the target word.
pub proof fn lemma_step_keeps_wf(s: MatchState, key: UserInput)
    requires
        s.wf(),
    ensures
        s.step(key).0.wf(),
        s.step(key).0.target.chars == s.target.chars,
{
}

/// A fresh round is coherent.
pub proof fn lemma_fresh_is_coherent(word: Seq<char>)
    ensures
        MatchState::fresh(word).coherent(),
{
    assert(Seq::<char>::empty().take(0) == word.take(0));
}

/// The rules keep a coherent state coherent.
pub proof fn lemma_step_keeps_coherent(s: MatchState, key: UserInput)
    requires
        s.coherent(),
    ensures
        s.step(key).0.coherent(),
{
    let t = s.step(key).0;
    let i = s.target.cur as int;
    match key {
        UserInput::Char(c) => {
            if !s.complete() {
                if s.target.current() == Some(c) && s.aligned() {
                    assert(t.buffer.chars.take(i + 1) == t.buffer.chars);
                    assert(s.buffer.chars.take(i) == s.buffer.chars);
                    assert(t.buffer.chars == s.target.chars.take(i).push(c));
                    assert(s.target.chars.take(i + 1) == s.target.chars.take(i).push(c));
                } else {
                    assert(t.buffer.chars.take(i) == s.buffer.chars.take(i));
                }
            }
        },
        UserInput::Backspace => {
            let j = t.target.cur as int;
            if s.buffer.chars.len() > 0 {
                assert(t.buffer.chars.take(j) == s.buffer.chars.take(i).take(j));
                assert(t.target.chars.take(j) == s.target.chars.take(i).take(j));
            } else {
                assert(t.buffer.chars.take(j) == t.target.chars.take(j));
            }
        },
        _ => {},
    }
}

/// Whatever keys follow a fresh round, the state stays coherent.
pub proof fn lemma_reached_is_coherent(word: Seq<char>, keys: Seq<UserInput>)
    ensures
        MatchState::fresh(word).after(keys).coherent(),
    decreases keys.len(),
{
    if keys.len() == 0 {
        lemma_fresh_is_coherent(word);
    } else {
        lemma_reached_is_coherent(word, keys.drop_last());
        lemma_step_keeps_coherent(MatchState::fresh(word).after(keys.drop_last()), keys.last());
    }
}

/// When a key completes the word in a coherent state, the buffer holds the
/// word, character for character.
pub proof fn lemma_complete_means_typed(s: MatchState, key: UserInput)
    requires
        s.coherent(),
        !s.complete(),
        s.step(key).1 == Outcome::WordComplete,
    ensures
        s.step(key).0.buffer.chars == s.target.chars,
        s.step(key).0.complete(),
{
    lemma_step_keeps_coherent(s, key);
    let t = s.step(key).0;
    assert(t.target.cur == t.target.chars.len());
    assert(t.buffer.chars.take(t.target.cur as int) == t.buffer.chars);
    assert(t.target.chars.take(t.target.cur as int) == t.target.chars);
}

/// After the first `k` characters of a word have been typed into a fresh
/// round, both cursors stand at `k` and the buffer holds those characters.
pub proof fn lemma_typed_prefix(word: Seq<char>, k: int)
    requires
        0 <= k <= word.len(),
    ensures
        MatchState::fresh(word).after_typing(word.take(k)) == (MatchState {
            target: CursorView { chars: word, cur: k as nat },
            buffer: CursorView { chars: word.take(k), cur: k as nat },
        }),
    decreases k,
{
    if k == 0 {
        assert(word.take(0) == Seq::<char>::empty());
    } else {
        lemma_typed_prefix(word, k - 1);
        assert(word.take(k).drop_last() == word.take(k - 1));
        assert(word.take(k).last() == word[k - 1]);
        assert(word.take(k - 1).push(word[k - 1]) == word.take(k));
    }
}

/// Typing a word exactly, from a fresh round, completes it with its last
/// character and not before: every key but the last gives `Continue`, the
/// last gives `WordComplete`, none gives `Mismatch`, and in the end both
/// cursors stand behind the word and the buffer holds it.
pub proof fn lemma_exact_typing_completes(word: Seq<char>)
    ensures
        forall|k: int|
            0 <= k < word.len() ==> (#[trigger] MatchState::fresh(word).after_typing(
                word.take(k),
            )).step(UserInput::Char(word[k])).1 == if k == word.len() - 1 {
                Outcome::WordComplete
            } else {
                Outcome::Continue
            },
        forall|k: int|
            0 <= k < word.len() ==> !(#[trigger] MatchState::fresh(word).after_typing(
                word.take(k),
            )).complete(),
        MatchState::fresh(word).after_typing(word) == (MatchState {
            target: CursorView { chars: word, cur: word.len() },
            buffer: CursorView { chars: word, cur: word.len() },
        }),
        MatchState::fresh(word).after_typing(word).complete(),
{
    assert forall|k: int| 0 <= k < word.len() implies (#[trigger] MatchState::fresh(
        word,
    ).after_typing(word.take(k))).step(UserInput::Char(word[k])).1 == if k == word.len() - 1 {
        Outcome::WordComplete
    } else {
        Outcome::Continue
    } by {
        lemma_typed_prefix(word, k);
    }
    assert forall|k: int| 0 <= k < word.len() implies !(#[trigger] MatchState::fresh(
        word,
    ).after_typing(word.take(k))).complete() by {
        lemma_typed_prefix(word, k);
    }
    lemma_typed_prefix(word, word.len() as int);
    assert(word.take(word.len() as int) == word);
}

/// A character that is not the expected one gives `Mismatch`: the target
/// cursor stays, and the character is appended to the buffer, whose cursor
/// moves on. With the buffer as long as the target cursor is far, the
/// wrong character stands at the position of the target cursor.
pub proof fn lemma_wrong_char_mismatch(s: MatchState, c: char)
    requires
        s.wf(),
        !s.complete(),
        s.target.current() != Some(c),
    ensures
        s.step(UserInput::Char(c)).1 == Outcome::Mismatch,
        s.step(UserInput::Char(c)).0.target == s.target,
        s.step(UserInput::Char(c)).0.buffer.chars == s.buffer.chars.push(c),
        s.step(UserInput::Char(c)).0.buffer.cur == s.buffer.cur + 1,
        s.buffer.chars.len() == s.target.cur ==> s.step(UserInput::Char(c)).0.buffer.chars[s.target.cur as int]
            == c,
{
}

/// A character typed while the cursors are not aligned gives `Mismatch`
/// too, even if it is the expected one.
pub proof fn lemma_misaligned_char_mismatch(s: MatchState, c: char)
    requires
        s.wf(),
        !s.complete(),
        !s.aligned(),
    ensures
        s.step(UserInput::Char(c)).1 == Outcome::Mismatch,
        s.step(UserInput::Char(c)).0.target == s.target,
{
}

/// One backspace after a mismatch: the buffer is what it was before the
/// wrong character, with its cursor, and the target cursor stands one
/// position before the mismatch, or at zero.
pub proof fn lemma_backspace_after_mismatch(s: MatchState, c: char)
    requires
        s.coherent(),
        s.aligned(),
        !s.complete(),
        s.target.current() != Some(c),
    ensures
        ({
            let wrong = s.step(UserInput::Char(c)).0;
            let (back, outcome) = wrong.step(UserInput::Backspace);
            &&& outcome == Outcome::Continue
            &&& back.buffer == s.buffer
            &&& back.buffer.chars.len() == s.target.cur
            &&& back.target == s.target.retreat()
        }),
{
    let wrong = s.step(UserInput::Char(c)).0;
    assert(wrong.buffer.chars.drop_last() == s.buffer.chars);
}

/// A wrong first character and one backspace lead back to the fresh
/// round: the buffer is empty and both cursors stand at zero, so the word
/// can be typed from there as from the start.
pub proof fn lemma_backspace_restores_start(word: Seq<char>, c: char)
    requires
        word.len() > 0,
        c != word[0],
    ensures
        MatchState::fresh(word).step(UserInput::Char(c)).1 == Outcome::Mismatch,
        MatchState::fresh(word).step(UserInput::Char(c)).0.step(UserInput::Backspace) == (
            MatchState::fresh(word),
            Outcome::Continue,
        ),
        MatchState::fresh(word).step(UserInput::Char(c)).0.step(
            UserInput::Backspace,
        ).0.after_typing(word).complete(),
{
    let s = MatchState::fresh(word);
    lemma_fresh_is_coherent(word);
    lemma_backspace_after_mismatch(s, c);
    let back = s.step(UserInput::Char(c)).0.step(UserInput::Backspace).0;
    assert(back.buffer.chars =~= s.buffer.chars);
    assert(back == s);
    lemma_exact_typing_completes(word);
}

/// Backspace on an empty buffer leaves the buffer empty and its cursor at
/// zero; in a coherent state it changes nothing at all.
pub proof fn lemma_backspace_on_empty(s: MatchState)
    requires
        s.wf(),
        s.buffer.chars.len() == 0,
    ensures
        s.step(UserInput::Backspace).1 == Outcome::Continue,
        s.step(UserInput::Backspace).0.buffer == s.buffer,
        s.step(UserInput::Backspace).0.buffer.cur == 0,
        s.step(UserInput::Backspace).0.target == s.target.retreat(),
        s.coherent() ==> s.step(UserInput::Backspace).0 == s,
{
}

/// The kill signal gives `Killed` in every state and changes none.
pub proof fn lemma_kill_changes_nothing(s: MatchState)
    ensures
        s.step(UserInput::Kill) == (s, Outcome::Killed),
{
}

} // verus!
