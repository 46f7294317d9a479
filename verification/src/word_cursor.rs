//! A word held as characters, with a cursor into it.

use vstd::prelude::*;

verus! {

/// `String::push` of std: the character is appended to the end of the
/// string, and nothing else of the string changes.
pub assume_specification[ String::push ](s: &mut String, ch: char)
    ensures
        final(s)@ == old(s)@.push(ch),
;

/// The mathematical content of a [`WordCursor`]: its characters and the
/// position of its cursor.
pub struct CursorView {
    pub chars: Seq<char>,
    pub cur: nat,
}

impl CursorView {
    /// The cursor lies inside the characters or just behind the last one.
    pub open spec fn wf(self) -> bool {
        self.cur <= self.chars.len()
    }

    /// The character under the cursor, if the cursor is not at the end.
    pub open spec fn current(self) -> Option<char> {
        if self.cur < self.chars.len() {
            Some(self.chars[self.cur as int])
        } else {
            None
        }
    }

    /// The cursor has passed every character.
    pub open spec fn at_end(self) -> bool {
        self.cur >= self.chars.len()
    }

    /// One step forward, never past the end.
    pub open spec fn advance(self) -> CursorView {
        if self.cur < self.chars.len() {
            CursorView { chars: self.chars, cur: self.cur + 1 }
        } else {
            self
        }
    }

    /// One step back, never before the start.
    pub open spec fn retreat(self) -> CursorView {
        if self.cur > 0 {
            CursorView { chars: self.chars, cur: (self.cur - 1) as nat }
        } else {
            self
        }
    }

    /// One more character at the end; the cursor stays.
    pub open spec fn push(self, c: char) -> CursorView {
        CursorView { chars: self.chars.push(c), cur: self.cur }
    }

    /// The last character removed, if there is one; a cursor that stood
    /// behind it is pulled back to the new end.
    pub open spec fn pop(self) -> CursorView {
        if self.chars.len() == 0 {
            self
        } else {
            let chars = self.chars.drop_last();
            CursorView { chars, cur: if self.cur <= chars.len() { self.cur } else { chars.len() } }
        }
    }
}

/// The character that an optional reference points to.
pub open spec fn pointee(c: Option<&char>) -> Option<char> {
    match c {
        Some(r) => Some(*r),
        None => None,
    }
}

/// The characters of a word and a cursor into them.
pub struct WordCursor {
    word_chars: Vec<char>,
    cur: usize,
}

impl View for WordCursor {
    type V = CursorView;

    closed spec fn view(&self) -> CursorView {
        CursorView { chars: self.word_chars@, cur: self.cur as nat }
    }
}

impl WordCursor {
    /// The invariant of the type: the cursor never leaves the word.
    pub open spec fn wf(&self) -> bool {
        self@.wf()
    }

    /// A cursor at the start of `word`.
    pub fn new(word: &String) -> (cursor: Self)
        ensures
            cursor.wf(),
            cursor@.chars == word@,
            cursor@.cur == 0,
    {
        let mut word_chars: Vec<char> = Vec::new();
        let text = word.as_str();
        for c in it: text.chars()
            invariant
                it.seq() == text@,
                word_chars@ == text@.take(it.index()),
        {
            word_chars.push(c);
        }
        Self { word_chars, cur: 0 }
    }

    /// The character under the cursor.
    pub fn peek(&mut self) -> (c: Option<&char>)
        requires
            old(self).wf(),
        ensures
            *final(self) == *old(self),
            pointee(c) == old(self)@.current(),
    {
        if self.cur < self.word_chars.len() {
            Some(&self.word_chars[self.cur])
        } else {
            None
        }
    }

    /// Moves the cursor one character forward, unless it is at the end, and
    /// gives the character it then stands on.
    pub fn next(&mut self) -> (c: Option<&char>)
        requires
            old(self).wf(),
        ensures
            final(self).wf(),
            final(self)@ == old(self)@.advance(),
            pointee(c) == final(self)@.current(),
    {
        if self.cur < self.word_chars.len() {
            self.cur += 1;
        }
        if self.cur < self.word_chars.len() {
            Some(&self.word_chars[self.cur])
        } else {
            None
        }
    }

    /// Moves the cursor one character back, unless it is at the start, and
    /// gives the character it then stands on.
    pub fn prev(&mut self) -> (c: Option<&char>)
        requires
            old(self).wf(),
        ensures
            final(self).wf(),
            final(self)@ == old(self)@.retreat(),
            pointee(c) == final(self)@.current(),
    {
        let prev_cur: usize = if self.cur == 0 { 0 } else { self.cur - 1 };
        self.cur = prev_cur;
        if prev_cur < self.word_chars.len() {
            Some(&self.word_chars[prev_cur])
        } else {
            None
        }
    }

    /// Appends a character; the cursor stays where it is.
    pub fn push(&mut self, c: char)
        requires
            old(self).wf(),
        ensures
            final(self).wf(),
            final(self)@ == old(self)@.push(c),
    {
        self.word_chars.push(c)
    }

    /// Removes the last character, if there is one, and gives it back. A
    /// cursor that stood behind it moves to the new end.
    pub fn pop(&mut self) -> (c: Option<char>)
        requires
            old(self).wf(),
        ensures
            final(self).wf(),
            final(self)@ == old(self)@.pop(),
            c == if old(self)@.chars.len() > 0 {
                Some(old(self)@.chars.last())
            } else {
                None
            },
    {
        let c = self.word_chars.pop();
        if self.cur > self.word_chars.len() {
            self.cur = self.word_chars.len();
        }
        c
    }

    /// The characters as a string.
    pub fn word(&self) -> (text: String)
        ensures
            text@ == self@.chars,
    {
        let mut text = String::new();
        let mut i: usize = 0;
        while i < self.word_chars.len()
            invariant
                i <= self.word_chars.len(),
                text@ == self.word_chars@.take(i as int),
            decreases self.word_chars.len() - i,
        {
            text.push(self.word_chars[i]);
            i += 1;
        }
        text
    }

    /// The position of the cursor.
    pub fn position(&self) -> (p: usize)
        ensures
            p == self@.cur,
    {
        self.cur
    }

    /// The number of characters.
    pub fn len(&self) -> (n: usize)
        ensures
            n == self@.chars.len(),
    {
        self.word_chars.len()
    }

    /// Whether the cursor has passed every character.
    pub fn is_at_end(&self) -> (b: bool)
        ensures
            b == self@.at_end(),
    {
        self.cur >= self.word_chars.len()
    }
}

} // verus!
