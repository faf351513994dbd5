//! Character-level scanning utilities: a byte cursor over a method
//! declaration and an accumulator for the word being read.

use vstd::prelude::*;

verus! {

use vstd::string::StrSliceExecFns;

/// Byte cursor over the text of one method declaration.
pub struct MethodParser {
    pub content: Vec<u8>,
    pub current_idx: usize,
}

impl MethodParser {
    /// Cursor over the UTF-8 bytes of the text, at the start.
    pub fn new(content: String) -> (r: MethodParser)
        ensures
            r.content@ == vstd::utf8::encode_utf8(content@),
            r.current_idx == 0,
    {
        MethodParser { current_idx: 0, content: content.as_str().as_bytes_vec() }
    }

    /// The byte under the cursor, advancing past it; `None` once the
    /// text is exhausted.
    pub fn next_char(&mut self) -> (r: Option<&u8>)
        requires
            old(self).current_idx <= old(self).content@.len(),
        ensures
            final(self).content@ == old(self).content@,
            (if old(self).current_idx < old(self).content@.len() {
                &&& r == Some(&old(self).content@[old(self).current_idx as int])
                &&& final(self).current_idx == old(self).current_idx + 1
            } else {
                &&& r is None
                &&& final(self).current_idx == old(self).current_idx
            }),
            final(self).current_idx <= final(self).content@.len(),
    {
        if self.current_idx < self.content.len() {
            let i = self.current_idx;
            self.current_idx = i + 1;
            Some(&self.content[i])
        } else {
            None
        }
    }

    /// Whether the byte under the cursor is the given character,
    /// without advancing; `false` once the text is exhausted.
    pub fn is_next_char(&self, char: char) -> (r: bool)
        requires
            char < 128,
        ensures
            r == (self.current_idx < self.content@.len() && self.content@[self.current_idx as int]
                == char as u8),
    {
        if self.current_idx < self.content.len() {
            self.content[self.current_idx] == char as u8
        } else {
            false
        }
    }
}

/// Accumulator for the word currently being scanned.
#[derive(Debug)]
pub struct CurrentWord {
    pub content: String,
}

impl CurrentWord {
    /// Empty accumulator.
    pub fn new() -> (r: CurrentWord)
        ensures
            r.content@ == Seq::<char>::empty(),
    {
        CurrentWord { content: String::new() }
    }

    /// Hands the accumulated word out and starts an empty one.
    pub fn reset(&mut self) -> (r: String)
        ensures
            r@ == old(self).content@,
            final(self).content@ == Seq::<char>::empty(),
    {
        let mut taken = String::new();
        core::mem::swap(&mut self.content, &mut taken);
        taken
    }

    /// Appends one character, given as its ASCII byte.
    pub fn add_char(&mut self, char: u8)
        requires
            char < 128,
        ensures
            final(self).content@ == old(self).content@.push(char as char),
    {
        crate::text::string_push(&mut self.content, char as char);
    }
}

} // verus!
