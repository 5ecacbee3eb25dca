//! A cursor over a pre-classified word list: an index into a vector of
//! words, with peeking that can look past blank words.  This is the
//! token-list counterpart of the streaming `Parser` cursor.

use vstd::prelude::*;

use crate::strutil::str_eq;

verus! {

/// The lexical class of a word.
#[derive(Debug, PartialEq, Eq, Structural, Copy, Clone)]
pub enum KeyWord {
    Empty,
    Let,
    For,
    Variable,
    Digit,
    String,
    Control,
}

/// A classified word: its text and its class.
#[derive(Debug)]
pub struct Word {
    pub content: String,
    pub key: KeyWord,
}

impl Word {
    /// A word from its text and class.
    pub fn new(w: &str, key: KeyWord) -> (r: Word)
        ensures
            r.content@ == w@,
            r.key == key,
    {
        Word { content: w.to_owned(), key }
    }
}

/// Whether a word is blank: a control word holding a line break, a
/// space or a tab.
pub open spec fn word_is_blank(w: Word) -> bool {
    w.key == KeyWord::Control && (w.content@ == "\r"@ || w.content@ == "\n"@ || w.content@
        == " "@ || w.content@ == "\t"@)
}

/// The first offset at or after `i` whose word is not blank; the list
/// length when every remaining word is blank.
pub open spec fn solid_from(words: Seq<Word>, i: int) -> int
    decreases words.len() - i,
{
    if 0 <= i < words.len() && word_is_blank(words[i]) {
        solid_from(words, i + 1)
    } else {
        i
    }
}

fn blank_word(w: &Word) -> (r: bool)
    ensures
        r == word_is_blank(*w),
{
    match w.key {
        KeyWord::Control => str_eq(w.content.as_str(), "\r") || str_eq(w.content.as_str(), "\n")
            || str_eq(w.content.as_str(), " ") || str_eq(w.content.as_str(), "\t"),
        _ => false,
    }
}

/// A cursor over a word list: the index moves only as asked and the list
/// itself never changes.
pub struct WordList {
    pub index: usize,
    pub list: Vec<Word>,
}

impl WordList {
    /// The word under the cursor, or nothing once the index has run past
    /// the end of the list.
    pub fn current(&mut self) -> (r: Option<&Word>)
        ensures
            *final(self) == *old(self),
            match r {
                Some(w) => old(self).index < old(self).list@.len()
                    && *w == old(self).list@[old(self).index as int],
                None => old(self).index >= old(self).list@.len(),
            },
    {
        self.peek_n(0)
    }

    /// Advances the cursor one word and yields the word it lands on.
    pub fn next(&mut self) -> (r: Option<&Word>)
        requires
            old(self).index < usize::MAX,
        ensures
            final(self).index == old(self).index + 1,
            final(self).list == old(self).list,
            match r {
                Some(w) => final(self).index < final(self).list@.len()
                    && *w == final(self).list@[final(self).index as int],
                None => final(self).index >= final(self).list@.len(),
            },
    {
        self.index = self.index + 1;
        if self.index < self.list.len() {
            Some(&self.list[self.index])
        } else {
            None
        }
    }

    /// Advances the cursor one word.
    pub fn next1(&mut self)
        requires
            old(self).index < usize::MAX,
        ensures
            final(self).index == old(self).index + 1,
            final(self).list == old(self).list,
    {
        self.index = self.index + 1;
    }

    /// Moves the cursor one word back.
    pub fn before(&mut self)
        requires
            old(self).index >= 1,
        ensures
            final(self).index == old(self).index - 1,
            final(self).list == old(self).list,
    {
        self.index = self.index - 1;
    }

    /// The word one past the cursor, without moving it.
    pub fn peek(&self) -> (r: Option<&Word>)
        requires
            self.index < usize::MAX,
        ensures
            match r {
                Some(w) => self.index + 1 < self.list@.len() && *w == self.list@[self.index + 1],
                None => self.index + 1 >= self.list@.len(),
            },
    {
        self.peek_at(1)
    }

    /// The word `n` past the cursor, without moving it.
    pub fn peek_n(&self, n: usize) -> (r: Option<&Word>)
        requires
            self.index + n <= usize::MAX,
        ensures
            match r {
                Some(w) => self.index + n < self.list@.len() && *w == self.list@[self.index + n],
                None => self.index + n >= self.list@.len(),
            },
    {
        self.peek_at(n)
    }

    fn peek_at(&self, n: usize) -> (r: Option<&Word>)
        requires
            self.index + n <= usize::MAX,
        ensures
            match r {
                Some(w) => self.index + n < self.list@.len() && *w == self.list@[self.index + n],
                None => self.index + n >= self.list@.len(),
            },
    {
        let i = self.index + n;
        if i < self.list.len() {
            Some(&self.list[i])
        } else {
            None
        }
    }

    /// The first word at or after the cursor that is not blank, without
    /// moving the cursor; `n` only repeats the probe and never reaches
    /// past that word.
    pub fn peek_not_empty_n(&self, n: usize) -> (r: Option<&Word>)
        ensures
            match r {
                Some(w) => {
                    let j = solid_from(self.list@, self.index as int);
                    j < self.list@.len() && *w == self.list@[j]
                },
                None => solid_from(self.list@, self.index as int) >= self.list@.len(),
            },
    {
        let n_words = self.list.len();
        let mut not_empty_c: usize = 0;
        let mut peek_index: usize = 0;
        loop
            invariant
                n_words == self.list@.len(),
                0 <= not_empty_c <= n,
                peek_index == 0 || self.index + peek_index <= n_words,
                solid_from(self.list@, self.index as int) == solid_from(
                    self.list@,
                    self.index + peek_index,
                ),
            ensures
                self.index + peek_index < self.list@.len(),
                self.index + peek_index == solid_from(self.list@, self.index as int),
            decreases self.list@.len() - self.index - peek_index, n - not_empty_c,
        {
            let i = self.index + peek_index;
            if i < self.list.len() {
                let w = &self.list[i];
                if blank_word(w) {
                    peek_index = peek_index + 1;
                    continue ;
                }
            } else {
                return None;
            }
            if not_empty_c == n {
                break ;
            }
            not_empty_c = not_empty_c + 1;
        }
        let i = self.index + peek_index;
        Some(&self.list[i])
    }
}

/// Advances the cursor past blank words, yielding the first solid word.
pub fn skip_empty(word_list: &mut WordList) -> (r: Option<&Word>)
    requires
        old(word_list).index <= old(word_list).list@.len(),
    ensures
        final(word_list).list == old(word_list).list,
        final(word_list).index as int == solid_from(
            old(word_list).list@,
            old(word_list).index as int,
        ),
        match r {
            Some(w) => final(word_list).index < final(word_list).list@.len()
                && *w == final(word_list).list@[final(word_list).index as int],
            None => final(word_list).index >= final(word_list).list@.len(),
        },
{
    loop
        invariant
            word_list.index <= word_list.list@.len(),
            word_list.list == old(word_list).list,
            solid_from(word_list.list@, word_list.index as int) == solid_from(
                old(word_list).list@,
                old(word_list).index as int,
            ),
        ensures
            word_list.index <= word_list.list@.len(),
            word_list.list == old(word_list).list,
            word_list.index as int == solid_from(
                old(word_list).list@,
                old(word_list).index as int,
            ),
        decreases word_list.list@.len() - word_list.index,
    {
        let i = word_list.index;
        if i < word_list.list.len() {
            let advance = blank_word(&word_list.list[i]);
            if advance {
                word_list.index = word_list.index + 1;
                continue ;
            }
        }
        break ;
    }
    let i = word_list.index;
    if i < word_list.list.len() {
        Some(&word_list.list[i])
    } else {
        None
    }
}

} // verus!
