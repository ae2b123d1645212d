//! The lexer: a cursor over the characters of a text that hands out tokens.

use crate::scan::{
    lemma_run_end_resumed, lemma_scan_advances, run_end, scan, step_over, CharClass,
};
use crate::text;
use crate::text::char_is_ascii_digit;
use crate::token;
use crate::token::{classify_number, classify_word, optional_view, reserved, Token};
use vstd::prelude::*;

verus! {

/// A cursor over a text.
///
/// The lexer borrows the text and holds its characters, decoded once so that
/// each can be reached by its offset. It holds the offset of the character
/// under examination, the offset after it, and that character itself, or
/// `None` once the text is exhausted. Offsets count characters, not bytes,
/// and only ever grow.
pub struct Lexer<'a> {
    input: &'a str,
    chars: Vec<char>,
    position: usize,
    read_position: usize,
    ch: Option<char>,
}

impl<'a> Lexer<'a> {
    /// The characters of the text.
    pub closed spec fn text(&self) -> Seq<char> {
        self.input@
    }

    /// The offset of the character under examination; the length of the text
    /// once it is exhausted.
    pub closed spec fn offset(&self) -> int {
        self.position as int
    }

    /// The fields agree: the characters held are those of the text, the offset
    /// lies within the text, and the character under examination is the one
    /// at the offset.
    pub closed spec fn wf(&self) -> bool {
        &&& self.chars@ == self.input@
        &&& self.position <= self.chars@.len()
        &&& self.read_position == step_over(self.chars@, self.position as int)
        &&& self.ch == if self.position < self.chars@.len() {
            Some(self.chars@[self.position as int])
        } else {
            None
        }
    }

    /// The offset of a well-formed lexer lies within its text.
    pub proof fn lemma_offset_in_text(&self)
        requires
            self.wf(),
        ensures
            0 <= self.offset() <= self.text().len(),
    {
    }

    /// Creates a lexer at the first character of `input`.
    pub fn new(input: &'a str) -> (lexer: Self)
        ensures
            lexer.wf(),
            lexer.text() == input@,
            lexer.offset() == 0,
    {
        let mut chars: Vec<char> = Vec::new();
        for c in it: input.chars()
            invariant
                it.seq() == input@,
                chars@ == it.seq().take(it.index() as int),
        {
            chars.push(c);
        }
        proof {
            assert(input@.take(input@.len() as int) == input@);
        }
        let first = if chars.len() > 0 {
            Some(chars[0])
        } else {
            None
        };
        let read_position: usize = if chars.len() > 0 {
            1
        } else {
            0
        };
        Lexer { input, chars, position: 0, read_position, ch: first }
    }

    /// Reads the next character: moves the cursor one character on, or leaves
    /// it where it is at the end of the text.
    pub fn read_char(&mut self)
        requires
            old(self).wf(),
        ensures
            final(self).wf(),
            final(self).text() == old(self).text(),
            final(self).offset() == step_over(old(self).text(), old(self).offset()),
            old(self).offset() <= final(self).offset() <= old(self).text().len(),
    {
        if self.read_position >= self.chars.len() {
            self.ch = None;
        } else {
            self.ch = Some(self.chars[self.read_position]);
        }
        self.position = self.read_position;
        if self.ch.is_some() {
            self.read_position = self.read_position + 1;
        }
    }

    /// Skips over any white space at the cursor.
    pub fn skip_whitespace(&mut self)
        requires
            old(self).wf(),
        ensures
            final(self).wf(),
            final(self).text() == old(self).text(),
            final(self).offset() == run_end(
                old(self).text(),
                old(self).offset(),
                CharClass::Whitespace,
            ),
            old(self).offset() <= final(self).offset() <= old(self).text().len(),
    {
        let ghost from = self.offset();
        loop
            invariant
                self.wf(),
                self.text() == old(self).text(),
                from == old(self).offset(),
                from <= self.offset(),
                forall|i: int|
                    from <= i < self.offset() ==> CharClass::Whitespace.holds(
                        #[trigger] self.text()[i],
                    ),
            ensures
                self.wf(),
                self.text() == old(self).text(),
                self.offset() == run_end(old(self).text(), from, CharClass::Whitespace),
            decreases self.text().len() - self.offset(),
        {
            proof {
                lemma_run_end_resumed(self.text(), from, self.offset(), CharClass::Whitespace);
            }
            match self.ch {
                Some(c) => {
                    if !c.is_whitespace() {
                        break ;
                    }
                    self.read_char();
                },
                None => {
                    break ;
                },
            }
        }
    }

    /// Reads a string literal: passes over the opening quote at the cursor,
    /// collects the characters up to the next quote or the end of the text,
    /// and passes over the closing quote.
    pub fn read_string_literal(&mut self) -> (literal: String)
        requires
            old(self).wf(),
        ensures
            final(self).wf(),
            final(self).text() == old(self).text(),
            ({
                let text = old(self).text();
                let start = step_over(text, old(self).offset());
                let end = run_end(text, start, CharClass::StringBody);
                &&& literal@ == text.subrange(start, end)
                &&& final(self).offset() == step_over(text, end)
            }),
            old(self).offset() <= final(self).offset() <= old(self).text().len(),
    {
        self.read_char();
        let ghost start = self.offset();
        let mut literal = String::new();
        loop
            invariant
                self.wf(),
                self.text() == old(self).text(),
                start == step_over(old(self).text(), old(self).offset()),
                0 <= start <= self.offset(),
                literal@ == self.text().subrange(start, self.offset()),
                forall|i: int|
                    start <= i < self.offset() ==> CharClass::StringBody.holds(
                        #[trigger] self.text()[i],
                    ),
            ensures
                self.wf(),
                self.text() == old(self).text(),
                self.offset() == run_end(old(self).text(), start, CharClass::StringBody),
                literal@ == self.text().subrange(start, self.offset()),
            decreases self.text().len() - self.offset(),
        {
            proof {
                lemma_run_end_resumed(self.text(), start, self.offset(), CharClass::StringBody);
            }
            match self.ch {
                Some(c) => {
                    if c == '\'' {
                        break ;
                    }
                    literal.push(c);
                    self.read_char();
                },
                None => {
                    break ;
                },
            }
        }
        self.read_char();
        literal
    }

    /// Reads a numeric literal: the longest run of digits and dots at the
    /// cursor.
    fn read_number(&mut self) -> (token: Token)
        requires
            old(self).wf(),
        ensures
            final(self).wf(),
            final(self).text() == old(self).text(),
            ({
                let text = old(self).text();
                let end = run_end(text, old(self).offset(), CharClass::NumberPart);
                &&& token@ == token::number_token(text.subrange(old(self).offset(), end))
                &&& final(self).offset() == end
            }),
    {
        let ghost start = self.offset();
        let mut number = String::new();
        loop
            invariant
                self.wf(),
                self.text() == old(self).text(),
                start == old(self).offset(),
                0 <= start <= self.offset(),
                number@ == self.text().subrange(start, self.offset()),
                forall|i: int|
                    start <= i < self.offset() ==> CharClass::NumberPart.holds(
                        #[trigger] self.text()[i],
                    ),
            ensures
                self.wf(),
                self.text() == old(self).text(),
                self.offset() == run_end(old(self).text(), start, CharClass::NumberPart),
                number@ == self.text().subrange(start, self.offset()),
                forall|i: int|
                    start <= i < self.offset() ==> CharClass::NumberPart.holds(
                        #[trigger] self.text()[i],
                    ),
            decreases self.text().len() - self.offset(),
        {
            proof {
                lemma_run_end_resumed(self.text(), start, self.offset(), CharClass::NumberPart);
            }
            match self.ch {
                Some(c) => {
                    if !char_is_ascii_digit(c) && c != '.' {
                        break ;
                    }
                    number.push(c);
                    self.read_char();
                },
                None => {
                    break ;
                },
            }
        }
        classify_number(number)
    }

    /// Reads an identifier or keyword: the longest run of alphanumeric
    /// characters and underscores at the cursor.
    fn read_identifier_or_keyword(&mut self) -> (token: Token)
        requires
            old(self).wf(),
        ensures
            final(self).wf(),
            final(self).text() == old(self).text(),
            ({
                let text = old(self).text();
                let end = run_end(text, old(self).offset(), CharClass::IdentifierPart);
                &&& token@ == token::word_token(text.subrange(old(self).offset(), end))
                &&& final(self).offset() == end
            }),
    {
        let ghost start = self.offset();
        let mut ident = String::new();
        loop
            invariant
                self.wf(),
                self.text() == old(self).text(),
                start == old(self).offset(),
                0 <= start <= self.offset(),
                ident@ == self.text().subrange(start, self.offset()),
                forall|i: int|
                    start <= i < self.offset() ==> CharClass::IdentifierPart.holds(
                        #[trigger] self.text()[i],
                    ),
            ensures
                self.wf(),
                self.text() == old(self).text(),
                self.offset() == run_end(old(self).text(), start, CharClass::IdentifierPart),
                ident@ == self.text().subrange(start, self.offset()),
            decreases self.text().len() - self.offset(),
        {
            proof {
                lemma_run_end_resumed(self.text(), start, self.offset(), CharClass::IdentifierPart);
            }
            match self.ch {
                Some(c) => {
                    if !Self::is_identifier_part(c) {
                        break ;
                    }
                    ident.push(c);
                    self.read_char();
                },
                None => {
                    break ;
                },
            }
        }
        classify_word(ident)
    }

    /// Checks if a character can start an identifier.
    pub fn is_identifier_start(c: char) -> (b: bool)
        ensures
            b == text::is_identifier_start(c),
    {
        c.is_alphabetic() || c == '_'
    }

    /// Checks if a character can be part of an identifier.
    pub fn is_identifier_part(c: char) -> (b: bool)
        ensures
            b == text::is_identifier_part(c),
    {
        c.is_alphanumeric() || c == '_'
    }

    /// Checks if a word, in whatever case it is written, is a reserved word.
    pub fn is_keyword(ident: &str) -> (b: bool)
        ensures
            b == token::is_keyword(ident@),
    {
        let upper = ident.to_uppercase();
        reserved(upper.as_str())
    }

    /// Returns the next token of the text and moves the cursor past it.
    ///
    /// `None` is returned at the end of the text, and also for a character
    /// that starts no token, which is passed over.
    pub fn next_token(&mut self) -> (token: Option<Token>)
        requires
            old(self).wf(),
        ensures
            final(self).wf(),
            final(self).text() == old(self).text(),
            optional_view(token) == scan(old(self).text(), old(self).offset()).token,
            final(self).offset() == scan(old(self).text(), old(self).offset()).next,
            old(self).offset() <= final(self).offset() <= old(self).text().len(),
            token is Some ==> old(self).offset() < final(self).offset(),
    {
        proof {
            lemma_scan_advances(self.text(), self.offset());
        }
        self.skip_whitespace();
        match self.ch {
            Some(c) => {
                if c == '(' {
                    self.read_char();
                    Some(Token::LeftParen)
                } else if c == ')' {
                    self.read_char();
                    Some(Token::RightParen)
                } else if c == ',' {
                    self.read_char();
                    Some(Token::Comma)
                } else if c == ';' {
                    self.read_char();
                    Some(Token::SemiColon)
                } else if c == '\'' {
                    Some(Token::StringLiteral(self.read_string_literal()))
                } else if char_is_ascii_digit(c) {
                    Some(self.read_number())
                } else if Self::is_identifier_start(c) {
                    Some(self.read_identifier_or_keyword())
                } else {
                    self.read_char();
                    None
                }
            },
            None => None,
        }
    }
}

} // verus!
