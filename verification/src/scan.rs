//! What the lexer computes, as functions on a text and an offset into it.

use crate::text::{
    is_ascii_digit, is_identifier_part, is_identifier_start, is_number_part, unicode_whitespace,
};
use crate::token::{number_token, word_token, TokenView};
use vstd::prelude::*;

verus! {

/// The classes of characters that the lexer reads in runs.
pub enum CharClass {
    /// Unicode white space.
    Whitespace,
    /// Anything but a single quote: the body of a string literal.
    StringBody,
    /// ASCII digits and dots.
    NumberPart,
    /// Alphanumeric characters and the underscore.
    IdentifierPart,
}

impl CharClass {
    /// Whether `c` belongs to the class.
    pub open spec fn holds(self, c: char) -> bool {
        match self {
            CharClass::Whitespace => unicode_whitespace(c),
            CharClass::StringBody => c != '\'',
            CharClass::NumberPart => is_number_part(c),
            CharClass::IdentifierPart => is_identifier_part(c),
        }
    }
}

/// The end of the longest run of characters of `class` that starts at `from`:
/// the first offset at or after `from` that holds a character outside the
/// class, or the length of the text.
pub open spec fn run_end(text: Seq<char>, from: int, class: CharClass) -> int
    decreases text.len() - from,
{
    if 0 <= from < text.len() && class.holds(text[from]) {
        run_end(text, from + 1, class)
    } else {
        from
    }
}

/// The offset after the character at `at`: the next offset, or `at` itself at
/// the end of the text.
pub open spec fn step_over(text: Seq<char>, at: int) -> int {
    if at < text.len() {
        at + 1
    } else {
        at
    }
}

/// One step of the lexer: the token found, if any, and the offset after it.
pub struct Scanned {
    pub token: Option<TokenView>,
    pub next: int,
}

/// Scans one token of `text` from the offset `from`.
///
/// White space is passed over first. Then a parenthesis, a comma or a
/// semicolon is a token by itself; a single quote opens a string literal that
/// runs to the next quote or, without one, to the end of the text; a digit
/// starts a number, a letter or an underscore a word. At the end of the text
/// there is no token, and any other character is passed over without one.
pub open spec fn scan(text: Seq<char>, from: int) -> Scanned {
    let start = run_end(text, from, CharClass::Whitespace);
    if !(0 <= start < text.len()) {
        Scanned { token: None, next: start }
    } else {
        let c = text[start];
        if c == '(' {
            Scanned { token: Some(TokenView::LeftParen), next: start + 1 }
        } else if c == ')' {
            Scanned { token: Some(TokenView::RightParen), next: start + 1 }
        } else if c == ',' {
            Scanned { token: Some(TokenView::Comma), next: start + 1 }
        } else if c == ';' {
            Scanned { token: Some(TokenView::SemiColon), next: start + 1 }
        } else if c == '\'' {
            let end = run_end(text, start + 1, CharClass::StringBody);
            Scanned {
                token: Some(TokenView::StringLiteral(text.subrange(start + 1, end))),
                next: step_over(text, end),
            }
        } else if is_ascii_digit(c) {
            let end = run_end(text, start, CharClass::NumberPart);
            Scanned { token: Some(number_token(text.subrange(start, end))), next: end }
        } else if is_identifier_start(c) {
            let end = run_end(text, start, CharClass::IdentifierPart);
            Scanned { token: Some(word_token(text.subrange(start, end))), next: end }
        } else {
            Scanned { token: None, next: start + 1 }
        }
    }
}

/// The tokens that a parser sees when it reads `text` from the offset `from`:
/// those scanned one after another up to the first step that yields none.
pub open spec fn token_stream(text: Seq<char>, from: int) -> Seq<TokenView>
    decreases text.len() - from,
    via token_stream_terminates
{
    let step = scan(text, from);
    match step.token {
        Some(token) => seq![token] + token_stream(text, step.next),
        None => Seq::empty(),
    }
}

#[via_fn]
proof fn token_stream_terminates(text: Seq<char>, from: int) {
    if 0 <= from {
        lemma_scan_advances(text, from);
    }
}

/// A run ends at or after its start, within the text, at a character outside
/// the class, and holds only characters of the class.
pub proof fn lemma_run_end(text: Seq<char>, from: int, class: CharClass)
    requires
        0 <= from <= text.len(),
    ensures
        from <= run_end(text, from, class) <= text.len(),
        run_end(text, from, class) < text.len() ==> !class.holds(
            text[run_end(text, from, class)],
        ),
        forall|i: int|
            from <= i < run_end(text, from, class) ==> class.holds(#[trigger] text[i]),
    decreases text.len() - from,
{
    if from < text.len() && class.holds(text[from]) {
        lemma_run_end(text, from + 1, class);
    }
}

/// A run that is entered in its middle ends where the whole run ends.
pub proof fn lemma_run_end_resumed(text: Seq<char>, from: int, mid: int, class: CharClass)
    requires
        0 <= from <= mid <= text.len(),
        forall|i: int| from <= i < mid ==> class.holds(#[trigger] text[i]),
    ensures
        run_end(text, from, class) == run_end(text, mid, class),
    decreases mid - from,
{
    if from < mid {
        lemma_run_end_resumed(text, from + 1, mid, class);
    }
}

/// The lexer never moves backwards and never leaves the text, and a step that
/// yields a token consumes at least one character.
pub proof fn lemma_scan_advances(text: Seq<char>, from: int)
    requires
        0 <= from,
    ensures
        from <= text.len() ==> from <= scan(text, from).next <= text.len(),
        scan(text, from).token is Some ==> from < scan(text, from).next,
{
    if from <= text.len() {
        let start = run_end(text, from, CharClass::Whitespace);
        lemma_run_end(text, from, CharClass::Whitespace);
        if start < text.len() {
            lemma_run_end(text, start + 1, CharClass::StringBody);
            lemma_run_end(text, start + 1, CharClass::NumberPart);
            lemma_run_end(text, start + 1, CharClass::IdentifierPart);
        }
    }
}

} // verus!
