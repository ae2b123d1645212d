use sql_insert::parser::{Lexer, Token};

fn tokens(input: &str) -> Vec<Token> {
    let mut lexer = Lexer::new(input);
    let mut found = Vec::new();
    while let Some(token) = lexer.next_token() {
        found.push(token);
    }
    found
}

fn text(s: &str) -> String {
    s.to_string()
}

#[test]
fn empty_input_has_no_token() {
    let mut lexer = Lexer::new("");
    assert_eq!(lexer.next_token(), None);
    assert_eq!(lexer.next_token(), None);
}

#[test]
fn blank_input_has_no_token() {
    assert_eq!(tokens("  \t\r\n "), vec![]);
}

#[test]
fn punctuation_marks_are_single_tokens() {
    assert_eq!(
        tokens("(),;"),
        vec![Token::LeftParen, Token::RightParen, Token::Comma, Token::SemiColon]
    );
}

#[test]
fn white_space_between_tokens_is_skipped() {
    assert_eq!(
        tokens(" (\t)\n,\r\n;  "),
        vec![Token::LeftParen, Token::RightParen, Token::Comma, Token::SemiColon]
    );
}

#[test]
fn unicode_white_space_is_skipped() {
    assert_eq!(
        tokens("\u{00A0}(\u{3000})\u{2003},\u{0085};"),
        vec![Token::LeftParen, Token::RightParen, Token::Comma, Token::SemiColon]
    );
}

#[test]
fn string_literal_holds_the_text_between_the_quotes() {
    assert_eq!(tokens("'hello'"), vec![Token::StringLiteral(text("hello"))]);
}

#[test]
fn string_literal_keeps_spaces_and_punctuation() {
    assert_eq!(
        tokens("'a (b), c; 1.5 NULL'"),
        vec![Token::StringLiteral(text("a (b), c; 1.5 NULL"))]
    );
}

#[test]
fn string_literal_may_be_empty() {
    assert_eq!(tokens("''"), vec![Token::StringLiteral(text(""))]);
}

#[test]
fn string_literal_may_hold_characters_outside_ascii() {
    assert_eq!(tokens("'żółć 東京'"), vec![Token::StringLiteral(text("żółć 東京"))]);
}

#[test]
fn unterminated_string_literal_runs_to_the_end() {
    assert_eq!(tokens("'abc, 1"), vec![Token::StringLiteral(text("abc, 1"))]);
}

#[test]
fn lone_quote_is_an_empty_string_literal() {
    assert_eq!(tokens("'"), vec![Token::StringLiteral(text(""))]);
}

#[test]
fn two_quotes_in_a_row_end_the_literal_and_open_another() {
    assert_eq!(
        tokens("'it''s'"),
        vec![Token::StringLiteral(text("it")), Token::StringLiteral(text("s"))]
    );
}

#[test]
fn digits_are_an_integer() {
    assert_eq!(tokens("42"), vec![Token::Integer(42)]);
}

#[test]
fn zero_is_an_integer() {
    assert_eq!(tokens("0"), vec![Token::Integer(0)]);
}

#[test]
fn leading_zeros_do_not_change_an_integer() {
    assert_eq!(tokens("000123"), vec![Token::Integer(123)]);
}

#[test]
fn largest_integer_is_read_exactly() {
    assert_eq!(tokens("9223372036854775807"), vec![Token::Integer(i64::MAX)]);
}

#[test]
fn integer_one_past_the_largest_is_read_as_zero() {
    assert_eq!(tokens("9223372036854775808"), vec![Token::Integer(0)]);
}

#[test]
fn very_long_integer_is_read_as_zero() {
    assert_eq!(tokens("123456789012345678901234567890"), vec![Token::Integer(0)]);
}

#[test]
fn long_integer_with_leading_zeros_still_fits() {
    assert_eq!(tokens("0000000000000000000000000000017"), vec![Token::Integer(17)]);
}

#[test]
fn digits_with_a_dot_are_a_fractional_literal() {
    assert_eq!(tokens("3.14"), vec![Token::Float(text("3.14"))]);
}

#[test]
fn fractional_literal_may_end_in_a_dot() {
    assert_eq!(tokens("7."), vec![Token::Float(text("7."))]);
}

#[test]
fn fractional_literal_with_two_dots_is_kept_as_written() {
    assert_eq!(tokens("1.2.3"), vec![Token::Float(text("1.2.3"))]);
}

#[test]
fn dot_alone_starts_no_token() {
    let mut lexer = Lexer::new(".5");
    assert_eq!(lexer.next_token(), None);
    assert_eq!(lexer.next_token(), Some(Token::Integer(5)));
    assert_eq!(lexer.next_token(), None);
}

#[test]
fn minus_sign_starts_no_token() {
    let mut lexer = Lexer::new("-1");
    assert_eq!(lexer.next_token(), None);
    assert_eq!(lexer.next_token(), Some(Token::Integer(1)));
}

#[test]
fn number_ends_where_a_letter_begins() {
    assert_eq!(tokens("12abc"), vec![Token::Integer(12), Token::Identifier(text("abc"))]);
}

#[test]
fn non_ascii_digits_do_not_start_a_number() {
    let mut lexer = Lexer::new("٣");
    assert_eq!(lexer.next_token(), None);
}

#[test]
fn word_is_an_identifier() {
    assert_eq!(tokens("users"), vec![Token::Identifier(text("users"))]);
}

#[test]
fn identifier_keeps_its_case() {
    assert_eq!(tokens("UserName"), vec![Token::Identifier(text("UserName"))]);
}

#[test]
fn identifier_may_start_with_an_underscore_and_hold_digits() {
    assert_eq!(tokens("_col_2x"), vec![Token::Identifier(text("_col_2x"))]);
}

#[test]
fn identifier_may_hold_letters_and_digits_outside_ascii() {
    assert_eq!(tokens("größe٣"), vec![Token::Identifier(text("größe٣"))]);
}

#[test]
fn identifier_ends_at_punctuation() {
    assert_eq!(
        tokens("t(a,b)"),
        vec![
            Token::Identifier(text("t")),
            Token::LeftParen,
            Token::Identifier(text("a")),
            Token::Comma,
            Token::Identifier(text("b")),
            Token::RightParen,
        ]
    );
}

#[test]
fn keywords_are_given_in_upper_case() {
    assert_eq!(
        tokens("INSERT INTO VALUES DATE TIME TIMESTAMP INTERVAL"),
        vec![
            Token::Keyword(text("INSERT")),
            Token::Keyword(text("INTO")),
            Token::Keyword(text("VALUES")),
            Token::Keyword(text("DATE")),
            Token::Keyword(text("TIME")),
            Token::Keyword(text("TIMESTAMP")),
            Token::Keyword(text("INTERVAL")),
        ]
    );
}

#[test]
fn keywords_are_recognized_in_any_case() {
    assert_eq!(
        tokens("insert Into vAlUeS date Time timeStamp interval"),
        vec![
            Token::Keyword(text("INSERT")),
            Token::Keyword(text("INTO")),
            Token::Keyword(text("VALUES")),
            Token::Keyword(text("DATE")),
            Token::Keyword(text("TIME")),
            Token::Keyword(text("TIMESTAMP")),
            Token::Keyword(text("INTERVAL")),
        ]
    );
}

#[test]
fn null_has_a_token_of_its_own() {
    assert_eq!(tokens("NULL null Null"), vec![Token::Null, Token::Null, Token::Null]);
}

#[test]
fn true_and_false_are_booleans() {
    assert_eq!(
        tokens("TRUE false True FALSE"),
        vec![
            Token::Boolean(true),
            Token::Boolean(false),
            Token::Boolean(true),
            Token::Boolean(false),
        ]
    );
}

#[test]
fn words_of_other_statements_are_identifiers() {
    assert_eq!(
        tokens("SELECT update"),
        vec![Token::Identifier(text("SELECT")), Token::Identifier(text("update"))]
    );
}

#[test]
fn word_that_holds_a_keyword_is_an_identifier() {
    assert_eq!(
        tokens("inserted nulls"),
        vec![Token::Identifier(text("inserted")), Token::Identifier(text("nulls"))]
    );
}

#[test]
fn word_whose_upper_case_form_is_a_keyword_is_that_keyword() {
    assert_eq!(tokens("\u{0131}nto"), vec![Token::Keyword(text("INTO"))]);
}

#[test]
fn unrecognized_character_is_passed_over_without_a_token() {
    let mut lexer = Lexer::new("@ users");
    assert_eq!(lexer.next_token(), None);
    assert_eq!(lexer.next_token(), Some(Token::Identifier(text("users"))));
    assert_eq!(lexer.next_token(), None);
    assert_eq!(lexer.next_token(), None);
}

#[test]
fn whole_statement_is_cut_into_its_tokens() {
    assert_eq!(
        tokens("INSERT INTO t (a, b) VALUES (1, 'x', 2.5, NULL, TRUE, DATE '2024-01-01');"),
        vec![
            Token::Keyword(text("INSERT")),
            Token::Keyword(text("INTO")),
            Token::Identifier(text("t")),
            Token::LeftParen,
            Token::Identifier(text("a")),
            Token::Comma,
            Token::Identifier(text("b")),
            Token::RightParen,
            Token::Keyword(text("VALUES")),
            Token::LeftParen,
            Token::Integer(1),
            Token::Comma,
            Token::StringLiteral(text("x")),
            Token::Comma,
            Token::Float(text("2.5")),
            Token::Comma,
            Token::Null,
            Token::Comma,
            Token::Boolean(true),
            Token::Comma,
            Token::Keyword(text("DATE")),
            Token::StringLiteral(text("2024-01-01")),
            Token::RightParen,
            Token::SemiColon,
        ]
    );
}

#[test]
fn read_char_moves_one_character_on() {
    let mut lexer = Lexer::new("a(");
    lexer.read_char();
    assert_eq!(lexer.next_token(), Some(Token::LeftParen));
    lexer.read_char();
    lexer.read_char();
    assert_eq!(lexer.next_token(), None);
}

#[test]
fn read_char_counts_characters_not_bytes() {
    let mut lexer = Lexer::new("東,");
    lexer.read_char();
    assert_eq!(lexer.next_token(), Some(Token::Comma));
}

#[test]
fn skip_whitespace_stops_at_the_first_other_character() {
    let mut lexer = Lexer::new(" \n\t'  x'");
    lexer.skip_whitespace();
    assert_eq!(lexer.read_string_literal(), "  x");
    assert_eq!(lexer.next_token(), None);
}

#[test]
fn skip_whitespace_leaves_a_cursor_on_a_token_where_it_is() {
    let mut lexer = Lexer::new("x");
    lexer.skip_whitespace();
    lexer.skip_whitespace();
    assert_eq!(lexer.next_token(), Some(Token::Identifier(text("x"))));
}

#[test]
fn read_string_literal_passes_over_both_quotes() {
    let mut lexer = Lexer::new("'ab',");
    assert_eq!(lexer.read_string_literal(), "ab");
    assert_eq!(lexer.next_token(), Some(Token::Comma));
}

#[test]
fn read_string_literal_passes_over_whatever_is_at_the_cursor() {
    let mut lexer = Lexer::new("xab'c");
    assert_eq!(lexer.read_string_literal(), "ab");
    assert_eq!(lexer.next_token(), Some(Token::Identifier(text("c"))));
}

#[test]
fn read_string_literal_at_the_end_is_empty() {
    let mut lexer = Lexer::new("");
    assert_eq!(lexer.read_string_literal(), "");
    assert_eq!(lexer.next_token(), None);
}

#[test]
fn identifier_starts_with_a_letter_or_an_underscore() {
    assert!(Lexer::is_identifier_start('a'));
    assert!(Lexer::is_identifier_start('Z'));
    assert!(Lexer::is_identifier_start('_'));
    assert!(Lexer::is_identifier_start('é'));
    assert!(Lexer::is_identifier_start('京'));
    assert!(!Lexer::is_identifier_start('1'));
    assert!(!Lexer::is_identifier_start(' '));
    assert!(!Lexer::is_identifier_start('('));
    assert!(!Lexer::is_identifier_start('\''));
    assert!(!Lexer::is_identifier_start('-'));
}

#[test]
fn identifier_goes_on_with_letters_digits_and_underscores() {
    assert!(Lexer::is_identifier_part('a'));
    assert!(Lexer::is_identifier_part('_'));
    assert!(Lexer::is_identifier_part('7'));
    assert!(Lexer::is_identifier_part('٣'));
    assert!(Lexer::is_identifier_part('½'));
    assert!(!Lexer::is_identifier_part(' '));
    assert!(!Lexer::is_identifier_part(','));
    assert!(!Lexer::is_identifier_part('.'));
    assert!(!Lexer::is_identifier_part('$'));
}

#[test]
fn the_ten_reserved_words_are_keywords() {
    for word in [
        "INSERT", "INTO", "VALUES", "DATE", "TIME", "TIMESTAMP", "INTERVAL", "NULL", "TRUE",
        "FALSE",
    ] {
        assert!(Lexer::is_keyword(word));
        assert!(Lexer::is_keyword(&word.to_lowercase()));
    }
}

#[test]
fn other_words_are_not_keywords() {
    for word in ["SELECT", "", "INSERTS", "IN", "VALUE", "nul", "DATETIME", " INSERT", "T RUE"] {
        assert!(!Lexer::is_keyword(word));
    }
}
