use sql_insert::ast::{Insert, Query, Value};
use sql_insert::error::{Expected, ParseError, Temporal};
use sql_insert::parser::Parser;

fn parse(input: &str) -> Result<Query, String> {
    Parser::new(input).unwrap().parse()
}

fn parse_statement(input: &str) -> Result<Query, ParseError> {
    Parser::new(input).unwrap().parse_statement()
}

fn insert(table: &str, columns: &[&str], values: Vec<Value>) -> Query {
    Query::Insert(Insert {
        table: table.to_string(),
        columns: columns.iter().map(|c| c.to_string()).collect(),
        values,
    })
}

fn message(result: Result<Query, String>) -> String {
    match result {
        Ok(query) => panic!("parsed to {:?}", query),
        Err(message) => message,
    }
}

#[test]
fn new_never_fails() {
    assert!(Parser::new("").is_ok());
    assert!(Parser::new("@@@").is_ok());
    assert!(Parser::new("INSERT INTO t (a) VALUES (1)").is_ok());
}

#[test]
fn statement_gives_table_columns_and_values_in_order() {
    assert_eq!(
        parse("INSERT INTO users (id, name, age) VALUES (1, 'Ann', 30);"),
        Ok(insert(
            "users",
            &["id", "name", "age"],
            vec![Value::Integer(1), Value::Text("Ann".to_string()), Value::Integer(30)],
        ))
    );
}

#[test]
fn semicolon_at_the_end_is_optional() {
    let with = parse("INSERT INTO t (a, b) VALUES (1, 2);");
    let without = parse("INSERT INTO t (a, b) VALUES (1, 2)");
    assert_eq!(with, without);
    assert_eq!(with, Ok(insert("t", &["a", "b"], vec![Value::Integer(1), Value::Integer(2)])));
}

#[test]
fn single_column_and_single_value() {
    assert_eq!(
        parse("INSERT INTO t (a) VALUES (7)"),
        Ok(insert("t", &["a"], vec![Value::Integer(7)]))
    );
}

#[test]
fn spacing_between_tokens_does_not_matter() {
    assert_eq!(
        parse("  INSERT\n\tINTO t(a,b)VALUES(1,'x')  ;  "),
        Ok(insert("t", &["a", "b"], vec![Value::Integer(1), Value::Text("x".to_string())]))
    );
}

#[test]
fn more_columns_than_values_is_accepted() {
    assert_eq!(
        parse("INSERT INTO t (a,b) VALUES (1);"),
        Ok(insert("t", &["a", "b"], vec![Value::Integer(1)]))
    );
}

#[test]
fn more_values_than_columns_is_accepted() {
    assert_eq!(
        parse("INSERT INTO t (a) VALUES (1, 2, 3);"),
        Ok(insert("t", &["a"], vec![Value::Integer(1), Value::Integer(2), Value::Integer(3)]))
    );
}

#[test]
fn column_named_twice_is_accepted() {
    assert_eq!(
        parse("INSERT INTO t (a, a) VALUES (1, 2)"),
        Ok(insert("t", &["a", "a"], vec![Value::Integer(1), Value::Integer(2)]))
    );
}

#[test]
fn string_literal_is_a_text_value() {
    assert_eq!(
        parse("INSERT INTO t (a) VALUES ('hello')"),
        Ok(insert("t", &["a"], vec![Value::Text("hello".to_string())]))
    );
}

#[test]
fn integer_literal_is_an_integer_value() {
    assert_eq!(
        parse("INSERT INTO t (a) VALUES (42)"),
        Ok(insert("t", &["a"], vec![Value::Integer(42)]))
    );
}

#[test]
fn fractional_literal_is_a_float_value() {
    let Query::Insert(found) = parse("INSERT INTO t (a) VALUES (3.14)").unwrap();
    assert_eq!(found.values, vec![Value::Float("3.14".to_string())]);
    match &found.values[0] {
        Value::Float(digits) => assert_eq!(digits.parse::<f64>(), Ok(3.14)),
        other => panic!("found {:?}", other),
    }
}

#[test]
fn null_is_the_null_value() {
    assert_eq!(
        parse("INSERT INTO t (a) VALUES (NULL)"),
        Ok(insert("t", &["a"], vec![Value::Null]))
    );
}

#[test]
fn true_and_false_are_boolean_values() {
    assert_eq!(
        parse("INSERT INTO t (a, b) VALUES (TRUE, FALSE)"),
        Ok(insert("t", &["a", "b"], vec![Value::Boolean(true), Value::Boolean(false)]))
    );
}

#[test]
fn date_literal_carries_its_text() {
    assert_eq!(
        parse("INSERT INTO t (a) VALUES (DATE '2024-01-01')"),
        Ok(insert("t", &["a"], vec![Value::Date("2024-01-01".to_string())]))
    );
}

#[test]
fn time_literal_carries_its_text() {
    assert_eq!(
        parse("INSERT INTO t (a) VALUES (TIME '12:34:56')"),
        Ok(insert("t", &["a"], vec![Value::Time("12:34:56".to_string())]))
    );
}

#[test]
fn timestamp_literal_carries_its_text() {
    assert_eq!(
        parse("INSERT INTO t (a) VALUES (TIMESTAMP '2024-01-01 12:34:56')"),
        Ok(insert("t", &["a"], vec![Value::Timestamp("2024-01-01 12:34:56".to_string())]))
    );
}

#[test]
fn interval_literal_carries_its_text() {
    assert_eq!(
        parse("INSERT INTO t (a) VALUES (INTERVAL '1 day')"),
        Ok(insert("t", &["a"], vec![Value::Interval("1 day".to_string())]))
    );
}

#[test]
fn temporal_text_is_not_examined() {
    assert_eq!(
        parse("INSERT INTO t (a, b) VALUES (DATE 'not a date', TIME '')"),
        Ok(insert(
            "t",
            &["a", "b"],
            vec![Value::Date("not a date".to_string()), Value::Time("".to_string())],
        ))
    );
}

#[test]
fn every_kind_of_value_in_one_statement() {
    assert_eq!(
        parse(
            "INSERT INTO m (a,b,c,d,e,f,g,h,i,j) VALUES (1, 2.5, 'x', TRUE, FALSE, NULL, \
             DATE 'd', TIME 't', TIMESTAMP 'ts', INTERVAL 'i');"
        ),
        Ok(insert(
            "m",
            &["a", "b", "c", "d", "e", "f", "g", "h", "i", "j"],
            vec![
                Value::Integer(1),
                Value::Float("2.5".to_string()),
                Value::Text("x".to_string()),
                Value::Boolean(true),
                Value::Boolean(false),
                Value::Null,
                Value::Date("d".to_string()),
                Value::Time("t".to_string()),
                Value::Timestamp("ts".to_string()),
                Value::Interval("i".to_string()),
            ],
        ))
    );
}

#[test]
fn integer_that_does_not_fit_is_zero() {
    assert_eq!(
        parse("INSERT INTO t (a, b) VALUES (9223372036854775807, 9223372036854775808)"),
        Ok(insert("t", &["a", "b"], vec![Value::Integer(i64::MAX), Value::Integer(0)]))
    );
}

#[test]
fn lower_case_keywords_parse_like_upper_case_ones() {
    let lower = parse("insert into T (x) values (1)");
    let upper = parse("INSERT INTO T (x) VALUES (1)");
    assert_eq!(lower, upper);
    assert_eq!(lower, Ok(insert("T", &["x"], vec![Value::Integer(1)])));
}

#[test]
fn mixed_case_keywords_and_literals_parse() {
    assert_eq!(
        parse("InSeRt iNtO t (a, b, c, d) vAlUeS (null, True, fAlSe, dAtE '2024-01-01')"),
        Ok(insert(
            "t",
            &["a", "b", "c", "d"],
            vec![
                Value::Null,
                Value::Boolean(true),
                Value::Boolean(false),
                Value::Date("2024-01-01".to_string()),
            ],
        ))
    );
}

#[test]
fn identifiers_keep_their_case() {
    assert_eq!(
        parse("INSERT INTO MyTable (FirstName, lastNAME) VALUES (1, 2)"),
        Ok(insert(
            "MyTable",
            &["FirstName", "lastNAME"],
            vec![Value::Integer(1), Value::Integer(2)],
        ))
    );
}

#[test]
fn tokens_after_the_statement_are_left_unread() {
    assert_eq!(
        parse("INSERT INTO t (a) VALUES (1); INSERT INTO u (b) VALUES (2);"),
        Ok(insert("t", &["a"], vec![Value::Integer(1)]))
    );
    assert_eq!(
        parse("INSERT INTO t (a) VALUES (1) garbage ("),
        Ok(insert("t", &["a"], vec![Value::Integer(1)]))
    );
}

#[test]
fn second_parse_reads_on_after_the_first() {
    let mut parser =
        Parser::new("INSERT INTO t (a) VALUES (1); INSERT INTO u (b) VALUES (2);").unwrap();
    assert_eq!(parser.parse(), Ok(insert("t", &["a"], vec![Value::Integer(1)])));
    assert_eq!(parser.parse(), Ok(insert("u", &["b"], vec![Value::Integer(2)])));
    assert_eq!(parser.parse(), Err("Unsupported query type.".to_string()));
}

#[test]
fn failure_leaves_the_parser_at_the_offending_token() {
    let mut parser = Parser::new("INSERT INTO t (a INSERT INTO u (b) VALUES (2)").unwrap();
    assert_eq!(parser.parse(), Err("Expected ')'.".to_string()));
    assert_eq!(parser.parse(), Ok(insert("u", &["b"], vec![Value::Integer(2)])));
}

#[test]
fn missing_closing_parenthesis_of_columns_names_it() {
    assert_eq!(message(parse("INSERT INTO t (a VALUES (1)")), "Expected ')'.");
    assert_eq!(
        parse_statement("INSERT INTO t (a VALUES (1)"),
        Err(ParseError::StructuralMismatch(Expected::RightParen))
    );
}

#[test]
fn missing_closing_parenthesis_of_values_names_it() {
    assert_eq!(message(parse("INSERT INTO t (a) VALUES (1")), "Expected ')'.");
    assert_eq!(message(parse("INSERT INTO t (a) VALUES (1;")), "Expected ')'.");
    assert_eq!(message(parse("INSERT INTO t (a) VALUES (1 2)")), "Expected ')'.");
}

#[test]
fn empty_input_is_unsupported() {
    assert_eq!(message(parse("")), "Unsupported query type.");
    assert_eq!(parse_statement(""), Err(ParseError::UnsupportedStatement));
}

#[test]
fn blank_input_is_unsupported() {
    assert_eq!(message(parse("   \n\t ")), "Unsupported query type.");
}

#[test]
fn other_statements_are_unsupported() {
    assert_eq!(message(parse("SELECT * FROM t")), "Unsupported query type.");
    assert_eq!(message(parse("UPDATE t SET a = 1")), "Unsupported query type.");
    assert_eq!(message(parse("DELETE FROM t")), "Unsupported query type.");
    assert_eq!(parse_statement("SELECT a FROM t"), Err(ParseError::UnsupportedStatement));
}

#[test]
fn other_leading_keyword_is_unsupported() {
    assert_eq!(message(parse("INTO t (a) VALUES (1)")), "Unsupported query type.");
    assert_eq!(message(parse("VALUES (1)")), "Unsupported query type.");
    assert_eq!(message(parse("NULL")), "Unsupported query type.");
}

#[test]
fn leading_token_that_is_no_keyword_is_unsupported() {
    assert_eq!(message(parse("(INSERT INTO t (a) VALUES (1))")), "Unsupported query type.");
    assert_eq!(message(parse("42")), "Unsupported query type.");
    assert_eq!(message(parse("'INSERT'")), "Unsupported query type.");
}

#[test]
fn leading_unrecognized_character_is_unsupported() {
    assert_eq!(message(parse("# INSERT INTO t (a) VALUES (1)")), "Unsupported query type.");
}

#[test]
fn trailing_comma_in_columns_is_rejected() {
    assert_eq!(message(parse("INSERT INTO t (a,) VALUES (1)")), "Expected column name.");
    assert_eq!(
        parse_statement("INSERT INTO t (a,) VALUES (1)"),
        Err(ParseError::StructuralMismatch(Expected::ColumnName))
    );
}

#[test]
fn trailing_comma_in_values_is_rejected() {
    assert_eq!(message(parse("INSERT INTO t (a) VALUES (1,)")), "Failed to parse value.");
    assert_eq!(
        parse_statement("INSERT INTO t (a) VALUES (1,)"),
        Err(ParseError::UnrecognizedValue)
    );
}

#[test]
fn doubled_comma_is_rejected() {
    assert_eq!(message(parse("INSERT INTO t (a,,b) VALUES (1)")), "Expected column name.");
    assert_eq!(message(parse("INSERT INTO t (a) VALUES (1,,2)")), "Failed to parse value.");
}

#[test]
fn missing_into_is_named() {
    assert_eq!(message(parse("INSERT t (a) VALUES (1)")), "Expected 'INTO' keyword.");
    assert_eq!(message(parse("INSERT")), "Expected 'INTO' keyword.");
    assert_eq!(message(parse("INSERT VALUES")), "Expected 'INTO' keyword.");
    assert_eq!(
        parse_statement("INSERT INSERT"),
        Err(ParseError::StructuralMismatch(Expected::IntoKeyword))
    );
}

#[test]
fn missing_table_name_is_named() {
    assert_eq!(message(parse("INSERT INTO (a) VALUES (1)")), "Expected table name.");
    assert_eq!(message(parse("INSERT INTO")), "Expected table name.");
    assert_eq!(message(parse("INSERT INTO 'users' (a) VALUES (1)")), "Expected table name.");
    assert_eq!(
        parse_statement("INSERT INTO values (a) VALUES (1)"),
        Err(ParseError::StructuralMismatch(Expected::TableName))
    );
}

#[test]
fn missing_opening_parenthesis_of_columns_is_named() {
    assert_eq!(message(parse("INSERT INTO t a) VALUES (1)")), "Expected '('.");
    assert_eq!(message(parse("INSERT INTO t")), "Expected '('.");
    assert_eq!(message(parse("INSERT INTO t VALUES (1)")), "Expected '('.");
    assert_eq!(
        parse_statement("INSERT INTO t.u (a) VALUES (1)"),
        Err(ParseError::StructuralMismatch(Expected::LeftParen))
    );
}

#[test]
fn missing_column_name_is_named() {
    assert_eq!(message(parse("INSERT INTO t () VALUES (1)")), "Expected column name.");
    assert_eq!(message(parse("INSERT INTO t (")), "Expected column name.");
    assert_eq!(message(parse("INSERT INTO t (1) VALUES (1)")), "Expected column name.");
    assert_eq!(message(parse("INSERT INTO t (date) VALUES (1)")), "Expected column name.");
}

#[test]
fn missing_values_keyword_is_named() {
    assert_eq!(message(parse("INSERT INTO t (a) (1)")), "Expected 'VALUES' keyword.");
    assert_eq!(message(parse("INSERT INTO t (a)")), "Expected 'VALUES' keyword.");
    assert_eq!(message(parse("INSERT INTO t (a) INTO (1)")), "Expected 'VALUES' keyword.");
    assert_eq!(
        parse_statement("INSERT INTO t (a) VALUE (1)"),
        Err(ParseError::StructuralMismatch(Expected::ValuesKeyword))
    );
}

#[test]
fn missing_opening_parenthesis_of_values_is_named() {
    assert_eq!(message(parse("INSERT INTO t (a) VALUES 1)")), "Expected '('.");
    assert_eq!(message(parse("INSERT INTO t (a) VALUES")), "Expected '('.");
}

#[test]
fn date_without_a_string_is_a_malformed_literal() {
    assert_eq!(
        message(parse("INSERT INTO t (a) VALUES (DATE 5)")),
        "Failed to parse 'DATE' literal."
    );
    assert_eq!(
        parse_statement("INSERT INTO t (a) VALUES (DATE)"),
        Err(ParseError::LiteralShape(Temporal::Date))
    );
}

#[test]
fn time_without_a_string_is_a_malformed_literal() {
    assert_eq!(
        message(parse("INSERT INTO t (a) VALUES (TIME, 1)")),
        "Failed to parse 'TIME' literal."
    );
    assert_eq!(
        parse_statement("INSERT INTO t (a) VALUES (time"),
        Err(ParseError::LiteralShape(Temporal::Time))
    );
}

#[test]
fn timestamp_without_a_string_is_a_malformed_literal() {
    assert_eq!(
        message(parse("INSERT INTO t (a) VALUES (TIMESTAMP NULL)")),
        "Failed to parse 'TIMESTAMP' literal."
    );
    assert_eq!(
        parse_statement("INSERT INTO t (a) VALUES (TIMESTAMP 2024)"),
        Err(ParseError::LiteralShape(Temporal::Timestamp))
    );
}

#[test]
fn interval_without_a_string_is_a_malformed_literal() {
    assert_eq!(
        message(parse("INSERT INTO t (a) VALUES (INTERVAL day)")),
        "Failed to parse 'INTERVAL' literal."
    );
    assert_eq!(
        parse_statement("INSERT INTO t (a) VALUES (INTERVAL DATE 'x')"),
        Err(ParseError::LiteralShape(Temporal::Interval))
    );
}

#[test]
fn token_that_starts_no_value_is_an_unrecognized_value() {
    assert_eq!(message(parse("INSERT INTO t (a) VALUES (b)")), "Failed to parse value.");
    assert_eq!(message(parse("INSERT INTO t (a) VALUES ()")), "Failed to parse value.");
    assert_eq!(message(parse("INSERT INTO t (a) VALUES (")), "Failed to parse value.");
    assert_eq!(message(parse("INSERT INTO t (a) VALUES ((1))")), "Failed to parse value.");
    assert_eq!(message(parse("INSERT INTO t (a) VALUES (INTO)")), "Failed to parse value.");
    assert_eq!(message(parse("INSERT INTO t (a) VALUES (-1)")), "Failed to parse value.");
}

#[test]
fn unrecognized_character_ends_the_tokens() {
    assert_eq!(message(parse("INSERT INTO t (a) VALUES (1 @ )")), "Expected ')'.");
    assert_eq!(message(parse("INSERT INTO t (a $ b) VALUES (1)")), "Expected ')'.");
}

#[test]
fn unterminated_string_runs_to_the_end_of_the_text() {
    assert_eq!(message(parse("INSERT INTO t (a) VALUES ('abc)")), "Expected ')'.");
}

#[test]
fn every_failure_has_its_message() {
    let cases = [
        (ParseError::StructuralMismatch(Expected::InsertKeyword), "Expected 'INSERT' keyword."),
        (ParseError::StructuralMismatch(Expected::IntoKeyword), "Expected 'INTO' keyword."),
        (ParseError::StructuralMismatch(Expected::TableName), "Expected table name."),
        (ParseError::StructuralMismatch(Expected::LeftParen), "Expected '('."),
        (ParseError::StructuralMismatch(Expected::ColumnName), "Expected column name."),
        (ParseError::StructuralMismatch(Expected::RightParen), "Expected ')'."),
        (ParseError::StructuralMismatch(Expected::ValuesKeyword), "Expected 'VALUES' keyword."),
        (ParseError::LiteralShape(Temporal::Date), "Failed to parse 'DATE' literal."),
        (ParseError::LiteralShape(Temporal::Time), "Failed to parse 'TIME' literal."),
        (ParseError::LiteralShape(Temporal::Timestamp), "Failed to parse 'TIMESTAMP' literal."),
        (ParseError::LiteralShape(Temporal::Interval), "Failed to parse 'INTERVAL' literal."),
        (ParseError::UnrecognizedValue, "Failed to parse value."),
        (ParseError::UnsupportedStatement, "Unsupported query type."),
    ];
    for (error, text) in cases {
        assert_eq!(error.message(), text);
    }
}

#[test]
fn parse_and_parse_statement_agree() {
    for input in [
        "INSERT INTO t (a, b) VALUES (1, 'x');",
        "INSERT INTO t (a VALUES (1)",
        "INSERT INTO t (a) VALUES (DATE)",
        "INSERT INTO t (a) VALUES (,)",
        "SELECT 1",
        "",
    ] {
        let text = parse(input);
        let structured = parse_statement(input);
        match (text, structured) {
            (Ok(a), Ok(b)) => assert_eq!(a, b),
            (Err(message), Err(error)) => assert_eq!(message, error.message()),
            (a, b) => panic!("{:?} against {:?}", a, b),
        }
    }
}

#[test]
fn expected_constructs_have_their_messages() {
    assert_eq!(Expected::RightParen.message(), "Expected ')'.");
    assert_eq!(Expected::LeftParen.message(), "Expected '('.");
    assert_eq!(Expected::TableName.message(), "Expected table name.");
    assert_eq!(Temporal::Interval.message(), "Failed to parse 'INTERVAL' literal.");
    assert_eq!(Temporal::Date.message(), "Failed to parse 'DATE' literal.");
}
