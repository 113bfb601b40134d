use gedcom::token::Token;
use gedcom::tokenizer::Tokenizer;

fn tokens(text: &str) -> Vec<Token> {
    let mut tokenizer = Tokenizer::new(text.chars());
    let mut out = Vec::new();
    loop {
        let token = tokenizer.take_token();
        let last = matches!(token, Token::Eof | Token::Invalid);
        out.push(token);
        if last {
            return out;
        }
    }
}

fn tag(s: &str) -> Token {
    Token::Tag(s.to_string())
}

fn value(s: &str) -> Token {
    Token::LineValue(s.to_string())
}

#[test]
fn a_line_is_level_tag_and_value() {
    assert_eq!(tokens("2 VERS 7.0"), vec![Token::Level(2), tag("VERS"), value("7.0"), Token::Eof]);
}

#[test]
fn a_line_without_value_has_no_value_token() {
    assert_eq!(
        tokens("0 HEAD\n1 GEDC\n"),
        vec![Token::Level(0), tag("HEAD"), Token::Level(1), tag("GEDC"), Token::Eof]
    );
}

#[test]
fn a_whole_document_is_tokenized_line_by_line() {
    assert_eq!(
        tokens("0 HEAD\n1 GEDC\n2 VERS 7.0\n0 TRLR"),
        vec![
            Token::Level(0),
            tag("HEAD"),
            Token::Level(1),
            tag("GEDC"),
            Token::Level(2),
            tag("VERS"),
            value("7.0"),
            Token::Level(0),
            tag("TRLR"),
            Token::Eof,
        ]
    );
}

#[test]
fn a_pointer_loses_its_delimiters() {
    assert_eq!(
        tokens("0 @I1@ INDI"),
        vec![Token::Level(0), Token::Pointer("I1".to_string()), tag("INDI"), Token::Eof]
    );
}

#[test]
fn a_pointer_as_value_is_kept_as_written() {
    assert_eq!(
        tokens("1 FAMC @F1@"),
        vec![Token::Level(1), tag("FAMC"), value("@F1@"), Token::Eof]
    );
}

#[test]
fn a_word_that_only_begins_with_the_delimiter_is_a_tag() {
    assert_eq!(tokens("0 @I1 INDI"), vec![Token::Level(0), tag("@I1"), value("INDI"), Token::Eof]);
}

#[test]
fn a_tag_with_an_underscore_is_a_custom_tag() {
    assert_eq!(
        tokens("0 _UNKNOWN foo"),
        vec![Token::Level(0), Token::CustomTag("_UNKNOWN".to_string()), value("foo"), Token::Eof]
    );
}

#[test]
fn a_custom_tag_may_follow_a_pointer() {
    assert_eq!(
        tokens("0 @X1@ _LOC"),
        vec![
            Token::Level(0),
            Token::Pointer("X1".to_string()),
            Token::CustomTag("_LOC".to_string()),
            Token::Eof
        ]
    );
}

#[test]
fn a_value_is_not_cut_further() {
    assert_eq!(
        tokens("1 NOTE a  b\t@c@ 2 CONT d "),
        vec![Token::Level(1), tag("NOTE"), value("a  b\t@c@ 2 CONT d "), Token::Eof]
    );
}

#[test]
fn blanks_before_a_value_are_dropped() {
    assert_eq!(tokens("1 NAME    John"), vec![Token::Level(1), tag("NAME"), value("John"), Token::Eof]);
}

#[test]
fn a_tag_followed_by_blanks_only_has_no_value() {
    assert_eq!(
        tokens("1 NAME   \n1 SEX M"),
        vec![Token::Level(1), tag("NAME"), Token::Level(1), tag("SEX"), value("M"), Token::Eof]
    );
}

#[test]
fn carriage_returns_end_a_line_too() {
    assert_eq!(
        tokens("0 HEAD\r\n1 DEST any\r\n0 TRLR\r\n"),
        vec![
            Token::Level(0),
            tag("HEAD"),
            Token::Level(1),
            tag("DEST"),
            value("any"),
            Token::Level(0),
            tag("TRLR"),
            Token::Eof,
        ]
    );
}

#[test]
fn a_byte_order_mark_is_passed_over() {
    assert_eq!(tokens("\u{feff}0 HEAD"), vec![Token::Level(0), tag("HEAD"), Token::Eof]);
}

#[test]
fn a_line_may_be_indented() {
    assert_eq!(tokens("0 HEAD\n  1 LANG en"), vec![
        Token::Level(0),
        tag("HEAD"),
        Token::Level(1),
        tag("LANG"),
        value("en"),
        Token::Eof,
    ]);
}

#[test]
fn the_empty_input_is_at_its_end() {
    assert_eq!(tokens(""), vec![Token::Eof]);
}

#[test]
fn the_end_of_input_is_permanent() {
    let mut tokenizer = Tokenizer::new("0 TRLR".chars());
    tokenizer.next_token();
    tokenizer.next_token();
    assert!(tokenizer.done());
    tokenizer.next_token();
    tokenizer.next_token();
    assert!(tokenizer.done());
    assert_eq!(tokenizer.current(), &Token::Eof);
}

#[test]
fn a_line_without_a_level_is_invalid() {
    assert_eq!(tokens("HEAD"), vec![Token::Invalid]);
    assert_eq!(tokens("0 HEAD\nGEDC"), vec![Token::Level(0), tag("HEAD"), Token::Invalid]);
    assert_eq!(tokens("0 HEAD\n\n0 TRLR"), vec![Token::Level(0), tag("HEAD"), Token::Invalid]);
}

#[test]
fn a_level_has_to_fit_in_a_byte() {
    assert_eq!(tokens("255 X"), vec![Token::Level(255), tag("X"), Token::Eof]);
    assert_eq!(tokens("256 X"), vec![Token::Invalid]);
    assert_eq!(tokens("99999999999999999999999 X"), vec![Token::Invalid]);
    assert_eq!(tokens("007 X"), vec![Token::Level(7), tag("X"), Token::Eof]);
}

#[test]
fn an_invalid_token_is_permanent() {
    let mut tokenizer = Tokenizer::new("x\n0 HEAD".chars());
    assert_eq!(tokenizer.current(), &Token::Invalid);
    tokenizer.next_token();
    assert_eq!(tokenizer.current(), &Token::Invalid);
    assert!(!tokenizer.done());
}

#[test]
fn text_after_a_carriage_return_inside_a_line_is_invalid() {
    assert_eq!(
        tokens("1 NOTE one\rtwo"),
        vec![Token::Level(1), tag("NOTE"), value("one"), Token::Invalid]
    );
}

#[test]
fn construction_primes_the_first_token() {
    let tokenizer = Tokenizer::new("3 DATE 1 JAN 1900".chars());
    assert_eq!(tokenizer.current(), &Token::Level(3));
    assert_eq!(tokenizer.line(), 1);
}

#[test]
fn current_does_not_consume() {
    let tokenizer = Tokenizer::new("0 HEAD".chars());
    assert_eq!(tokenizer.current(), &Token::Level(0));
    assert_eq!(tokenizer.current(), &Token::Level(0));
}

#[test]
fn take_token_hands_out_the_current_token() {
    let mut tokenizer = Tokenizer::new("0 HEAD".chars());
    assert_eq!(tokenizer.take_token(), Token::Level(0));
    assert_eq!(tokenizer.take_token(), tag("HEAD"));
    assert_eq!(tokenizer.take_token(), Token::Eof);
    assert_eq!(tokenizer.take_token(), Token::Eof);
}

#[test]
fn lines_are_counted_from_one() {
    let mut tokenizer = Tokenizer::new("0 HEAD\n1 DEST x\n0 TRLR".chars());
    let mut lines = Vec::new();
    loop {
        lines.push(tokenizer.line());
        if tokenizer.done() {
            break;
        }
        tokenizer.next_token();
    }
    assert_eq!(lines, vec![1, 1, 2, 2, 2, 3, 3, 3]);
}

#[test]
fn a_line_with_a_level_only_is_followed_by_the_next_level() {
    assert_eq!(
        tokens("0\n1 NAME a"),
        vec![Token::Level(0), Token::Level(1), tag("NAME"), value("a"), Token::Eof]
    );
}
