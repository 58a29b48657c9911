use rbpt::mods::lexer::{
    check_decimal_number, classify, lex_classified, tokenize, CharClass, Lead, LexError, Token,
};

fn ident(s: &str) -> Token {
    Token::Identifier(s.chars().collect())
}

fn num(s: &str) -> Token {
    Token::Number(s.chars().collect())
}

fn text(s: &str) -> Vec<char> {
    s.chars().collect()
}

#[test]
fn empty_text_has_no_tokens() {
    assert_eq!(tokenize(""), Ok(vec![]));
    assert_eq!(tokenize("   \t  "), Ok(vec![]));
}

#[test]
fn punctuation_and_line_ends() {
    assert_eq!(
        tokenize("{:}\n"),
        Ok(vec![Token::LBrace, Token::Colon, Token::RBrace, Token::Newline])
    );
}

#[test]
fn a_field_line() {
    assert_eq!(
        tokenize("  position: 1 -2.5 0.5\n"),
        Ok(vec![
            ident("position"),
            Token::Colon,
            num("1"),
            num("-2.5"),
            num("0.5"),
            Token::Newline,
        ])
    );
}

#[test]
fn point_does_not_start_a_number() {
    assert_eq!(tokenize(".5"), Err(LexError::UnknownCharacter { at: 0 }));
    assert_eq!(tokenize("1 .5"), Err(LexError::UnknownCharacter { at: 2 }));
}

#[test]
fn numbers_keep_their_text() {
    assert_eq!(
        tokenize("0 007 3.14 -1 -0.5 5. -.5 1e"),
        Ok(vec![
            num("0"),
            num("007"),
            num("3.14"),
            num("-1"),
            num("-0.5"),
            num("5."),
            num("-.5"),
            num("1"),
            ident("e"),
        ])
    );
}

#[test]
fn malformed_numbers_are_refused() {
    assert_eq!(tokenize("-"), Err(LexError::MalformedNumber { at: 0 }));
    assert_eq!(tokenize("a: 1-2"), Err(LexError::MalformedNumber { at: 3 }));
    assert_eq!(tokenize("1.2.3"), Err(LexError::MalformedNumber { at: 0 }));
    assert_eq!(tokenize("--1"), Err(LexError::MalformedNumber { at: 0 }));
    assert_eq!(tokenize("-."), Err(LexError::MalformedNumber { at: 0 }));
    assert_eq!(tokenize("5-"), Err(LexError::MalformedNumber { at: 0 }));
    assert_eq!(tokenize("x\n  3..\n"), Err(LexError::MalformedNumber { at: 4 }));
}

#[test]
fn numbers_are_those_that_the_standard_library_reads() {
    for s in ["0", "-", "1.", ".1", "-.1", "-.", "1.2.3", "1-1", "--1", "-1.5", "00.00", "-0", "1..", "-5-", "9999999999999999999999.5"] {
        let as_float = s.parse::<f64>().is_ok();
        assert_eq!(check_decimal_number(&text(s)), as_float, "{}", s);
    }
}

#[test]
fn names_run_over_letters_digits_and_marks() {
    assert_eq!(
        tokenize("obj_file: meshes/cube_2.obj"),
        Ok(vec![ident("obj_file"), Token::Colon, ident("meshes/cube_2.obj")])
    );
    assert_eq!(tokenize("a1{"), Ok(vec![ident("a1"), Token::LBrace]));
    assert_eq!(tokenize("é2 x"), Ok(vec![ident("é2"), ident("x")]));
}

#[test]
fn name_ends_at_a_minus_sign() {
    assert_eq!(tokenize("a-1"), Ok(vec![ident("a"), num("-1")]));
}

#[test]
fn comment_runs_to_the_end_of_its_line() {
    assert_eq!(
        tokenize("# a scene: {}\ncamera"),
        Ok(vec![Token::Newline, ident("camera")])
    );
    assert_eq!(tokenize("x # y\n\nz"), Ok(vec![ident("x"), Token::Newline, Token::Newline, ident("z")]));
}

#[test]
fn comment_in_the_last_line_gives_no_token() {
    assert_eq!(tokenize("x # the end"), Ok(vec![ident("x")]));
    assert_eq!(tokenize("#"), Ok(vec![]));
}

#[test]
fn comment_may_hold_any_character() {
    assert_eq!(tokenize("# $%&@ 1-2-3 \n"), Ok(vec![Token::Newline]));
}

#[test]
fn unknown_characters_are_refused() {
    assert_eq!(tokenize("$"), Err(LexError::UnknownCharacter { at: 0 }));
    assert_eq!(tokenize("camera [1]"), Err(LexError::UnknownCharacter { at: 7 }));
    assert_eq!(tokenize("a_b _c"), Err(LexError::UnknownCharacter { at: 4 }));
    assert_eq!(tokenize("é: /x"), Err(LexError::UnknownCharacter { at: 3 }));
}

#[test]
fn first_error_wins() {
    assert_eq!(tokenize("1-2 $"), Err(LexError::MalformedNumber { at: 0 }));
    assert_eq!(tokenize("$ 1-2"), Err(LexError::UnknownCharacter { at: 0 }));
}

#[test]
fn places_count_characters_not_bytes() {
    assert_eq!(tokenize("éé$"), Err(LexError::UnknownCharacter { at: 2 }));
}

#[test]
fn carriage_return_is_blank() {
    assert_eq!(tokenize("a\r\nb"), Ok(vec![ident("a"), Token::Newline, ident("b")]));
}

#[test]
fn classes_of_characters() {
    assert_eq!(classify(' '), CharClass { lead: Lead::Blank, in_number: false, in_name: false });
    assert_eq!(classify('\n'), CharClass { lead: Lead::Newline, in_number: false, in_name: false });
    assert_eq!(classify(':'), CharClass { lead: Lead::Colon, in_number: false, in_name: false });
    assert_eq!(classify('{'), CharClass { lead: Lead::LBrace, in_number: false, in_name: false });
    assert_eq!(classify('}'), CharClass { lead: Lead::RBrace, in_number: false, in_name: false });
    assert_eq!(classify('7'), CharClass { lead: Lead::Number, in_number: true, in_name: true });
    assert_eq!(classify('-'), CharClass { lead: Lead::Number, in_number: true, in_name: false });
    assert_eq!(classify('.'), CharClass { lead: Lead::Unknown, in_number: true, in_name: true });
    assert_eq!(classify('q'), CharClass { lead: Lead::Name, in_number: false, in_name: true });
    assert_eq!(classify('_'), CharClass { lead: Lead::Unknown, in_number: false, in_name: true });
    assert_eq!(classify('/'), CharClass { lead: Lead::Unknown, in_number: false, in_name: true });
    assert_eq!(classify('#'), CharClass { lead: Lead::Comment, in_number: false, in_name: false });
    assert_eq!(classify('$'), CharClass { lead: Lead::Unknown, in_number: false, in_name: false });
    assert_eq!(classify('\u{3000}'), CharClass { lead: Lead::Blank, in_number: false, in_name: false });
    assert_eq!(classify('٣'), CharClass { lead: Lead::Unknown, in_number: false, in_name: true });
}

#[test]
fn tokens_follow_the_classes_that_are_given() {
    let blank = CharClass { lead: Lead::Blank, in_number: false, in_name: false };
    let name = CharClass { lead: Lead::Name, in_number: false, in_name: true };
    let digit = CharClass { lead: Lead::Number, in_number: true, in_name: true };
    let chars = text("ab 12");
    let classes = vec![name, name, blank, digit, digit];
    assert_eq!(lex_classified(&chars, &classes), Ok(vec![ident("ab"), num("12")]));
    let odd = vec![digit, blank, blank, name, digit];
    assert_eq!(lex_classified(&text("1xy2z"), &odd), Ok(vec![num("1"), ident("2z")]));
}

#[test]
fn a_token_takes_its_first_character_whatever_its_class() {
    let lone_name = CharClass { lead: Lead::Name, in_number: false, in_name: false };
    let lone_number = CharClass { lead: Lead::Number, in_number: false, in_name: false };
    assert_eq!(
        lex_classified(&text("a7"), &vec![lone_name, lone_number]),
        Ok(vec![ident("a"), num("7")])
    );
}
