use saba_core::renderer::js::token::{render_tokens, JsLexer, LexError, Token};

fn lex(input: &str) -> Result<Vec<Token>, LexError> {
    JsLexer::new(input.to_string()).collect()
}

fn identifier(name: &str) -> Token {
    Token::Identifier(name.to_string())
}

fn keyword(word: &str) -> Token {
    Token::Keyword(word.to_string())
}

fn string(body: &str) -> Token {
    Token::StringLiteral(body.to_string())
}

#[test]
fn empty_text_has_no_tokens() {
    assert_eq!(lex(""), Ok(vec![]));
    assert_eq!(lex(" \n  \n"), Ok(vec![]));
}

#[test]
fn numbers_are_runs_of_digits() {
    assert_eq!(lex("42"), Ok(vec![Token::Number(42)]));
    assert_eq!(lex("007"), Ok(vec![Token::Number(7)]));
    assert_eq!(lex("1 23"), Ok(vec![Token::Number(1), Token::Number(23)]));
    assert_eq!(lex("18446744073709551615"), Ok(vec![Token::Number(u64::MAX)]));
}

#[test]
fn number_that_does_not_fit_is_an_error() {
    assert_eq!(lex("18446744073709551616"), Err(LexError::NumberTooLarge));
    assert_eq!(lex("1 99999999999999999999999 2"), Err(LexError::NumberTooLarge));
}

#[test]
fn every_punctuator_is_a_token() {
    let expected: Vec<Token> = "+-*/=;(){},.".chars().map(Token::Punctuator).collect();
    assert_eq!(lex("+-*/=;(){},."), Ok(expected));
}

#[test]
fn reserved_words_are_keywords() {
    assert_eq!(
        lex("var function return"),
        Ok(vec![keyword("var"), keyword("function"), keyword("return")])
    );
}

#[test]
fn a_name_that_starts_with_a_reserved_word_is_an_identifier() {
    assert_eq!(
        lex("variable returns functional Var _var var_ v4r"),
        Ok(vec![
            identifier("variable"),
            identifier("returns"),
            identifier("functional"),
            identifier("Var"),
            identifier("_var"),
            identifier("var_"),
            identifier("v4r"),
        ])
    );
}

#[test]
fn a_digit_does_not_start_an_identifier() {
    assert_eq!(lex("1a"), Ok(vec![Token::Number(1), identifier("a")]));
}

#[test]
fn strings_end_at_the_quote_that_opened_them() {
    assert_eq!(lex("\"abc\""), Ok(vec![string("abc")]));
    assert_eq!(lex("'abc'"), Ok(vec![string("abc")]));
    assert_eq!(lex("\"it's\" 'say \"hi\"'"), Ok(vec![string("it's"), string("say \"hi\"")]));
    assert_eq!(lex("''\"\""), Ok(vec![string(""), string("")]));
    assert_eq!(lex("'a b\nc'"), Ok(vec![string("a b\nc")]));
}

#[test]
fn unterminated_string_holds_the_rest_of_the_text() {
    assert_eq!(lex("'abc"), Ok(vec![string("abc")]));
    assert_eq!(lex("1 \""), Ok(vec![Token::Number(1), string("")]));
}

#[test]
fn statement_tokens() {
    assert_eq!(
        lex("var foo=42; foo = foo+1;"),
        Ok(vec![
            keyword("var"),
            identifier("foo"),
            Token::Punctuator('='),
            Token::Number(42),
            Token::Punctuator(';'),
            identifier("foo"),
            Token::Punctuator('='),
            identifier("foo"),
            Token::Punctuator('+'),
            Token::Number(1),
            Token::Punctuator(';'),
        ])
    );
}

#[test]
fn unknown_character_is_an_error() {
    assert_eq!(lex("%"), Err(LexError::UnexpectedChar('%')));
    assert_eq!(lex("1 + $"), Err(LexError::UnexpectedChar('$')));
    assert_eq!(lex("a\tb"), Err(LexError::UnexpectedChar('\t')));
    assert_eq!(lex("é"), Err(LexError::UnexpectedChar('é')));
}

#[test]
fn peek_shows_what_next_reads() {
    let mut lexer = JsLexer::new("foo + 1 %".to_string());
    assert_eq!(lexer.peek(), Ok(Some(identifier("foo"))));
    assert_eq!(lexer.peek(), Ok(Some(identifier("foo"))));
    assert_eq!(lexer.next(), Ok(Some(identifier("foo"))));
    assert_eq!(lexer.peek(), Ok(Some(Token::Punctuator('+'))));
    assert_eq!(lexer.next(), Ok(Some(Token::Punctuator('+'))));
    assert_eq!(lexer.next(), Ok(Some(Token::Number(1))));
    assert_eq!(lexer.peek(), Err(LexError::UnexpectedChar('%')));
    assert_eq!(lexer.next(), Err(LexError::UnexpectedChar('%')));
    assert_eq!(lexer.next(), Err(LexError::UnexpectedChar('%')));
}

#[test]
fn next_at_the_end_stays_at_the_end() {
    let mut lexer = JsLexer::new("a  ".to_string());
    assert_eq!(lexer.next(), Ok(Some(identifier("a"))));
    assert_eq!(lexer.peek(), Ok(None));
    assert_eq!(lexer.next(), Ok(None));
    assert_eq!(lexer.next(), Ok(None));
}

#[test]
fn display_forms_of_tokens() {
    assert_eq!(Token::Punctuator('+').to_string(), "+");
    assert_eq!(Token::Number(0).to_string(), "0");
    assert_eq!(Token::Number(1203).to_string(), "1203");
    assert_eq!(identifier("foo").to_string(), "foo");
    assert_eq!(keyword("return").to_string(), "return");
    assert_eq!(string("abc").to_string(), "\"abc\"");
    assert_eq!(string("say \"hi\"").to_string(), "'say \"hi\"'");
    assert_eq!(string("it's").to_string(), "\"it's\"");
}

#[test]
fn tokens_are_written_with_one_blank_between_them() {
    assert_eq!(render_tokens(&vec![]), "");
    assert_eq!(render_tokens(&vec![Token::Number(1)]), "1");
    assert_eq!(
        render_tokens(&lex("var  a=1;\nf( 'x' ,2)").unwrap()),
        "var a = 1 ; f ( \"x\" , 2 )"
    );
}

#[test]
fn written_tokens_scan_to_the_same_tokens() {
    let sources = [
        "",
        "42",
        "var foo=42; foo=1; foo",
        "function foo(a,b) { return a+b; } foo(1,2)+1;",
        "document.getElementById(\"target\").textContent='it\"s'",
        "007 1a _x'unterminated",
        "a.b.c / 3 * 4 - return",
    ];
    for source in sources {
        let tokens = lex(source).unwrap();
        let written = render_tokens(&tokens);
        assert_eq!(lex(&written), Ok(tokens.clone()));
        // Writing them again changes nothing.
        assert_eq!(render_tokens(&lex(&written).unwrap()), written);
    }
}
