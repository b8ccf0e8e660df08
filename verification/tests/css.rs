use saba_core::renderer::css::token::{render_tokens, CssError, CssNumber, CssToken, CssTokenizer};

fn lex(input: &str) -> Result<Vec<CssToken>, CssError> {
    CssTokenizer::new(input.to_string()).collect()
}

fn ident(name: &str) -> CssToken {
    CssToken::Ident(name.to_string())
}

fn number(integer: &str, fraction: &str) -> CssToken {
    CssToken::Number(CssNumber { integer: integer.to_string(), fraction: fraction.to_string() })
}

/// The value of a number, summed digit by digit from the left.
fn value(token: &CssToken) -> f64 {
    match token {
        CssToken::Number(n) => {
            let mut num = 0f64;
            for c in n.integer.chars() {
                num = num * 10.0 + (c.to_digit(10).unwrap() as f64);
            }
            let mut place = 1f64;
            for c in n.fraction.chars() {
                place *= 1f64 / 10f64;
                num += (c.to_digit(10).unwrap() as f64) * place;
            }
            num
        }
        _ => panic!("not a number"),
    }
}

#[test]
fn empty_sheet_has_no_tokens() {
    assert_eq!(lex(""), Ok(vec![]));
    assert_eq!(lex(" \n "), Ok(vec![]));
}

#[test]
fn id_selector_rule() {
    assert_eq!(
        lex("#main { color: red; }"),
        Ok(vec![
            CssToken::HashToken("main".to_string()),
            CssToken::OpenCurly,
            ident("color"),
            CssToken::Colon,
            ident("red"),
            CssToken::Semicolon,
            CssToken::CloseCurly,
        ])
    );
}

#[test]
fn class_selector_rule() {
    assert_eq!(
        lex(".box,p{margin:(10)}"),
        Ok(vec![
            CssToken::Delim('.'),
            ident("box"),
            CssToken::Delim(','),
            ident("p"),
            CssToken::OpenCurly,
            ident("margin"),
            CssToken::Colon,
            CssToken::OpenParenthesis,
            number("10", ""),
            CssToken::CloseParenthesis,
            CssToken::CloseCurly,
        ])
    );
}

#[test]
fn names_may_hold_hyphens_digits_and_underscores() {
    assert_eq!(
        lex("font-size -webkit-box _x a1-b_2 --v"),
        Ok(vec![ident("font-size"), ident("-webkit-box"), ident("_x"), ident("a1-b_2"), ident("--v")])
    );
}

#[test]
fn numbers_keep_their_digits() {
    assert_eq!(lex("42"), Ok(vec![number("42", "")]));
    assert_eq!(lex("1.5"), Ok(vec![number("1", "5")]));
    assert_eq!(lex("007.250"), Ok(vec![number("007", "250")]));
    assert_eq!(lex("1."), Ok(vec![number("1", "")]));
    assert_eq!(lex("1.2.3"), Ok(vec![number("1", "23")]));
    assert_eq!(lex("10px"), Ok(vec![number("10", ""), ident("px")]));
    assert_eq!(lex(".5"), Ok(vec![CssToken::Delim('.'), number("5", "")]));
}

#[test]
fn number_values() {
    assert_eq!(value(&lex("42").unwrap()[0]), 42.0);
    assert_eq!(value(&lex("1.5").unwrap()[0]), 1.5);
    assert_eq!(value(&lex("0.25").unwrap()[0]), 0.25);
    assert_eq!(value(&lex("1.").unwrap()[0]), 1.0);
    assert_eq!(value(&lex("12.50").unwrap()[0]), 12.5);
}

#[test]
fn hash_takes_the_name_after_it() {
    assert_eq!(lex("#id"), Ok(vec![CssToken::HashToken("id".to_string())]));
    assert_eq!(lex("#a-1_b{"), Ok(vec![CssToken::HashToken("a-1_b".to_string()), CssToken::OpenCurly]));
    assert_eq!(lex("# x"), Ok(vec![CssToken::HashToken("".to_string()), ident("x")]));
    assert_eq!(lex("#"), Ok(vec![CssToken::HashToken("".to_string())]));
}

#[test]
fn at_keyword_needs_a_letter_and_two_more() {
    assert_eq!(lex("@media"), Ok(vec![CssToken::AtKeyword("media".to_string())]));
    assert_eq!(lex("@a1b"), Ok(vec![CssToken::AtKeyword("a1b".to_string())]));
    assert_eq!(
        lex("@font-face {"),
        Ok(vec![CssToken::AtKeyword("font-face".to_string()), CssToken::OpenCurly])
    );
    assert_eq!(lex("@ab"), Ok(vec![CssToken::Delim('@'), ident("ab")]));
    assert_eq!(lex("@a-b"), Ok(vec![CssToken::Delim('@'), ident("a-b")]));
    assert_eq!(lex("@1ab"), Ok(vec![CssToken::Delim('@'), number("1", ""), ident("ab")]));
    assert_eq!(lex("@"), Ok(vec![CssToken::Delim('@')]));
    assert_eq!(lex("@ media"), Ok(vec![CssToken::Delim('@'), ident("media")]));
}

#[test]
fn css_strings_end_at_the_quote_that_opened_them() {
    assert_eq!(lex("\"a b\""), Ok(vec![CssToken::StringToken("a b".to_string())]));
    assert_eq!(lex("'it\"s'"), Ok(vec![CssToken::StringToken("it\"s".to_string())]));
    assert_eq!(lex("'open"), Ok(vec![CssToken::StringToken("open".to_string())]));
    assert_eq!(lex("\"\";"), Ok(vec![CssToken::StringToken("".to_string()), CssToken::Semicolon]));
}

#[test]
fn css_unknown_character_is_an_error() {
    assert_eq!(lex("a > b"), Err(CssError::UnexpectedChar('>')));
    assert_eq!(lex("*"), Err(CssError::UnexpectedChar('*')));
    assert_eq!(lex("a\tb"), Err(CssError::UnexpectedChar('\t')));
    assert_eq!(lex("@é"), Err(CssError::UnexpectedChar('é')));
}

#[test]
fn next_reads_one_token_at_a_time() {
    let mut tokenizer = CssTokenizer::new("p{} !".to_string());
    assert_eq!(tokenizer.next(), Ok(Some(ident("p"))));
    assert_eq!(tokenizer.next(), Ok(Some(CssToken::OpenCurly)));
    assert_eq!(tokenizer.next(), Ok(Some(CssToken::CloseCurly)));
    assert_eq!(tokenizer.next(), Err(CssError::UnexpectedChar('!')));
    assert_eq!(tokenizer.next(), Err(CssError::UnexpectedChar('!')));
    let mut tokenizer = CssTokenizer::new("p ".to_string());
    assert_eq!(tokenizer.next(), Ok(Some(ident("p"))));
    assert_eq!(tokenizer.next(), Ok(None));
    assert_eq!(tokenizer.next(), Ok(None));
}

#[test]
fn css_display_forms_of_tokens() {
    assert_eq!(CssToken::HashToken("id".to_string()).to_string(), "#id");
    assert_eq!(CssToken::AtKeyword("media".to_string()).to_string(), "@media");
    assert_eq!(CssToken::Delim(',').to_string(), ",");
    assert_eq!(number("1", "").to_string(), "1");
    assert_eq!(number("1", "23").to_string(), "1.23");
    assert_eq!(CssToken::Colon.to_string(), ":");
    assert_eq!(CssToken::Semicolon.to_string(), ";");
    assert_eq!(CssToken::OpenParenthesis.to_string(), "(");
    assert_eq!(CssToken::CloseParenthesis.to_string(), ")");
    assert_eq!(CssToken::OpenCurly.to_string(), "{");
    assert_eq!(CssToken::CloseCurly.to_string(), "}");
    assert_eq!(ident("a-b").to_string(), "a-b");
    assert_eq!(CssToken::StringToken("x".to_string()).to_string(), "\"x\"");
    assert_eq!(CssToken::StringToken("\"x\"".to_string()).to_string(), "'\"x\"'");
}

#[test]
fn css_written_tokens_scan_to_the_same_tokens() {
    let sources = [
        "",
        "#main { color: red; }",
        ".a,.b{margin:1.5 10px 1.2.3 1.}",
        "@media (min-width:100) { p { content: 'it\"s' } }",
        "@ab @ #x # -v 'open",
    ];
    for source in sources {
        let tokens = lex(source).unwrap();
        let written = render_tokens(&tokens);
        assert_eq!(lex(&written), Ok(tokens.clone()));
        assert_eq!(render_tokens(&lex(&written).unwrap()), written);
    }
    assert_eq!(
        render_tokens(&lex("#main{color:red;}").unwrap()),
        "#main { color : red ; }"
    );
}
