//! The scanner for the JavaScript subset.
//!
//! `scan` says, for any text, what its first token is and how many characters
//! it takes; `tokens` iterates that over the whole text. `JsLexer` computes
//! both one token at a time, and `token_text` and `render` write tokens back
//! as text that scans to the same tokens (`lemma_white_space_idempotence`).

use crate::text::{
    chars_of, decimal_text, decimal_value, digit_value, in_class, is_digit, is_letter, is_quote,
    lemma_decimal_text, lemma_decimal_value_prefix, lemma_quoted, lemma_run_len,
    lemma_run_of_prefix, quote, quoted, run_end, run_len, string_of, u64_to_string, CharClass,
};
use vstd::prelude::*;

verus! {

/// A token of the JavaScript subset.
#[derive(Debug, Clone, PartialEq, Eq)]
pub enum Token {
    /// One of `+ - * / = ; ( ) { } , .`
    Punctuator(char),
    /// An unsigned decimal number.
    Number(u64),
    /// A name that is not a reserved word.
    Identifier(String),
    /// One of the reserved words `var`, `function`, `return`.
    Keyword(String),
    /// The text between two quotes.
    StringLiteral(String),
}

/// What a `Token` stands for: the same variants, with text as a sequence of characters.
pub ghost enum TokenView {
    Punctuator(char),
    Number(u64),
    Identifier(Seq<char>),
    Keyword(Seq<char>),
    StringLiteral(Seq<char>),
}

impl View for Token {
    type V = TokenView;

    open spec fn view(&self) -> TokenView {
        match self {
            Token::Punctuator(c) => TokenView::Punctuator(*c),
            Token::Number(n) => TokenView::Number(*n),
            Token::Identifier(s) => TokenView::Identifier(s@),
            Token::Keyword(s) => TokenView::Keyword(s@),
            Token::StringLiteral(s) => TokenView::StringLiteral(s@),
        }
    }
}

/// Why a text cannot be cut into tokens.
#[derive(Debug, Clone, Copy, PartialEq, Eq)]
pub enum LexError {
    /// A character that starts no token.
    UnexpectedChar(char),
    /// A run of digits whose value does not fit in 64 bits.
    NumberTooLarge,
}

/// What stands at the front of a text.
pub ghost enum Scan {
    /// Nothing but white space.
    End,
    /// A token; `len` counts the characters up to its end, white space before it included.
    Token { token: TokenView, len: nat },
    /// No token can be read.
    Error(LexError),
}

/// The tokens of a text up to its end or to the first place where no token
/// can be read, and the error met there, if any.
pub ghost struct TokenStream {
    pub tokens: Seq<TokenView>,
    pub failure: Option<LexError>,
}

pub open spec fn is_punctuator(c: char) -> bool {
    c == '+' || c == '-' || c == '*' || c == '/' || c == '=' || c == ';' || c == '(' || c == ')'
        || c == '{' || c == '}' || c == ',' || c == '.'
}

pub open spec fn is_word_start(c: char) -> bool {
    is_letter(c) || c == '_'
}

pub open spec fn is_keyword(word: Seq<char>) -> bool {
    word == "var"@ || word == "function"@ || word == "return"@
}

/// The token at the front of `s`, which starts with a character that is not white space.
pub open spec fn scan_token(s: Seq<char>) -> Scan
    recommends
        s.len() > 0,
{
    let c = s[0];
    if is_punctuator(c) {
        Scan::Token { token: TokenView::Punctuator(c), len: 1 }
    } else if is_digit(c) {
        let n = run_len(s, CharClass::Digit);
        let value = decimal_value(s.take(n as int));
        if value > u64::MAX {
            Scan::Error(LexError::NumberTooLarge)
        } else {
            Scan::Token { token: TokenView::Number(value as u64), len: n }
        }
    } else if is_word_start(c) {
        let n = run_len(s, CharClass::Word);
        let word = s.take(n as int);
        if is_keyword(word) {
            Scan::Token { token: TokenView::Keyword(word), len: n }
        } else {
            Scan::Token { token: TokenView::Identifier(word), len: n }
        }
    } else if is_quote(c) {
        let n = run_len(s.drop_first(), CharClass::Except(c));
        let body = s.subrange(1, 1 + n as int);
        if 1 + n < s.len() {
            Scan::Token { token: TokenView::StringLiteral(body), len: n + 2 }
        } else {
            Scan::Token { token: TokenView::StringLiteral(body), len: n + 1 }
        }
    } else {
        Scan::Error(LexError::UnexpectedChar(c))
    }
}

/// What stands at the front of `s`, after any white space.
pub open spec fn scan(s: Seq<char>) -> Scan {
    let k = run_len(s, CharClass::Space);
    if k >= s.len() {
        Scan::End
    } else {
        match scan_token(s.skip(k as int)) {
            Scan::Token { token, len } => Scan::Token { token, len: k + len },
            other => other,
        }
    }
}

/// A token takes at least one character and no more than there are.
pub proof fn lemma_scan_len(s: Seq<char>)
    ensures
        scan(s) matches Scan::Token { len, .. } ==> 0 < len <= s.len(),
{
    let k = run_len(s, CharClass::Space);
    lemma_run_len(s, CharClass::Space);
    if k < s.len() {
        let t = s.skip(k as int);
        let c = t[0];
        lemma_run_len(t, CharClass::Digit);
        lemma_run_len(t, CharClass::Word);
        lemma_run_len(t.drop_first(), CharClass::Except(c));
    }
}

/// All the tokens of `s`.
pub open spec fn tokens(s: Seq<char>) -> TokenStream
    decreases s.len(),
{
    match scan(s) {
        Scan::End => TokenStream { tokens: Seq::empty(), failure: None },
        Scan::Error(e) => TokenStream { tokens: Seq::empty(), failure: Some(e) },
        Scan::Token { token, len } => {
            proof {
                lemma_scan_len(s);
            }
            let rest = tokens(s.skip(len as int));
            TokenStream { tokens: seq![token] + rest.tokens, failure: rest.failure }
        },
    }
}

/// What a reader finds at the front of a stream: a token, the end, or the error.
pub open spec fn head(stream: TokenStream) -> Result<Option<TokenView>, LexError> {
    if stream.tokens.len() > 0 {
        Ok(Some(stream.tokens[0]))
    } else {
        match stream.failure {
            Some(e) => Err(e),
            None => Ok(None),
        }
    }
}

/// The stream without its first token.
pub open spec fn tail(stream: TokenStream) -> TokenStream {
    TokenStream { tokens: stream.tokens.drop_first(), failure: stream.failure }
}

/// The view of what the scanner hands out.
pub open spec fn outcome_view(r: Result<Option<Token>, LexError>) -> Result<
    Option<TokenView>,
    LexError,
> {
    match r {
        Ok(Some(t)) => Ok(Some(t@)),
        Ok(None) => Ok(None),
        Err(e) => Err(e),
    }
}

/// The front of the stream is the first scan, and the rest of the stream is the
/// stream of the rest of the text.
pub proof fn lemma_tokens_step(s: Seq<char>)
    ensures
        match scan(s) {
            Scan::End => head(tokens(s)) == Ok::<Option<TokenView>, LexError>(None),
            Scan::Error(e) => head(tokens(s)) == Err::<Option<TokenView>, LexError>(e),
            Scan::Token { token, len } => {
                &&& 0 < len <= s.len()
                &&& head(tokens(s)) == Ok::<Option<TokenView>, LexError>(Some(token))
                &&& tail(tokens(s)) == tokens(s.skip(len as int))
            },
        },
{
    lemma_scan_len(s);
    match scan(s) {
        Scan::Token { token, len } => {
            let rest = tokens(s.skip(len as int));
            assert((seq![token] + rest.tokens).drop_first() =~= rest.tokens);
        },
        _ => {},
    }
}

/// What `peek` shows is what `next` then reads: both hand out the front of
/// the same stream.
pub proof fn lemma_peek_then_next(
    stream: TokenStream,
    peeked: Result<Option<Token>, LexError>,
    read: Result<Option<Token>, LexError>,
)
    requires
        outcome_view(peeked) == head(stream),
        outcome_view(read) == head(stream),
    ensures
        outcome_view(peeked) == outcome_view(read),
{
}

/// A scanner over a text, read one token at a time.
#[derive(Debug, PartialEq, Eq)]
pub struct JsLexer {
    pos: usize,
    input: Vec<char>,
}

impl JsLexer {
    #[verifier::type_invariant]
    spec fn well_formed(self) -> bool {
        self.pos <= self.input.len()
    }

    /// The part of the text that has not been read.
    pub closed spec fn remaining(&self) -> Seq<char> {
        self.input@.skip(self.pos as int)
    }

    /// The tokens that have not been read.
    pub open spec fn stream(&self) -> TokenStream {
        tokens(self.remaining())
    }

    /// A scanner at the start of `js`.
    pub fn new(js: String) -> (lexer: Self)
        ensures
            lexer.remaining() == js@,
    {
        let input = chars_of(&js);
        assert(input@.skip(0) =~= input@);
        Self { pos: 0, input }
    }

    /// Reads the number that starts at `start`, where a digit stands.
    fn consume_number(&self, start: usize) -> (r: Result<(u64, usize), LexError>)
        requires
            start < self.input.len(),
            is_digit(self.input@[start as int]),
        ensures
            ({
                let s = self.input@.skip(start as int);
                let n = run_len(s, CharClass::Digit);
                let value = decimal_value(s.take(n as int));
                match r {
                    Ok((v, end)) => value <= u64::MAX && v == value && end == start + n && end
                        <= self.input.len(),
                    Err(e) => value > u64::MAX && e == LexError::NumberTooLarge,
                }
            }),
    {
        let ghost s = self.input@.skip(start as int);
        let end = run_end(&self.input, start, CharClass::Digit);
        let ghost n = (end - start) as nat;
        let ghost digits = s.take(n as int);
        proof {
            lemma_run_len(s, CharClass::Digit);
        }
        let mut value: u64 = 0;
        let mut i: usize = start;
        assert(digits.take(0) =~= Seq::<char>::empty());
        while i < end
            invariant
                start <= i <= end <= self.input.len(),
                s == self.input@.skip(start as int),
                n == end - start,
                n == run_len(s, CharClass::Digit),
                digits == s.take(n as int),
                forall|j: int| 0 <= j < n ==> is_digit(#[trigger] s[j]),
                value == decimal_value(digits.take(i - start)),
            decreases end - i,
        {
            let c = self.input[i];
            assert(c == s[i - start]);
            let d: u64 = (c as u32 - '0' as u32) as u64;
            let ghost longer = digits.take(i - start + 1);
            proof {
                assert(longer.drop_last() =~= digits.take(i - start));
                assert(longer.last() == c);
                assert(d == digit_value(c));
                assert(decimal_value(longer) == value * 10 + d);
                lemma_decimal_value_prefix(digits, i - start + 1);
                assert(digits.take(n as int) =~= digits);
            }
            let tens = match value.checked_mul(10) {
                Some(t) => t,
                None => {
                    return Err(LexError::NumberTooLarge);
                },
            };
            value = match tens.checked_add(d) {
                Some(v) => v,
                None => {
                    return Err(LexError::NumberTooLarge);
                },
            };
            i += 1;
        }
        assert(digits.take(n as int) =~= digits);
        Ok((value, end))
    }

    /// Tells the reserved words from the other names.
    fn classify(word: String) -> (t: Token)
        ensures
            t@ == (if is_keyword(word@) {
                TokenView::Keyword(word@)
            } else {
                TokenView::Identifier(word@)
            }),
    {
        if word == String::from_str("var") || word == String::from_str("function") || word
            == String::from_str("return") {
            Token::Keyword(word)
        } else {
            Token::Identifier(word)
        }
    }

    /// Scans from the current position without moving: the outcome of `scan`
    /// on the rest of the text, with the position after the token.
    fn scan_here(&self) -> (r: Result<Option<(Token, usize)>, LexError>)
        ensures
            match scan(self.remaining()) {
                Scan::End => r == Ok::<Option<(Token, usize)>, LexError>(None),
                Scan::Error(e) => r == Err::<Option<(Token, usize)>, LexError>(e),
                Scan::Token { token, len } => {
                    &&& r matches Ok(Some((t, end)))
                    &&& t@ == token
                    &&& end == self.pos + len
                    &&& end <= self.input.len()
                },
            },
    {
        proof {
            use_type_invariant(self);
        }
        let ghost whole = self.input@.skip(self.pos as int);
        let start = run_end(&self.input, self.pos, CharClass::Space);
        if start >= self.input.len() {
            return Ok(None);
        }
        let ghost s = whole.skip(start - self.pos);
        assert(s =~= self.input@.skip(start as int));
        let c = self.input[start];
        assert(c == s[0]);
        proof {
            lemma_run_len(s, CharClass::Word);
            lemma_run_len(s.drop_first(), CharClass::Except(c));
        }
        if c == '+' || c == '-' || c == '*' || c == '/' || c == '=' || c == ';' || c == '(' || c
            == ')' || c == '{' || c == '}' || c == ',' || c == '.' {
            Ok(Some((Token::Punctuator(c), start + 1)))
        } else if '0' <= c && c <= '9' {
            match self.consume_number(start) {
                Ok((value, end)) => Ok(Some((Token::Number(value), end))),
                Err(e) => Err(e),
            }
        } else if ('a' <= c && c <= 'z') || ('A' <= c && c <= 'Z') || c == '_' {
            let end = run_end(&self.input, start, CharClass::Word);
            let word = string_of(&self.input, start, end);
            assert(word@ =~= s.take(end - start));
            Ok(Some((Self::classify(word), end)))
        } else if c == '"' || c == '\'' {
            assert(s.drop_first() =~= self.input@.skip(start + 1));
            let close = run_end(&self.input, start + 1, CharClass::Except(c));
            let body = string_of(&self.input, start + 1, close);
            assert(body@ =~= s.subrange(1, 1 + (close - start - 1)));
            if close < self.input.len() {
                Ok(Some((Token::StringLiteral(body), close + 1)))
            } else {
                Ok(Some((Token::StringLiteral(body), close)))
            }
        } else {
            Err(LexError::UnexpectedChar(c))
        }
    }

    /// The next token, which stays unread: `Ok(None)` at the end of the text,
    /// the error where no token can be read.
    pub fn peek(&self) -> (r: Result<Option<Token>, LexError>)
        ensures
            outcome_view(r) == head(self.stream()),
    {
        proof {
            lemma_tokens_step(self.remaining());
        }
        match self.scan_here() {
            Ok(Some((token, _))) => Ok(Some(token)),
            Ok(None) => Ok(None),
            Err(e) => Err(e),
        }
    }

    /// Reads the next token: the one that `peek` shows. At the end of the text
    /// and at an error the scanner stays where it is.
    pub fn next(&mut self) -> (r: Result<Option<Token>, LexError>)
        ensures
            outcome_view(r) == head(old(self).stream()),
            r matches Ok(Some(_)) ==> final(self).stream() == tail(old(self).stream()),
            !(r matches Ok(Some(_))) ==> *final(self) == *old(self),
            match scan(old(self).remaining()) {
                Scan::Token { token, len } => final(self).remaining() == old(self).remaining().skip(
                    len as int,
                ),
                _ => true,
            },
    {
        proof {
            use_type_invariant(&*self);
            lemma_tokens_step(self.remaining());
        }
        match self.scan_here() {
            Ok(Some((token, end))) => {
                assert(self.input@.skip(self.pos as int).skip(end - self.pos) =~= self.input@.skip(
                    end as int,
                ));
                self.pos = end;
                Ok(Some(token))
            },
            Ok(None) => Ok(None),
            Err(e) => Err(e),
        }
    }
}


/// The display form of a token: a text that scans to it.
pub open spec fn token_text(token: TokenView) -> Seq<char> {
    match token {
        TokenView::Punctuator(c) => seq![c],
        TokenView::Number(n) => decimal_text(n as nat),
        TokenView::Identifier(name) => name,
        TokenView::Keyword(word) => word,
        TokenView::StringLiteral(body) => quoted(body),
    }
}

/// The display forms of the tokens, with one blank between two of them.
pub open spec fn render(tokens: Seq<TokenView>) -> Seq<char>
    decreases tokens.len(),
{
    if tokens.len() == 0 {
        Seq::empty()
    } else if tokens.len() == 1 {
        token_text(tokens[0])
    } else {
        token_text(tokens[0]) + seq![' '] + render(tokens.drop_first())
    }
}

/// Whether a token is one that scanning can yield.
pub open spec fn token_ok(token: TokenView) -> bool {
    match token {
        TokenView::Punctuator(c) => is_punctuator(c),
        TokenView::Number(_) => true,
        TokenView::Identifier(name) => {
            &&& name.len() > 0
            &&& is_word_start(name[0])
            &&& forall|i: int| 0 <= i < name.len() ==> in_class(CharClass::Word, #[trigger] name[i])
            &&& !is_keyword(name)
        },
        TokenView::Keyword(word) => is_keyword(word),
        TokenView::StringLiteral(body) => !(body.contains('"') && body.contains('\'')),
    }
}

/// The reserved words are made of letters.
pub proof fn lemma_keyword_letters(word: Seq<char>)
    requires
        is_keyword(word),
    ensures
        word.len() > 0,
        forall|i: int| 0 <= i < word.len() ==> is_letter(#[trigger] word[i]),
{
    reveal_strlit("var");
    reveal_strlit("function");
    reveal_strlit("return");
}

/// What scanning yields is a token that scanning can yield.
pub proof fn lemma_scan_ok(s: Seq<char>)
    ensures
        scan(s) matches Scan::Token { token, .. } ==> token_ok(token),
{
    let k = run_len(s, CharClass::Space);
    lemma_run_len(s, CharClass::Space);
    if k < s.len() {
        let t = s.skip(k as int);
        let c = t[0];
        if is_punctuator(c) {
        } else if is_digit(c) {
        } else if is_word_start(c) {
            lemma_run_len(t, CharClass::Word);
            let n = run_len(t, CharClass::Word);
            let word = t.take(n as int);
            assert(n > 0);
            assert(word[0] == c);
            assert forall|i: int| 0 <= i < word.len() implies in_class(
                CharClass::Word,
                #[trigger] word[i],
            ) by {
                assert(word[i] == t[i]);
            }
        } else if is_quote(c) {
            let u = t.drop_first();
            lemma_run_len(u, CharClass::Except(c));
            let n = run_len(u, CharClass::Except(c));
            let body = t.subrange(1, 1 + n as int);
            assert forall|i: int| 0 <= i < body.len() implies body[i] != c by {
                assert(body[i] == u[i]);
                assert(in_class(CharClass::Except(c), u[i]));
            }
            assert(!body.contains(c));
        }
    }
}

/// Every token of a text is one that scanning can yield.
pub proof fn lemma_tokens_ok(s: Seq<char>)
    ensures
        forall|i: int| 0 <= i < tokens(s).tokens.len() ==> token_ok(#[trigger] tokens(s).tokens[i]),
    decreases s.len(),
{
    lemma_scan_ok(s);
    lemma_scan_len(s);
    match scan(s) {
        Scan::Token { token, len } => {
            lemma_tokens_ok(s.skip(len as int));
        },
        _ => {},
    }
}

/// The display form of a token, followed by nothing or by a blank and
/// anything else, scans to the token and ends where the display form ends.
pub proof fn lemma_scan_token_text(token: TokenView, rest: Seq<char>)
    requires
        token_ok(token),
        rest.len() > 0 ==> rest[0] == ' ',
    ensures
        scan(token_text(token) + rest) == (Scan::Token {
            token,
            len: token_text(token).len(),
        }),
{
    let text = token_text(token);
    let s = text + rest;
    match token {
        TokenView::Punctuator(c) => {
            assert(s[0] == c);
            assert(s.skip(0) =~= s);
        },
        TokenView::Number(n) => {
            lemma_decimal_text(n as nat);
            assert(s[0] == text[0]);
            assert(s.skip(0) =~= s);
            lemma_run_of_prefix(text, rest, CharClass::Digit);
        },
        TokenView::Identifier(name) => {
            assert(s[0] == name[0]);
            assert(s.skip(0) =~= s);
            lemma_run_of_prefix(text, rest, CharClass::Word);
        },
        TokenView::Keyword(word) => {
            lemma_keyword_letters(word);
            assert(s[0] == word[0]);
            assert(s.skip(0) =~= s);
            lemma_run_of_prefix(text, rest, CharClass::Word);
        },
        TokenView::StringLiteral(body) => {
            lemma_quoted(body, rest);
            assert(s.skip(0) =~= s);
        },
    }
}

/// A blank in front of a text changes none of its tokens.
pub proof fn lemma_tokens_after_blank(s: Seq<char>)
    ensures
        tokens(seq![' '] + s) == tokens(s),
{
    let t = seq![' '] + s;
    assert(t.drop_first() =~= s);
    let k = run_len(s, CharClass::Space);
    lemma_run_len(s, CharClass::Space);
    assert(run_len(t, CharClass::Space) == k + 1);
    if k < s.len() {
        assert(t.skip(k as int + 1) =~= s.skip(k as int));
        lemma_scan_len(s);
        match scan(s) {
            Scan::Token { token, len } => {
                assert(t.skip(len as int + 1) =~= s.skip(len as int));
            },
            _ => {},
        }
    }
}

/// Tokens that scanning can yield, written out with one blank between two of
/// them, scan to themselves.
pub proof fn lemma_render_scans_back(list: Seq<TokenView>)
    requires
        forall|i: int| 0 <= i < list.len() ==> token_ok(#[trigger] list[i]),
    ensures
        tokens(render(list)) == (TokenStream { tokens: list, failure: None }),
    decreases list.len(),
{
    if list.len() == 0 {
        lemma_run_len(render(list), CharClass::Space);
        assert(tokens(render(list)).tokens =~= list);
    } else {
        let first = list[0];
        let text = token_text(first);
        let others = list.drop_first();
        assert forall|i: int| 0 <= i < others.len() implies token_ok(#[trigger] others[i]) by {
            assert(others[i] == list[i + 1]);
        }
        lemma_render_scans_back(others);
        if list.len() == 1 {
            let rest = Seq::<char>::empty();
            assert(text + rest =~= render(list));
            lemma_scan_token_text(first, rest);
            assert(render(list).skip(text.len() as int) =~= render(others));
        } else {
            let rest = seq![' '] + render(others);
            assert(text + rest =~= render(list));
            lemma_scan_token_text(first, rest);
            assert(render(list).skip(text.len() as int) =~= rest);
            lemma_tokens_after_blank(render(others));
        }
        assert(seq![first] + others =~= list);
    }
}

/// Writing the tokens of a text out with one blank between two of them gives
/// a text with the same tokens. Where the text cannot be scanned to its end,
/// this holds of the tokens before the error.
pub proof fn lemma_white_space_idempotence(source: Seq<char>)
    ensures
        tokens(render(tokens(source).tokens)) == (TokenStream {
            tokens: tokens(source).tokens,
            failure: None,
        }),
{
    lemma_tokens_ok(source);
    lemma_render_scans_back(tokens(source).tokens);
}

impl Token {
    /// The display form of the token.
    pub fn to_string(&self) -> (text: String)
        ensures
            text@ == token_text(self@),
    {
        match self {
            Token::Punctuator(c) => {
                let mut text = String::new();
                text.push(*c);
                assert(text@ =~= seq![*c]);
                text
            },
            Token::Number(n) => u64_to_string(*n),
            Token::Identifier(name) => name.clone(),
            Token::Keyword(word) => word.clone(),
            Token::StringLiteral(body) => quote(body),
        }
    }
}

/// The views of a list of tokens.
pub open spec fn tokens_view(list: Seq<Token>) -> Seq<TokenView> {
    Seq::new(list.len(), |i: int| list[i]@)
}

/// The display forms of the tokens, with one blank between two of them.
pub fn render_tokens(list: &Vec<Token>) -> (text: String)
    ensures
        text@ == render(tokens_view(list@)),
{
    let mut text = String::new();
    let mut i: usize = list.len();
    let ghost views = tokens_view(list@);
    assert(views.skip(i as int) =~= Seq::<TokenView>::empty());
    while i > 0
        invariant
            i <= list@.len(),
            views == tokens_view(list@),
            text@ == render(views.skip(i as int)),
        decreases i,
    {
        i -= 1;
        let ghost tail_view = views.skip(i + 1);
        let ghost here = views.skip(i as int);
        assert(here.drop_first() =~= tail_view);
        assert(here[0] == list@[i as int]@);
        let mut front = list[i].to_string();
        if i + 1 < list.len() {
            front.push(' ');
            front.append(text.as_str());
            assert(front@ =~= token_text(here[0]) + seq![' '] + render(tail_view));
        } else {
            assert(render(tail_view) =~= Seq::<char>::empty());
        }
        text = front;
    }
    assert(views.skip(0) =~= views);
    text
}

impl JsLexer {
    /// All the tokens of the rest of the text, or the first error in it.
    pub fn collect(&mut self) -> (r: Result<Vec<Token>, LexError>)
        ensures
            match old(self).stream().failure {
                Some(e) => r == Err::<Vec<Token>, LexError>(e),
                None => r matches Ok(list) && tokens_view(list@) == old(self).stream().tokens,
            },
    {
        let ghost all = self.stream();
        let mut list: Vec<Token> = Vec::new();
        loop
            invariant
                all == old(self).stream(),
                all.failure == self.stream().failure,
                all.tokens == tokens_view(list@) + self.stream().tokens,
            decreases self.stream().tokens.len(),
        {
            let ghost before = tokens_view(list@);
            let ghost left = self.stream().tokens;
            match self.next() {
                Ok(Some(token)) => {
                    list.push(token);
                    assert(tokens_view(list@) =~= before.push(token@));
                    assert(before.push(token@) + left.drop_first() =~= before + left);
                },
                Ok(None) => {
                    assert(before + left =~= before);
                    return Ok(list);
                },
                Err(e) => {
                    return Err(e);
                },
            }
        }
    }
}

} // verus!
