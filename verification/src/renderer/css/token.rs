//! The scanner for style sheets.
//!
//! `scan` says what the first token of a text is and how many characters it
//! takes; `tokens` iterates that over the whole text, and `CssTokenizer`
//! computes it one token at a time. `token_text` and `render` write tokens
//! back as text that scans to the same tokens (`lemma_white_space_idempotence`).

use crate::text::{
    chars_of, in_class, is_digit, is_letter, is_quote, lemma_quoted, lemma_run_len,
    lemma_run_len_is, lemma_run_of_prefix, quote, quoted, run_end, run_len, string_of, CharClass,
};
use vstd::prelude::*;

verus! {

/// A number as it is written: the digits before the point and the digits
/// after it. Its value is the first read as a decimal numeral plus, for the
/// digit `d` at place `k` of the second (counted from one), `d / 10^k`.
#[derive(Debug, Clone, PartialEq, Eq)]
pub struct CssNumber {
    pub integer: String,
    pub fraction: String,
}

/// What a `CssNumber` stands for.
pub ghost struct CssNumberView {
    pub integer: Seq<char>,
    pub fraction: Seq<char>,
}

impl View for CssNumber {
    type V = CssNumberView;

    open spec fn view(&self) -> CssNumberView {
        CssNumberView { integer: self.integer@, fraction: self.fraction@ }
    }
}

/// A token of a style sheet.
#[derive(Debug, Clone, PartialEq, Eq)]
pub enum CssToken {
    /// `#` and the name after it; the name is held without the `#`.
    HashToken(String),
    /// One of `,`, `.` and a lone `@`.
    Delim(char),
    /// A number.
    Number(CssNumber),
    Colon,
    Semicolon,
    OpenParenthesis,
    CloseParenthesis,
    OpenCurly,
    CloseCurly,
    /// A name.
    Ident(String),
    /// The text between two quotes.
    StringToken(String),
    /// `@` and the name after it; the name is held without the `@`.
    AtKeyword(String),
}

/// What a `CssToken` stands for.
pub ghost enum CssTokenView {
    HashToken(Seq<char>),
    Delim(char),
    Number(CssNumberView),
    Colon,
    Semicolon,
    OpenParenthesis,
    CloseParenthesis,
    OpenCurly,
    CloseCurly,
    Ident(Seq<char>),
    StringToken(Seq<char>),
    AtKeyword(Seq<char>),
}

impl View for CssToken {
    type V = CssTokenView;

    open spec fn view(&self) -> CssTokenView {
        match self {
            CssToken::HashToken(s) => CssTokenView::HashToken(s@),
            CssToken::Delim(c) => CssTokenView::Delim(*c),
            CssToken::Number(n) => CssTokenView::Number(n@),
            CssToken::Colon => CssTokenView::Colon,
            CssToken::Semicolon => CssTokenView::Semicolon,
            CssToken::OpenParenthesis => CssTokenView::OpenParenthesis,
            CssToken::CloseParenthesis => CssTokenView::CloseParenthesis,
            CssToken::OpenCurly => CssTokenView::OpenCurly,
            CssToken::CloseCurly => CssTokenView::CloseCurly,
            CssToken::Ident(s) => CssTokenView::Ident(s@),
            CssToken::StringToken(s) => CssTokenView::StringToken(s@),
            CssToken::AtKeyword(s) => CssTokenView::AtKeyword(s@),
        }
    }
}

/// Why a style sheet cannot be cut into tokens.
#[derive(Debug, Clone, Copy, PartialEq, Eq)]
pub enum CssError {
    /// A character that starts no token.
    UnexpectedChar(char),
}

/// What stands at the front of a text.
pub ghost enum Scan {
    /// Nothing but white space.
    End,
    /// A token; `len` counts the characters up to its end, white space before it included.
    Token { token: CssTokenView, len: nat },
    /// No token can be read.
    Error(CssError),
}

/// The tokens of a text up to its end or to the first place where no token
/// can be read, and the error met there, if any.
pub ghost struct TokenStream {
    pub tokens: Seq<CssTokenView>,
    pub failure: Option<CssError>,
}

/// The digits of `s`, in order.
pub open spec fn digits_of(s: Seq<char>) -> Seq<char>
    decreases s.len(),
{
    if s.len() == 0 {
        Seq::empty()
    } else if is_digit(s.last()) {
        digits_of(s.drop_last()).push(s.last())
    } else {
        digits_of(s.drop_last())
    }
}

/// The number that a run of digits and points spells: the digits up to the
/// first point, and all the digits after it.
pub open spec fn number_of(run: Seq<char>) -> CssNumberView {
    let k = run_len(run, CharClass::Digit);
    CssNumberView { integer: run.take(k as int), fraction: digits_of(run.skip(k as int)) }
}

/// The token of one character that `c` is, if it is one.
pub open spec fn single(c: char) -> Option<CssTokenView> {
    if c == '(' {
        Some(CssTokenView::OpenParenthesis)
    } else if c == ')' {
        Some(CssTokenView::CloseParenthesis)
    } else if c == ',' || c == '.' {
        Some(CssTokenView::Delim(c))
    } else if c == ':' {
        Some(CssTokenView::Colon)
    } else if c == ';' {
        Some(CssTokenView::Semicolon)
    } else if c == '{' {
        Some(CssTokenView::OpenCurly)
    } else if c == '}' {
        Some(CssTokenView::CloseCurly)
    } else {
        None
    }
}

/// Whether the `@` at the front of `s` starts a keyword: a letter and two
/// more letters or digits follow it.
pub open spec fn at_keyword_start(s: Seq<char>) -> bool {
    &&& s.len() >= 4
    &&& is_letter(s[1])
    &&& (is_letter(s[2]) || is_digit(s[2]))
    &&& (is_letter(s[3]) || is_digit(s[3]))
}

/// The token at the front of `s`, which starts with a character that is not white space.
pub open spec fn scan_token(s: Seq<char>) -> Scan
    recommends
        s.len() > 0,
{
    let c = s[0];
    if single(c) is Some {
        Scan::Token { token: single(c)->0, len: 1 }
    } else if is_digit(c) {
        let n = run_len(s, CharClass::Numeric);
        Scan::Token { token: CssTokenView::Number(number_of(s.take(n as int))), len: n }
    } else if c == '#' {
        let n = run_len(s.drop_first(), CharClass::Name);
        Scan::Token { token: CssTokenView::HashToken(s.subrange(1, 1 + n as int)), len: 1 + n }
    } else if c == '@' {
        if at_keyword_start(s) {
            let n = run_len(s.drop_first(), CharClass::Name);
            Scan::Token { token: CssTokenView::AtKeyword(s.subrange(1, 1 + n as int)), len: 1 + n }
        } else {
            Scan::Token { token: CssTokenView::Delim('@'), len: 1 }
        }
    } else if c == '-' || c == '_' || is_letter(c) {
        let n = run_len(s, CharClass::Name);
        Scan::Token { token: CssTokenView::Ident(s.take(n as int)), len: n }
    } else if is_quote(c) {
        let n = run_len(s.drop_first(), CharClass::Except(c));
        let body = s.subrange(1, 1 + n as int);
        if 1 + n < s.len() {
            Scan::Token { token: CssTokenView::StringToken(body), len: n + 2 }
        } else {
            Scan::Token { token: CssTokenView::StringToken(body), len: n + 1 }
        }
    } else {
        Scan::Error(CssError::UnexpectedChar(c))
    }
}

/// What stands at the front of `s`, after any white space.
pub open spec fn scan(s: Seq<char>) -> Scan {
    let k = run_len(s, CharClass::Space);
    if k >= s.len() {
        Scan::End
    } else {
        match scan_token(s.skip(k as int)) {
            Scan::Token { token, len } => Scan::Token { token, len: k + len },
            other => other,
        }
    }
}

/// A token takes at least one character and no more than there are.
pub proof fn lemma_scan_len(s: Seq<char>)
    ensures
        scan(s) matches Scan::Token { len, .. } ==> 0 < len <= s.len(),
{
    let k = run_len(s, CharClass::Space);
    lemma_run_len(s, CharClass::Space);
    if k < s.len() {
        let t = s.skip(k as int);
        let c = t[0];
        lemma_run_len(t, CharClass::Numeric);
        lemma_run_len(t, CharClass::Name);
        lemma_run_len(t.drop_first(), CharClass::Name);
        lemma_run_len(t.drop_first(), CharClass::Except(c));
    }
}

/// All the tokens of `s`.
pub open spec fn tokens(s: Seq<char>) -> TokenStream
    decreases s.len(),
{
    match scan(s) {
        Scan::End => TokenStream { tokens: Seq::empty(), failure: None },
        Scan::Error(e) => TokenStream { tokens: Seq::empty(), failure: Some(e) },
        Scan::Token { token, len } => {
            proof {
                lemma_scan_len(s);
            }
            let rest = tokens(s.skip(len as int));
            TokenStream { tokens: seq![token] + rest.tokens, failure: rest.failure }
        },
    }
}

/// The view of what the scanner hands out.
pub open spec fn outcome_view(r: Result<Option<CssToken>, CssError>) -> Result<
    Option<CssTokenView>,
    CssError,
> {
    match r {
        Ok(Some(t)) => Ok(Some(t@)),
        Ok(None) => Ok(None),
        Err(e) => Err(e),
    }
}

/// What a reader finds at the front of a stream: a token, the end, or the error.
pub open spec fn head(stream: TokenStream) -> Result<Option<CssTokenView>, CssError> {
    if stream.tokens.len() > 0 {
        Ok(Some(stream.tokens[0]))
    } else {
        match stream.failure {
            Some(e) => Err(e),
            None => Ok(None),
        }
    }
}

/// The stream without its first token.
pub open spec fn tail(stream: TokenStream) -> TokenStream {
    TokenStream { tokens: stream.tokens.drop_first(), failure: stream.failure }
}

/// The front of the stream is the first scan, and the rest of the stream is the
/// stream of the rest of the text.
pub proof fn lemma_tokens_step(s: Seq<char>)
    ensures
        match scan(s) {
            Scan::End => head(tokens(s)) == Ok::<Option<CssTokenView>, CssError>(None),
            Scan::Error(e) => head(tokens(s)) == Err::<Option<CssTokenView>, CssError>(e),
            Scan::Token { token, len } => {
                &&& 0 < len <= s.len()
                &&& head(tokens(s)) == Ok::<Option<CssTokenView>, CssError>(Some(token))
                &&& tail(tokens(s)) == tokens(s.skip(len as int))
            },
        },
{
    lemma_scan_len(s);
    match scan(s) {
        Scan::Token { token, len } => {
            let rest = tokens(s.skip(len as int));
            assert((seq![token] + rest.tokens).drop_first() =~= rest.tokens);
        },
        _ => {},
    }
}

/// A scanner over a style sheet, read one token at a time.
#[derive(Debug, PartialEq, Eq)]
pub struct CssTokenizer {
    pos: usize,
    input: Vec<char>,
}

impl CssTokenizer {
    #[verifier::type_invariant]
    spec fn well_formed(self) -> bool {
        self.pos <= self.input.len()
    }

    /// The part of the text that has not been read.
    pub closed spec fn remaining(&self) -> Seq<char> {
        self.input@.skip(self.pos as int)
    }

    /// The tokens that have not been read.
    pub open spec fn stream(&self) -> TokenStream {
        tokens(self.remaining())
    }

    /// A scanner at the start of `css`.
    pub fn new(css: String) -> (tokenizer: Self)
        ensures
            tokenizer.remaining() == css@,
    {
        let input = chars_of(&css);
        assert(input@.skip(0) =~= input@);
        Self { pos: 0, input }
    }

    /// Reads the text after the quote at `start`, up to the same quote or to
    /// the end of the input, and says where the token ends.
    fn consume_string_token(&self, start: usize) -> (r: (String, usize))
        requires
            start < self.input.len(),
        ensures
            ({
                let s = self.input@.skip(start as int);
                let n = run_len(s.drop_first(), CharClass::Except(s[0]));
                &&& r.0@ == s.subrange(1, 1 + n as int)
                &&& r.1 == start + (if 1 + n < s.len() {
                    n + 2
                } else {
                    n + 1
                })
                &&& r.1 <= self.input.len()
            }),
    {
        let ghost s = self.input@.skip(start as int);
        let quote = self.input[start];
        assert(s.drop_first() =~= self.input@.skip(start + 1));
        let close = run_end(&self.input, start + 1, CharClass::Except(quote));
        let body = string_of(&self.input, start + 1, close);
        assert(body@ =~= s.subrange(1, 1 + (close - start - 1)));
        if close < self.input.len() {
            (body, close + 1)
        } else {
            (body, close)
        }
    }

    /// Reads the number that starts at `start` and says where it ends.
    fn consume_numeric_token(&self, start: usize) -> (r: (CssNumber, usize))
        requires
            start <= self.input.len(),
        ensures
            ({
                let s = self.input@.skip(start as int);
                let n = run_len(s, CharClass::Numeric);
                &&& r.0@ == number_of(s.take(n as int))
                &&& r.1 == start + n
                &&& r.1 <= self.input.len()
            }),
    {
        let ghost s = self.input@.skip(start as int);
        let end = run_end(&self.input, start, CharClass::Numeric);
        let ghost run = s.take(end - start);
        assert(run =~= self.input@.subrange(start as int, end as int));
        // The digits before the first point: the run of digits of `run`.
        let mut point: usize = start;
        while point < end && '0' <= self.input[point] && self.input[point] <= '9'
            invariant
                start <= point <= end <= self.input.len(),
                run == self.input@.subrange(start as int, end as int),
                forall|i: int| 0 <= i < point - start ==> is_digit(#[trigger] run[i]),
            decreases end - point,
        {
            point += 1;
        }
        proof {
            lemma_run_len_is(run, CharClass::Digit, (point - start) as nat);
        }
        let integer = string_of(&self.input, start, point);
        assert(integer@ =~= run.take(point - start));
        let ghost rest = run.skip(point - start);
        let mut fraction = String::new();
        let mut i: usize = point;
        assert(rest.take(0) =~= Seq::<char>::empty());
        while i < end
            invariant
                start <= point <= i <= end <= self.input.len(),
                run == self.input@.subrange(start as int, end as int),
                rest == run.skip(point - start),
                fraction@ == digits_of(rest.take(i - point)),
            decreases end - i,
        {
            let c = self.input[i];
            let ghost longer = rest.take(i - point + 1);
            assert(longer.drop_last() =~= rest.take(i - point));
            assert(longer.last() == c);
            if '0' <= c && c <= '9' {
                fraction.push(c);
            }
            i += 1;
        }
        assert(rest.take(end - point) =~= rest);
        (CssNumber { integer, fraction }, end)
    }

    /// Reads the name that starts at `start` and says where it ends.
    fn consume_ident_token(&self, start: usize) -> (r: (String, usize))
        requires
            start <= self.input.len(),
        ensures
            ({
                let s = self.input@.skip(start as int);
                let n = run_len(s, CharClass::Name);
                &&& r.0@ == s.take(n as int)
                &&& r.1 == start + n
                &&& r.1 <= self.input.len()
            }),
    {
        let end = run_end(&self.input, start, CharClass::Name);
        let name = string_of(&self.input, start, end);
        assert(name@ =~= self.input@.skip(start as int).take(end - start));
        (name, end)
    }

    /// Whether a letter and two more letters or digits follow the `@` at `start`.
    fn starts_keyword(&self, start: usize) -> (b: bool)
        requires
            start < self.input.len(),
        ensures
            b == at_keyword_start(self.input@.skip(start as int)),
    {
        if self.input.len() - start < 4 {
            return false;
        }
        let a = self.input[start + 1];
        let b = self.input[start + 2];
        let c = self.input[start + 3];
        let ghost s = self.input@.skip(start as int);
        assert(s[1] == a && s[2] == b && s[3] == c);
        (('a' <= a && a <= 'z') || ('A' <= a && a <= 'Z')) && (('a' <= b && b <= 'z') || ('A' <= b
            && b <= 'Z') || ('0' <= b && b <= '9')) && (('a' <= c && c <= 'z') || ('A' <= c && c
            <= 'Z') || ('0' <= c && c <= '9'))
    }

    /// Scans from the current position without moving: the outcome of `scan`
    /// on the rest of the text, with the position after the token.
    fn scan_here(&self) -> (r: Result<Option<(CssToken, usize)>, CssError>)
        ensures
            match scan(self.remaining()) {
                Scan::End => r == Ok::<Option<(CssToken, usize)>, CssError>(None),
                Scan::Error(e) => r == Err::<Option<(CssToken, usize)>, CssError>(e),
                Scan::Token { token, len } => {
                    &&& r matches Ok(Some((t, end)))
                    &&& t@ == token
                    &&& end == self.pos + len
                    &&& end <= self.input.len()
                },
            },
    {
        proof {
            use_type_invariant(self);
        }
        let ghost whole = self.input@.skip(self.pos as int);
        let start = run_end(&self.input, self.pos, CharClass::Space);
        if start >= self.input.len() {
            return Ok(None);
        }
        let ghost s = whole.skip(start - self.pos);
        assert(s =~= self.input@.skip(start as int));
        let c = self.input[start];
        assert(c == s[0]);
        assert(s.drop_first() =~= self.input@.skip(start + 1));
        let token = match c {
            '(' => (CssToken::OpenParenthesis, start + 1),
            ')' => (CssToken::CloseParenthesis, start + 1),
            ',' => (CssToken::Delim(','), start + 1),
            '.' => (CssToken::Delim('.'), start + 1),
            ':' => (CssToken::Colon, start + 1),
            ';' => (CssToken::Semicolon, start + 1),
            '{' => (CssToken::OpenCurly, start + 1),
            '}' => (CssToken::CloseCurly, start + 1),
            '#' => {
                let (value, end) = self.consume_ident_token(start + 1);
                assert(value@ =~= s.subrange(1, 1 + (end - start - 1)));
                (CssToken::HashToken(value), end)
            },
            '@' => {
                if self.starts_keyword(start) {
                    let (value, end) = self.consume_ident_token(start + 1);
                    assert(value@ =~= s.subrange(1, 1 + (end - start - 1)));
                    (CssToken::AtKeyword(value), end)
                } else {
                    (CssToken::Delim('@'), start + 1)
                }
            },
            '"' | '\'' => {
                let (value, end) = self.consume_string_token(start);
                (CssToken::StringToken(value), end)
            },
            _ => {
                if '0' <= c && c <= '9' {
                    let (value, end) = self.consume_numeric_token(start);
                    (CssToken::Number(value), end)
                } else if c == '-' || c == '_' || ('a' <= c && c <= 'z') || ('A' <= c && c <= 'Z') {
                    let (value, end) = self.consume_ident_token(start);
                    (CssToken::Ident(value), end)
                } else {
                    return Err(CssError::UnexpectedChar(c));
                }
            },
        };
        Ok(Some(token))
    }

    /// Reads the next token: `Ok(None)` at the end of the text, the error
    /// where no token can be read. At the end and at an error the scanner
    /// stays where it is.
    pub fn next(&mut self) -> (r: Result<Option<CssToken>, CssError>)
        ensures
            outcome_view(r) == head(old(self).stream()),
            r matches Ok(Some(_)) ==> final(self).stream() == tail(old(self).stream()),
            !(r matches Ok(Some(_))) ==> *final(self) == *old(self),
            match scan(old(self).remaining()) {
                Scan::Token { token, len } => final(self).remaining() == old(self).remaining().skip(
                    len as int,
                ),
                _ => true,
            },
    {
        proof {
            use_type_invariant(&*self);
            lemma_tokens_step(self.remaining());
        }
        match self.scan_here() {
            Ok(Some((token, end))) => {
                assert(self.input@.skip(self.pos as int).skip(end - self.pos) =~= self.input@.skip(
                    end as int,
                ));
                self.pos = end;
                Ok(Some(token))
            },
            Ok(None) => Ok(None),
            Err(e) => Err(e),
        }
    }

    /// All the tokens of the rest of the text, or the first error in it.
    pub fn collect(&mut self) -> (r: Result<Vec<CssToken>, CssError>)
        ensures
            match old(self).stream().failure {
                Some(e) => r == Err::<Vec<CssToken>, CssError>(e),
                None => r matches Ok(list) && tokens_view(list@) == old(self).stream().tokens,
            },
    {
        let ghost all = self.stream();
        let mut list: Vec<CssToken> = Vec::new();
        loop
            invariant
                all == old(self).stream(),
                all.failure == self.stream().failure,
                all.tokens == tokens_view(list@) + self.stream().tokens,
            decreases self.stream().tokens.len(),
        {
            let ghost before = tokens_view(list@);
            let ghost left = self.stream().tokens;
            match self.next() {
                Ok(Some(token)) => {
                    list.push(token);
                    assert(tokens_view(list@) =~= before.push(token@));
                    assert(before.push(token@) + left.drop_first() =~= before + left);
                },
                Ok(None) => {
                    assert(before + left =~= before);
                    return Ok(list);
                },
                Err(e) => {
                    return Err(e);
                },
            }
        }
    }
}


/// A number as text: its digits, with a point between the two parts where
/// there are digits after it.
pub open spec fn number_text(number: CssNumberView) -> Seq<char> {
    if number.fraction.len() == 0 {
        number.integer
    } else {
        number.integer + seq!['.'] + number.fraction
    }
}

/// The display form of a token: a text that scans to it.
pub open spec fn token_text(token: CssTokenView) -> Seq<char> {
    match token {
        CssTokenView::HashToken(name) => seq!['#'] + name,
        CssTokenView::Delim(c) => seq![c],
        CssTokenView::Number(number) => number_text(number),
        CssTokenView::Colon => seq![':'],
        CssTokenView::Semicolon => seq![';'],
        CssTokenView::OpenParenthesis => seq!['('],
        CssTokenView::CloseParenthesis => seq![')'],
        CssTokenView::OpenCurly => seq!['{'],
        CssTokenView::CloseCurly => seq!['}'],
        CssTokenView::Ident(name) => name,
        CssTokenView::StringToken(body) => quoted(body),
        CssTokenView::AtKeyword(name) => seq!['@'] + name,
    }
}

/// The display forms of the tokens, with one blank between two of them.
pub open spec fn render(tokens: Seq<CssTokenView>) -> Seq<char>
    decreases tokens.len(),
{
    if tokens.len() == 0 {
        Seq::empty()
    } else if tokens.len() == 1 {
        token_text(tokens[0])
    } else {
        token_text(tokens[0]) + seq![' '] + render(tokens.drop_first())
    }
}

/// Whether every character of `text` is of `class`.
pub open spec fn all_in(text: Seq<char>, class: CharClass) -> bool {
    forall|i: int| 0 <= i < text.len() ==> in_class(class, #[trigger] text[i])
}

/// Whether a token is one that scanning can yield.
pub open spec fn token_ok(token: CssTokenView) -> bool {
    match token {
        CssTokenView::HashToken(name) => all_in(name, CharClass::Name),
        CssTokenView::Delim(c) => c == ',' || c == '.' || c == '@',
        CssTokenView::Number(number) => {
            &&& number.integer.len() > 0
            &&& all_in(number.integer, CharClass::Digit)
            &&& all_in(number.fraction, CharClass::Digit)
        },
        CssTokenView::Ident(name) => {
            &&& name.len() > 0
            &&& (name[0] == '-' || name[0] == '_' || is_letter(name[0]))
            &&& all_in(name, CharClass::Name)
        },
        CssTokenView::StringToken(body) => !(body.contains('"') && body.contains('\'')),
        CssTokenView::AtKeyword(name) => {
            &&& name.len() >= 3
            &&& is_letter(name[0])
            &&& (is_letter(name[1]) || is_digit(name[1]))
            &&& (is_letter(name[2]) || is_digit(name[2]))
            &&& all_in(name, CharClass::Name)
        },
        _ => true,
    }
}

/// What `digits_of` keeps are digits; of a text of digits it keeps all, and of
/// two texts one after the other it keeps what it keeps of each.
pub proof fn lemma_digits_of(a: Seq<char>, b: Seq<char>)
    ensures
        all_in(digits_of(a), CharClass::Digit),
        all_in(a, CharClass::Digit) ==> digits_of(a) == a,
        digits_of(a + b) == digits_of(a) + digits_of(b),
    decreases a.len() + b.len(),
{
    if a.len() > 0 {
        lemma_digits_of(a.drop_last(), Seq::empty());
        if all_in(a, CharClass::Digit) {
            assert forall|i: int| 0 <= i < a.drop_last().len() implies in_class(
                CharClass::Digit,
                #[trigger] a.drop_last()[i],
            ) by {
                assert(a.drop_last()[i] == a[i]);
            }
            assert(is_digit(a.last()));
            assert(digits_of(a.drop_last()).push(a.last()) =~= a);
        }
    }
    if b.len() == 0 {
        assert(a + b =~= a);
        assert(digits_of(a) + digits_of(b) =~= digits_of(a));
    } else {
        lemma_digits_of(a, b.drop_last());
        assert((a + b).drop_last() =~= a + b.drop_last());
        assert((a + b).last() == b.last());
        if is_digit(b.last()) {
            assert(digits_of(a + b) =~= digits_of(a) + digits_of(b));
        }
    }
}

/// What scanning yields is a token that scanning can yield.
pub proof fn lemma_scan_ok(s: Seq<char>)
    ensures
        scan(s) matches Scan::Token { token, .. } ==> token_ok(token),
{
    let k = run_len(s, CharClass::Space);
    lemma_run_len(s, CharClass::Space);
    if k < s.len() {
        let t = s.skip(k as int);
        let c = t[0];
        let u = t.drop_first();
        if single(c) is Some {
        } else if is_digit(c) {
            lemma_run_len(t, CharClass::Numeric);
            let run = t.take(run_len(t, CharClass::Numeric) as int);
            lemma_run_len(run, CharClass::Digit);
            assert(run[0] == c);
            let integer = run.take(run_len(run, CharClass::Digit) as int);
            assert forall|i: int| 0 <= i < integer.len() implies in_class(
                CharClass::Digit,
                #[trigger] integer[i],
            ) by {
                assert(integer[i] == run[i]);
            }
            lemma_digits_of(run.skip(run_len(run, CharClass::Digit) as int), Seq::empty());
        } else if c == '#' || c == '@' {
            lemma_run_len(u, CharClass::Name);
            let n = run_len(u, CharClass::Name);
            let name = t.subrange(1, 1 + n as int);
            assert forall|i: int| 0 <= i < name.len() implies in_class(
                CharClass::Name,
                #[trigger] name[i],
            ) by {
                assert(name[i] == u[i]);
            }
            if c == '@' && at_keyword_start(t) {
                assert(u[0] == t[1] && u[1] == t[2] && u[2] == t[3]);
                if n < 3 {
                    assert(!in_class(CharClass::Name, u[n as int]));
                }
                assert(name[0] == t[1] && name[1] == t[2] && name[2] == t[3]);
            }
        } else if c == '-' || c == '_' || is_letter(c) {
            lemma_run_len(t, CharClass::Name);
            let n = run_len(t, CharClass::Name);
            let name = t.take(n as int);
            assert(n > 0);
            assert(name[0] == c);
            assert forall|i: int| 0 <= i < name.len() implies in_class(
                CharClass::Name,
                #[trigger] name[i],
            ) by {
                assert(name[i] == t[i]);
            }
        } else if is_quote(c) {
            lemma_run_len(u, CharClass::Except(c));
            let n = run_len(u, CharClass::Except(c));
            let body = t.subrange(1, 1 + n as int);
            assert forall|i: int| 0 <= i < body.len() implies body[i] != c by {
                assert(body[i] == u[i]);
                assert(in_class(CharClass::Except(c), u[i]));
            }
            assert(!body.contains(c));
        }
    }
}

/// Every token of a text is one that scanning can yield.
pub proof fn lemma_tokens_ok(s: Seq<char>)
    ensures
        forall|i: int| 0 <= i < tokens(s).tokens.len() ==> token_ok(#[trigger] tokens(s).tokens[i]),
    decreases s.len(),
{
    lemma_scan_ok(s);
    lemma_scan_len(s);
    match scan(s) {
        Scan::Token { token, len } => {
            lemma_tokens_ok(s.skip(len as int));
        },
        _ => {},
    }
}

/// The text of a number, followed by nothing or by a blank, is a run of
/// digits and points that spells the number.
pub proof fn lemma_number_text(number: CssNumberView, rest: Seq<char>)
    requires
        token_ok(CssTokenView::Number(number)),
        rest.len() > 0 ==> rest[0] == ' ',
    ensures
        run_len(number_text(number) + rest, CharClass::Numeric) == number_text(number).len(),
        number_of(number_text(number)) == number,
        (number_text(number) + rest).take(number_text(number).len() as int) == number_text(number),
        is_digit((number_text(number) + rest)[0]),
{
    let text = number_text(number);
    assert(text[0] == number.integer[0]);
    assert((text + rest)[0] == text[0]);
    assert forall|i: int| 0 <= i < text.len() implies in_class(
        CharClass::Numeric,
        #[trigger] text[i],
    ) by {
        if i < number.integer.len() {
            assert(text[i] == number.integer[i]);
        } else if i > number.integer.len() {
            assert(text[i] == number.fraction[i - number.integer.len() - 1]);
        }
    }
    lemma_run_of_prefix(text, rest, CharClass::Numeric);
    let k = number.integer.len() as int;
    if number.fraction.len() == 0 {
        assert(number.integer + Seq::<char>::empty() =~= number.integer);
        lemma_run_of_prefix(number.integer, Seq::empty(), CharClass::Digit);
        assert(run_len(text, CharClass::Digit) == k);
        assert(text.skip(k) =~= Seq::<char>::empty());
        assert(text.take(k) =~= number.integer);
        assert(number.fraction =~= Seq::<char>::empty());
        assert(digits_of(text.skip(k)) =~= number.fraction);
    } else {
        let tail = seq!['.'] + number.fraction;
        assert(text =~= number.integer + tail);
        lemma_run_of_prefix(number.integer, tail, CharClass::Digit);
        assert(run_len(text, CharClass::Digit) == k);
        assert(text.take(k) =~= number.integer);
        assert(text.skip(k) =~= tail);
        lemma_digits_of(seq!['.'], number.fraction);
        lemma_digits_of(number.fraction, Seq::empty());
        assert(seq!['.'].drop_last() =~= Seq::<char>::empty());
        assert(digits_of(seq!['.']) =~= Seq::<char>::empty());
        assert(digits_of(tail) =~= number.fraction);
    }
}

/// The display form of a token, followed by nothing or by a blank and
/// anything else, scans to the token and ends where the display form ends.
pub proof fn lemma_scan_token_text(token: CssTokenView, rest: Seq<char>)
    requires
        token_ok(token),
        rest.len() > 0 ==> rest[0] == ' ',
    ensures
        scan(token_text(token) + rest) == (Scan::Token {
            token,
            len: token_text(token).len(),
        }),
{
    let text = token_text(token);
    let s = text + rest;
    assert(s.skip(0) =~= s);
    assert(s[0] == text[0]) by {
        match token {
            CssTokenView::Number(number) => {
                lemma_number_text(number, rest);
            },
            _ => {},
        }
    }
    match token {
        CssTokenView::HashToken(name) => {
            assert(s.drop_first() =~= name + rest);
            lemma_run_of_prefix(name, rest, CharClass::Name);
            assert(s.subrange(1, 1 + name.len() as int) =~= name);
        },
        CssTokenView::AtKeyword(name) => {
            assert(s.drop_first() =~= name + rest);
            lemma_run_of_prefix(name, rest, CharClass::Name);
            assert(s.subrange(1, 1 + name.len() as int) =~= name);
            assert(s[1] == name[0] && s[2] == name[1] && s[3] == name[2]);
        },
        CssTokenView::Delim(c) => {
            if c == '@' && rest.len() > 0 {
                assert(s[1] == rest[0]);
            }
        },
        CssTokenView::Number(number) => {
            lemma_number_text(number, rest);
        },
        CssTokenView::Ident(name) => {
            lemma_run_of_prefix(name, rest, CharClass::Name);
        },
        CssTokenView::StringToken(body) => {
            lemma_quoted(body, rest);
        },
        _ => {},
    }
}

/// A blank in front of a text changes none of its tokens.
pub proof fn lemma_tokens_after_blank(s: Seq<char>)
    ensures
        tokens(seq![' '] + s) == tokens(s),
{
    let t = seq![' '] + s;
    assert(t.drop_first() =~= s);
    let k = run_len(s, CharClass::Space);
    lemma_run_len(s, CharClass::Space);
    assert(run_len(t, CharClass::Space) == k + 1);
    if k < s.len() {
        assert(t.skip(k as int + 1) =~= s.skip(k as int));
        lemma_scan_len(s);
        match scan(s) {
            Scan::Token { token, len } => {
                assert(t.skip(len as int + 1) =~= s.skip(len as int));
            },
            _ => {},
        }
    }
}

/// Tokens that scanning can yield, written out with one blank between two of
/// them, scan to themselves.
pub proof fn lemma_render_scans_back(list: Seq<CssTokenView>)
    requires
        forall|i: int| 0 <= i < list.len() ==> token_ok(#[trigger] list[i]),
    ensures
        tokens(render(list)) == (TokenStream { tokens: list, failure: None }),
    decreases list.len(),
{
    if list.len() == 0 {
        lemma_run_len(render(list), CharClass::Space);
        assert(tokens(render(list)).tokens =~= list);
    } else {
        let first = list[0];
        let text = token_text(first);
        let others = list.drop_first();
        assert forall|i: int| 0 <= i < others.len() implies token_ok(#[trigger] others[i]) by {
            assert(others[i] == list[i + 1]);
        }
        lemma_render_scans_back(others);
        if list.len() == 1 {
            let rest = Seq::<char>::empty();
            assert(text + rest =~= render(list));
            lemma_scan_token_text(first, rest);
            assert(render(list).skip(text.len() as int) =~= render(others));
        } else {
            let rest = seq![' '] + render(others);
            assert(text + rest =~= render(list));
            lemma_scan_token_text(first, rest);
            assert(render(list).skip(text.len() as int) =~= rest);
            lemma_tokens_after_blank(render(others));
        }
        assert(seq![first] + others =~= list);
    }
}

/// Writing the tokens of a style sheet out with one blank between two of them
/// gives a text with the same tokens. Where the text cannot be scanned to its
/// end, this holds of the tokens before the error.
pub proof fn lemma_white_space_idempotence(source: Seq<char>)
    ensures
        tokens(render(tokens(source).tokens)) == (TokenStream {
            tokens: tokens(source).tokens,
            failure: None,
        }),
{
    lemma_tokens_ok(source);
    lemma_render_scans_back(tokens(source).tokens);
}

/// A string of the one character `c`.
fn one(c: char) -> (text: String)
    ensures
        text@ == seq![c],
{
    let mut text = String::new();
    text.push(c);
    assert(text@ =~= seq![c]);
    text
}

/// The name `name` after the character `mark`.
fn marked(mark: char, name: &String) -> (text: String)
    ensures
        text@ == seq![mark] + name@,
{
    let mut text = one(mark);
    text.append(name.as_str());
    text
}

impl CssNumber {
    /// The number as text.
    pub fn to_string(&self) -> (text: String)
        ensures
            text@ == number_text(self@),
    {
        let mut text = self.integer.clone();
        if self.fraction.as_str().unicode_len() > 0 {
            text.push('.');
            text.append(self.fraction.as_str());
        }
        text
    }
}

impl CssToken {
    /// The display form of the token.
    pub fn to_string(&self) -> (text: String)
        ensures
            text@ == token_text(self@),
    {
        match self {
            CssToken::HashToken(name) => marked('#', name),
            CssToken::Delim(c) => one(*c),
            CssToken::Number(number) => number.to_string(),
            CssToken::Colon => one(':'),
            CssToken::Semicolon => one(';'),
            CssToken::OpenParenthesis => one('('),
            CssToken::CloseParenthesis => one(')'),
            CssToken::OpenCurly => one('{'),
            CssToken::CloseCurly => one('}'),
            CssToken::Ident(name) => name.clone(),
            CssToken::StringToken(body) => quote(body),
            CssToken::AtKeyword(name) => marked('@', name),
        }
    }
}

/// The views of a list of tokens.
pub open spec fn tokens_view(list: Seq<CssToken>) -> Seq<CssTokenView> {
    Seq::new(list.len(), |i: int| list[i]@)
}

/// The display forms of the tokens, with one blank between two of them.
pub fn render_tokens(list: &Vec<CssToken>) -> (text: String)
    ensures
        text@ == render(tokens_view(list@)),
{
    let mut text = String::new();
    let mut i: usize = list.len();
    let ghost views = tokens_view(list@);
    assert(views.skip(i as int) =~= Seq::<CssTokenView>::empty());
    while i > 0
        invariant
            i <= list@.len(),
            views == tokens_view(list@),
            text@ == render(views.skip(i as int)),
        decreases i,
    {
        i -= 1;
        let ghost tail_view = views.skip(i + 1);
        let ghost here = views.skip(i as int);
        assert(here.drop_first() =~= tail_view);
        assert(here[0] == list@[i as int]@);
        let mut front = list[i].to_string();
        if i + 1 < list.len() {
            front.push(' ');
            front.append(text.as_str());
            assert(front@ =~= token_text(here[0]) + seq![' '] + render(tail_view));
        } else {
            assert(render(tail_view) =~= Seq::<char>::empty());
        }
        text = front;
    }
    assert(views.skip(0) =~= views);
    text
}

} // verus!
