//! Characters, character runs and decimal numerals.
//!
//! Both scanners cut their input into maximal runs of characters of one class
//! and read or write unsigned numbers in base ten. The definitions and lemmas
//! for that live here, next to the few executable helpers that move between
//! `String` and `Vec<char>`, and the two functions of `String` that this crate
//! takes on trust.

use vstd::prelude::*;

verus! {

/// `String::push` appends exactly one character to the end of the string and
/// leaves the characters before it untouched.
pub assume_specification[ String::push ](s: &mut String, c: char)
    ensures
        final(s)@ == old(s)@.push(c),
;

/// `String::pop` takes the last character off the string and returns it; of
/// an empty string it returns `None` and leaves the string empty.
pub assume_specification[ String::pop ](s: &mut String) -> (last: Option<char>)
    ensures
        match last {
            Some(c) => old(s)@.len() > 0 && c == old(s)@.last() && final(s)@ == old(s)@.drop_last(),
            None => old(s)@.len() == 0 && final(s)@ == old(s)@,
        },
;

/// The classes of characters that the scanners collect into runs.
#[derive(Clone, Copy, Debug, PartialEq, Eq)]
pub enum CharClass {
    /// A blank or a line feed.
    Space,
    /// An ASCII decimal digit.
    Digit,
    /// A character that may continue a script identifier: letter, digit or `_`.
    Word,
    /// A character that may continue a style-sheet identifier: letter, digit, `-` or `_`.
    Name,
    /// A digit or a full stop, the alphabet of a style-sheet number.
    Numeric,
    /// Any character but the given one.
    Except(char),
}

pub open spec fn is_space(c: char) -> bool {
    c == ' ' || c == '\n'
}

pub open spec fn is_digit(c: char) -> bool {
    '0' <= c <= '9'
}

pub open spec fn is_letter(c: char) -> bool {
    ('a' <= c <= 'z') || ('A' <= c <= 'Z')
}

pub open spec fn is_quote(c: char) -> bool {
    c == '"' || c == '\''
}

/// Whether `c` belongs to `class`.
pub open spec fn in_class(class: CharClass, c: char) -> bool {
    match class {
        CharClass::Space => is_space(c),
        CharClass::Digit => is_digit(c),
        CharClass::Word => is_letter(c) || is_digit(c) || c == '_',
        CharClass::Name => is_letter(c) || is_digit(c) || c == '-' || c == '_',
        CharClass::Numeric => is_digit(c) || c == '.',
        CharClass::Except(x) => c != x,
    }
}

/// The length of the longest prefix of `s` made of characters of `class`.
pub open spec fn run_len(s: Seq<char>, class: CharClass) -> nat
    decreases s.len(),
{
    if s.len() > 0 && in_class(class, s[0]) {
        1 + run_len(s.drop_first(), class)
    } else {
        0
    }
}

/// A run is a prefix: it is never longer than the text, every character in it
/// is of the class, and the character after it, if any, is not.
pub proof fn lemma_run_len(s: Seq<char>, class: CharClass)
    ensures
        run_len(s, class) <= s.len(),
        forall|i: int| 0 <= i < run_len(s, class) ==> in_class(class, #[trigger] s[i]),
        run_len(s, class) < s.len() ==> !in_class(class, s[run_len(s, class) as int]),
    decreases s.len(),
{
    if s.len() > 0 && in_class(class, s[0]) {
        let t = s.drop_first();
        lemma_run_len(t, class);
        assert forall|i: int| 0 <= i < run_len(s, class) implies in_class(class, #[trigger] s[i]) by {
            if i > 0 {
                assert(s[i] == t[i - 1]);
            }
        }
        if run_len(s, class) < s.len() {
            assert(s[run_len(s, class) as int] == t[run_len(t, class) as int]);
        }
    }
}

/// A prefix of `n` characters of the class that is followed by the end of the
/// text or by a character outside the class is the run.
pub proof fn lemma_run_len_is(s: Seq<char>, class: CharClass, n: nat)
    requires
        n <= s.len(),
        forall|i: int| 0 <= i < n ==> in_class(class, #[trigger] s[i]),
        n < s.len() ==> !in_class(class, s[n as int]),
    ensures
        run_len(s, class) == n,
    decreases n,
{
    if n > 0 {
        let t = s.drop_first();
        assert forall|i: int| 0 <= i < n - 1 implies in_class(class, #[trigger] t[i]) by {
            assert(t[i] == s[i + 1]);
        }
        if n < s.len() {
            assert(t[n - 1] == s[n as int]);
        }
        lemma_run_len_is(t, class, (n - 1) as nat);
    }
}

/// A text of characters of one class, followed by nothing or by a character
/// outside the class, is the run at the front of the two together.
pub proof fn lemma_run_of_prefix(text: Seq<char>, rest: Seq<char>, class: CharClass)
    requires
        forall|i: int| 0 <= i < text.len() ==> in_class(class, #[trigger] text[i]),
        rest.len() > 0 ==> !in_class(class, rest[0]),
    ensures
        run_len(text + rest, class) == text.len(),
        (text + rest).take(text.len() as int) == text,
        (text + rest).skip(text.len() as int) == rest,
{
    let s = text + rest;
    assert forall|i: int| 0 <= i < text.len() implies in_class(class, #[trigger] s[i]) by {
        assert(s[i] == text[i]);
    }
    if text.len() < s.len() {
        assert(s[text.len() as int] == rest[0]);
    }
    lemma_run_len_is(s, class, text.len());
    assert(s.take(text.len() as int) =~= text);
    assert(s.skip(text.len() as int) =~= rest);
}

pub fn char_in_class(class: CharClass, c: char) -> (b: bool)
    ensures
        b == in_class(class, c),
{
    match class {
        CharClass::Space => c == ' ' || c == '\n',
        CharClass::Digit => '0' <= c && c <= '9',
        CharClass::Word => ('a' <= c && c <= 'z') || ('A' <= c && c <= 'Z') || ('0' <= c && c <= '9')
            || c == '_',
        CharClass::Name => ('a' <= c && c <= 'z') || ('A' <= c && c <= 'Z') || ('0' <= c && c <= '9')
            || c == '-' || c == '_',
        CharClass::Numeric => ('0' <= c && c <= '9') || c == '.',
        CharClass::Except(x) => c != x,
    }
}

/// The index at which the run of `class` that starts at `start` ends.
pub fn run_end(input: &Vec<char>, start: usize, class: CharClass) -> (end: usize)
    requires
        start <= input.len(),
    ensures
        end == start + run_len(input@.skip(start as int), class),
        start <= end <= input.len(),
{
    let mut end: usize = start;
    proof {
        lemma_run_len(input@.skip(start as int), class);
    }
    while end < input.len() && char_in_class(class, input[end])
        invariant
            start <= end <= input.len(),
            forall|i: int| 0 <= i < end - start ==> in_class(class, #[trigger] input@.skip(start as int)[i]),
        decreases input.len() - end,
    {
        end += 1;
    }
    proof {
        lemma_run_len_is(input@.skip(start as int), class, (end - start) as nat);
    }
    end
}

/// The characters of `s`, in order.
pub fn chars_of(s: &String) -> (v: Vec<char>)
    ensures
        v@ == s@,
{
    let mut v: Vec<char> = Vec::new();
    for c in it: s.as_str().chars()
        invariant
            it.seq() == s@,
            v@ == it.seq().take(it.index() as int),
    {
        v.push(c);
    }
    v
}

/// The string made of `input[from..to]`.
pub fn string_of(input: &Vec<char>, from: usize, to: usize) -> (s: String)
    requires
        from <= to <= input.len(),
    ensures
        s@ == input@.subrange(from as int, to as int),
{
    let mut s = String::new();
    let mut i: usize = from;
    while i < to
        invariant
            from <= i <= to <= input.len(),
            s@ == input@.subrange(from as int, i as int),
        decreases to - i,
    {
        s.push(input[i]);
        i += 1;
        assert(input@.subrange(from as int, i as int) == input@.subrange(from as int, i - 1).push(input@[i - 1]));
    }
    s
}

/// The value of a decimal digit.
pub open spec fn digit_value(c: char) -> nat
    recommends
        is_digit(c),
{
    (c as int - '0' as int) as nat
}

/// The digit that stands for `d`.
pub open spec fn digit_char(d: nat) -> char
    recommends
        d < 10,
{
    (d + '0' as nat) as char
}

/// The number that a string of decimal digits denotes; the empty string denotes zero.
pub open spec fn decimal_value(digits: Seq<char>) -> nat
    decreases digits.len(),
{
    if digits.len() == 0 {
        0
    } else {
        decimal_value(digits.drop_last()) * 10 + digit_value(digits.last())
    }
}

/// The decimal numeral of `n`, without leading zeros.
pub open spec fn decimal_text(n: nat) -> Seq<char>
    decreases n,
{
    if n < 10 {
        seq![digit_char(n)]
    } else {
        decimal_text(n / 10).push(digit_char(n % 10))
    }
}

/// A numeral is a non-empty string of digits, and reading it gives the number back.
pub proof fn lemma_decimal_text(n: nat)
    ensures
        decimal_text(n).len() > 0,
        forall|i: int| 0 <= i < decimal_text(n).len() ==> is_digit(#[trigger] decimal_text(n)[i]),
        decimal_value(decimal_text(n)) == n,
    decreases n,
{
    if n < 10 {
        let t = decimal_text(n);
        assert(t.drop_last() =~= Seq::<char>::empty());
        assert(decimal_value(t.drop_last()) == 0);
    } else {
        lemma_decimal_text(n / 10);
        let t = decimal_text(n);
        assert(t.drop_last() =~= decimal_text(n / 10));
    }
}

/// A longer string of digits denotes at least what each of its prefixes denotes.
pub proof fn lemma_decimal_value_prefix(digits: Seq<char>, k: int)
    requires
        0 <= k <= digits.len(),
    ensures
        decimal_value(digits.take(k)) <= decimal_value(digits),
    decreases digits.len(),
{
    if k < digits.len() {
        let shorter = digits.drop_last();
        lemma_decimal_value_prefix(shorter, k);
        assert(shorter.take(k) =~= digits.take(k));
    } else {
        assert(digits.take(k) =~= digits);
    }
}

/// The decimal numeral of `n`.
pub fn u64_to_string(n: u64) -> (s: String)
    ensures
        s@ == decimal_text(n as nat),
{
    // The digits come out least significant first; `low` holds them in that
    // order and the string is then written from its end.
    let mut low: Vec<char> = Vec::new();
    let mut rest: u64 = n;
    let ghost mut tails: Seq<char> = Seq::empty();
    while rest >= 10
        invariant
            low@.len() == tails.len(),
            forall|i: int| 0 <= i < low@.len() ==> low@[i] == tails[tails.len() - 1 - i],
            decimal_text(n as nat) == decimal_text(rest as nat) + tails,
        decreases rest,
    {
        let d: u8 = (rest % 10) as u8;
        let c: char = (d + 48u8) as char;
        assert(c == digit_char((rest % 10) as nat));
        proof {
            let old_tails = tails;
            tails = seq![c] + old_tails;
            assert(decimal_text(rest as nat) == decimal_text((rest / 10) as nat).push(c));
            assert(decimal_text((rest / 10) as nat).push(c) + old_tails =~= decimal_text(
                (rest / 10) as nat,
            ) + tails);
        }
        low.push(c);
        rest = rest / 10;
    }
    let d: u8 = rest as u8;
    let first: char = (d + 48u8) as char;
    assert(first == digit_char(rest as nat));
    let mut s = String::new();
    s.push(first);
    let mut i: usize = low.len();
    assert(s@ + tails.take(0) =~= seq![first]);
    while i > 0
        invariant
            i <= low@.len(),
            low@.len() == tails.len(),
            forall|j: int| 0 <= j < low@.len() ==> low@[j] == tails[tails.len() - 1 - j],
            s@ == seq![first] + tails.take(tails.len() - i),
        decreases i,
    {
        i -= 1;
        s.push(low[i]);
        assert(tails.take(tails.len() - i) =~= tails.take(tails.len() - i - 1).push(low@[i as int]));
    }
    assert(tails.take(tails.len() as int) =~= tails);
    s
}


/// The quote in which the text `body` is written: the double quote, unless
/// `body` holds one.
pub open spec fn quote_for(body: Seq<char>) -> char {
    if body.contains('"') {
        '\''
    } else {
        '"'
    }
}

/// `body` between two quotes.
pub open spec fn quoted(body: Seq<char>) -> Seq<char> {
    seq![quote_for(body)] + body + seq![quote_for(body)]
}

/// In a text that does not hold both kinds of quote, written between quotes
/// and followed by anything, the run of characters after the opening quote
/// that are not that quote is the text, and the closing quote follows it.
pub proof fn lemma_quoted(body: Seq<char>, rest: Seq<char>)
    requires
        !(body.contains('"') && body.contains('\'')),
    ensures
        ({
            let s = quoted(body) + rest;
            &&& s.len() == body.len() + 2 + rest.len()
            &&& s[0] == quote_for(body)
            &&& is_quote(s[0])
            &&& run_len(s.drop_first(), CharClass::Except(s[0])) == body.len()
            &&& s.subrange(1, 1 + body.len() as int) == body
        }),
{
    let q = quote_for(body);
    let s = quoted(body) + rest;
    let after = seq![q] + rest;
    assert(s[0] == q);
    assert(s.drop_first() =~= body + after);
    assert forall|i: int| 0 <= i < body.len() implies in_class(
        CharClass::Except(q),
        #[trigger] body[i],
    ) by {
        if body[i] == q {
            assert(body.contains(q));
        }
    }
    lemma_run_of_prefix(body, after, CharClass::Except(q));
    assert(s.subrange(1, 1 + body.len() as int) =~= body);
}

/// Whether `c` occurs in `text`.
pub fn holds(text: &Vec<char>, c: char) -> (found: bool)
    ensures
        found == text@.contains(c),
{
    let mut i: usize = 0;
    while i < text.len()
        invariant
            i <= text@.len(),
            forall|j: int| 0 <= j < i ==> text@[j] != c,
        decreases text.len() - i,
    {
        if text[i] == c {
            return true;
        }
        i += 1;
    }
    false
}

/// `body` between two quotes.
pub fn quote(body: &String) -> (text: String)
    ensures
        text@ == quoted(body@),
{
    let chars = chars_of(body);
    let quote = if holds(&chars, '"') {
        '\''
    } else {
        '"'
    };
    let mut text = String::new();
    text.push(quote);
    text.append(body.as_str());
    text.push(quote);
    assert(text@ =~= seq![quote] + body@ + seq![quote]);
    text
}

} // verus!
