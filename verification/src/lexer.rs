//! Lexical analysis: raw source text to a flat sequence of classified tokens.
//!
//! The scanner advances a single forward cursor with one-character lookahead
//! and never rewinds.  Every call to [`Lexer::next_token`] either returns a
//! classified token or an invalid-token marker carrying the offending text;
//! the only failure (`LexerError`) is a digit run whose value does not fit in
//! a 64-bit signed integer.  What each call returns is pinned down by
//! [`spec_next_token`].

use vstd::prelude::*;
use vstd::string::*;

use crate::strutil::push_char;

verus! {

/// Classification of one lexical unit.  `LiteralNumber` carries the parsed
/// integer value of the digit run.
#[derive(PartialEq, Eq, Structural, Debug, Clone, Copy)]
pub enum TokenKind {
    LiteralNumber(i64),
    LiteralString,
    Plus,
    Minus,
    Asterisk,
    Slash,
    Equals,
    EqualsEquals,
    NotEquals,
    GreaterThan,
    LessThan,
    GreaterThanEquals,
    LessThanEquals,
    Let,
    If,
    Else,
    While,
    OpenCurly,
    CloseCurly,
    SemiColon,
    Print,
    Input,
    Invalid,
    Whitespace,
    Identifier,
    Eof,
    TokenizationError,
}

/// The raw matched text of a token.
#[derive(Debug, Clone)]
pub struct TokenData {
    pub raw: String,
}

/// A classified minimal lexical unit plus its raw source text.
#[derive(Debug, Clone)]
pub struct Token {
    pub kind: TokenKind,
    pub data: TokenData,
}

/// The mathematical model of a token: its kind and its raw text.
pub struct SpecToken {
    pub kind: TokenKind,
    pub raw: Seq<char>,
}

impl View for Token {
    type V = SpecToken;

    open spec fn view(&self) -> SpecToken {
        SpecToken { kind: self.kind, raw: self.data.raw@ }
    }
}

/// Scanning failed: a digit run overflowed the 64-bit integer range.
#[derive(Debug, Clone)]
pub struct LexerError;

pub type LexerResult<T> = Result<T, LexerError>;

pub open spec fn is_ws_char(c: char) -> bool {
    c == ' ' || c == '\t' || c == '\r' || c == '\n'
}

pub open spec fn is_digit_char(c: char) -> bool {
    48 <= c as u32 && c as u32 <= 57
}

pub open spec fn is_alpha_char(c: char) -> bool {
    (65 <= c as u32 && c as u32 <= 90) || (97 <= c as u32 && c as u32 <= 122)
}

pub open spec fn is_alnum_char(c: char) -> bool {
    is_alpha_char(c) || is_digit_char(c)
}

/// A character that ends a string literal scan: the closing quote or a line
/// break (multi-line string literals are disallowed by construction).
pub open spec fn is_string_stop_char(c: char) -> bool {
    c == '"' || c == '\n' || c == '\r'
}

/// First index at or after `i` that does not continue a digit run.
pub open spec fn digit_run_end(text: Seq<char>, i: int) -> int
    decreases text.len() - i,
{
    if i < text.len() && is_digit_char(text[i]) {
        digit_run_end(text, i + 1)
    } else {
        i
    }
}

/// First index at or after `i` that does not continue an identifier run.
pub open spec fn alnum_run_end(text: Seq<char>, i: int) -> int
    decreases text.len() - i,
{
    if i < text.len() && is_alnum_char(text[i]) {
        alnum_run_end(text, i + 1)
    } else {
        i
    }
}

/// First index at or after `i` holding a character that stops a string
/// literal scan, or the end of the text.
pub open spec fn string_run_end(text: Seq<char>, i: int) -> int
    decreases text.len() - i,
{
    if i < text.len() && !is_string_stop_char(text[i]) {
        string_run_end(text, i + 1)
    } else {
        i
    }
}

pub open spec fn digit_char_value(c: char) -> nat {
    if is_digit_char(c) {
        (c as u32 - 48) as nat
    } else {
        0
    }
}

/// The decimal value of a digit run.
pub open spec fn digits_value(s: Seq<char>) -> nat
    decreases s.len(),
{
    if s.len() == 0 {
        0
    } else {
        digits_value(s.drop_last()) * 10 + digit_char_value(s.last())
    }
}

/// The fixed keyword table: a letter-initial run is a keyword exactly on a
/// case-sensitive full match, and an identifier otherwise.
pub open spec fn keyword_kind(raw: Seq<char>) -> TokenKind {
    if raw == "let"@ {
        TokenKind::Let
    } else if raw == "if"@ {
        TokenKind::If
    } else if raw == "else"@ {
        TokenKind::Else
    } else if raw == "while"@ {
        TokenKind::While
    } else if raw == "print"@ {
        TokenKind::Print
    } else if raw == "input"@ {
        TokenKind::Input
    } else {
        TokenKind::Identifier
    }
}

/// One step of the scanner: either a token with its raw text and the cursor
/// position after it, or the overflow failure with the cursor position it
/// leaves behind.
pub enum LexStep {
    Tok { kind: TokenKind, raw: Seq<char>, end: int },
    Fail { end: int },
}

/// What scanning one token from position `pos` of `text` yields.
///
/// This is the full contract of [`Lexer::next_token`]: digit runs become
/// number literals (or the overflow failure), letter-initial runs become
/// keywords or identifiers, `>` `<` `=` `!` use one-character lookahead for
/// a trailing `=`, a bare `!` is invalid, string literals run to a closing
/// quote and are invalid when a line break or the end of input comes first,
/// each whitespace character is its own token, and any other character is an
/// invalid token holding that one character.
pub open spec fn spec_next_token(text: Seq<char>, pos: int) -> LexStep {
    if pos >= text.len() || pos < 0 {
        LexStep::Tok { kind: TokenKind::Eof, raw: seq!['\0'], end: pos }
    } else {
        let c = text[pos];
        if is_digit_char(c) {
            let end = digit_run_end(text, pos + 1);
            let raw = text.subrange(pos, end);
            if digits_value(raw) <= i64::MAX {
                LexStep::Tok { kind: TokenKind::LiteralNumber(digits_value(raw) as i64), raw, end }
            } else {
                LexStep::Fail { end: end - 1 }
            }
        } else if is_alpha_char(c) {
            let end = alnum_run_end(text, pos + 1);
            let raw = text.subrange(pos, end);
            LexStep::Tok { kind: keyword_kind(raw), raw, end }
        } else if is_ws_char(c) {
            LexStep::Tok { kind: TokenKind::Whitespace, raw: seq![c], end: pos + 1 }
        } else if c == '+' {
            LexStep::Tok { kind: TokenKind::Plus, raw: seq![c], end: pos + 1 }
        } else if c == '-' {
            LexStep::Tok { kind: TokenKind::Minus, raw: seq![c], end: pos + 1 }
        } else if c == '*' {
            LexStep::Tok { kind: TokenKind::Asterisk, raw: seq![c], end: pos + 1 }
        } else if c == '/' {
            LexStep::Tok { kind: TokenKind::Slash, raw: seq![c], end: pos + 1 }
        } else if c == '{' {
            LexStep::Tok { kind: TokenKind::OpenCurly, raw: seq![c], end: pos + 1 }
        } else if c == '}' {
            LexStep::Tok { kind: TokenKind::CloseCurly, raw: seq![c], end: pos + 1 }
        } else if c == ';' {
            LexStep::Tok { kind: TokenKind::SemiColon, raw: seq![c], end: pos + 1 }
        } else if c == '<' {
            if pos + 1 < text.len() && text[pos + 1] == '=' {
                LexStep::Tok { kind: TokenKind::LessThanEquals, raw: seq![c, '='], end: pos + 2 }
            } else {
                LexStep::Tok { kind: TokenKind::LessThan, raw: seq![c], end: pos + 1 }
            }
        } else if c == '>' {
            if pos + 1 < text.len() && text[pos + 1] == '=' {
                LexStep::Tok {
                    kind: TokenKind::GreaterThanEquals,
                    raw: seq![c, '='],
                    end: pos + 2,
                }
            } else {
                LexStep::Tok { kind: TokenKind::GreaterThan, raw: seq![c], end: pos + 1 }
            }
        } else if c == '=' {
            if pos + 1 < text.len() && text[pos + 1] == '=' {
                LexStep::Tok { kind: TokenKind::EqualsEquals, raw: seq![c, '='], end: pos + 2 }
            } else {
                LexStep::Tok { kind: TokenKind::Equals, raw: seq![c], end: pos + 1 }
            }
        } else if c == '!' {
            if pos + 1 < text.len() && text[pos + 1] == '=' {
                LexStep::Tok { kind: TokenKind::NotEquals, raw: seq![c, '='], end: pos + 2 }
            } else {
                LexStep::Tok { kind: TokenKind::Invalid, raw: seq![c], end: pos + 1 }
            }
        } else if c == '"' {
            let stop = string_run_end(text, pos + 1);
            if stop >= text.len() {
                LexStep::Tok {
                    kind: TokenKind::Invalid,
                    raw: text.subrange(pos, text.len() as int),
                    end: text.len() as int,
                }
            } else if text[stop] == '"' {
                LexStep::Tok {
                    kind: TokenKind::LiteralString,
                    raw: text.subrange(pos, stop + 1),
                    end: stop + 1,
                }
            } else {
                LexStep::Tok {
                    kind: TokenKind::Invalid,
                    raw: text.subrange(pos, stop + 1),
                    end: stop + 1,
                }
            }
        } else {
            LexStep::Tok { kind: TokenKind::Invalid, raw: seq![c], end: pos + 1 }
        }
    }
}

fn is_digit(c: char) -> (r: bool)
    ensures
        r == is_digit_char(c),
{
    48 <= c as u32 && c as u32 <= 57
}

fn is_alpha(c: char) -> (r: bool)
    ensures
        r == is_alpha_char(c),
{
    (65 <= c as u32 && c as u32 <= 90) || (97 <= c as u32 && c as u32 <= 122)
}

fn is_alnum(c: char) -> (r: bool)
    ensures
        r == is_alnum_char(c),
{
    is_alpha(c) || is_digit(c)
}

fn is_string_stop(c: char) -> (r: bool)
    ensures
        r == is_string_stop_char(c),
{
    c == '"' || c == '\n' || c == '\r'
}

/// The scanner: the full source text as characters and a forward cursor.
pub struct Lexer {
    input: Vec<char>,
    current_pos: usize,
}

impl Lexer {
    /// The source text being scanned.
    pub closed spec fn text(&self) -> Seq<char> {
        self.input@
    }

    /// The cursor: the position the next scan starts from.
    pub closed spec fn pos(&self) -> int {
        self.current_pos as int
    }

    /// The cursor never leaves the text.
    pub open spec fn wf(&self) -> bool {
        0 <= self.pos() <= self.text().len()
    }

    /// Builds a scanner over `input`, with the cursor at the start.
    pub fn from(input: &str) -> (lexer: Lexer)
        ensures
            lexer.wf(),
            lexer.text() == input@,
            lexer.pos() == 0,
    {
        let n = input.unicode_len();
        let mut chars: Vec<char> = Vec::new();
        let mut i: usize = 0;
        while i < n
            invariant
                i <= n,
                n == input@.len(),
                chars@ == input@.subrange(0, i as int),
            decreases n - i,
        {
            let c = input.get_char(i);
            proof {
                assert(input@.subrange(0, i as int).push(input@[i as int]) =~= input@.subrange(
                    0,
                    i + 1,
                ));
            }
            chars.push(c);
            i += 1;
        }
        proof {
            assert(chars@ =~= input@);
        }
        Lexer { input: chars, current_pos: 0 }
    }

    fn is_done(&self) -> (r: bool)
        ensures
            r == (self.pos() >= self.text().len()),
    {
        self.current_pos >= self.input.len()
    }

    fn current_char(&self) -> (r: Option<char>)
        requires
            self.wf(),
        ensures
            self.pos() < self.text().len() ==> r == Some(self.text()[self.pos()]),
            self.pos() >= self.text().len() ==> r is None,
    {
        if self.is_done() {
            return None;
        }
        Some(self.input[self.current_pos])
    }

    fn peek_next_char(&self) -> (r: Option<char>)
        requires
            self.wf(),
        ensures
            self.pos() + 1 < self.text().len() ==> r == Some(self.text()[self.pos() + 1]),
            self.pos() + 1 >= self.text().len() ==> r is None,
    {
        if self.input.len() - self.current_pos > 1 {
            Some(self.input[self.current_pos + 1])
        } else {
            None
        }
    }

    /// Copies `self.text()[from..to]` into a fresh string.
    fn collect_range(&self, from: usize, to: usize) -> (s: String)
        requires
            from <= to <= self.text().len(),
        ensures
            s@ == self.text().subrange(from as int, to as int),
    {
        let mut s = String::new();
        let mut k = from;
        while k < to
            invariant
                from <= k <= to <= self.text().len(),
                self.text() == self.input@,
                s@ == self.text().subrange(from as int, k as int),
            decreases to - k,
        {
            proof {
                assert(self.text().subrange(from as int, k as int).push(self.text()[k as int])
                    =~= self.text().subrange(from as int, k + 1));
            }
            push_char(&mut s, self.input[k]);
            k += 1;
        }
        s
    }

    /// Scans one token and leaves the cursor after it, as
    /// [`spec_next_token`] describes.
    pub fn next_token(&mut self) -> (r: LexerResult<Token>)
        requires
            old(self).wf(),
        ensures
            final(self).wf(),
            final(self).text() == old(self).text(),
            match spec_next_token(old(self).text(), old(self).pos()) {
                LexStep::Tok { kind, raw, end } => r matches Ok(t) && t@.kind == kind && t@.raw
                    == raw && final(self).pos() == end,
                LexStep::Fail { end } => r matches Err(_) && final(self).pos() == end,
            },
    {
        match self.current_char() {
            None => {
                let mut raw = String::new();
                push_char(&mut raw, '\0');
                Ok(Token { kind: TokenKind::Eof, data: TokenData { raw } })
            },
            Some(c) => {
                if is_digit(c) {
                    self.lex_number()
                } else if is_alpha(c) {
                    self.lex_word()
                } else if c == ' ' || c == '\t' || c == '\r' || c == '\n' {
                    Ok(self.take_single(TokenKind::Whitespace))
                } else if c == '+' {
                    Ok(self.take_single(TokenKind::Plus))
                } else if c == '-' {
                    Ok(self.take_single(TokenKind::Minus))
                } else if c == '*' {
                    Ok(self.take_single(TokenKind::Asterisk))
                } else if c == '/' {
                    Ok(self.take_single(TokenKind::Slash))
                } else if c == '{' {
                    Ok(self.take_single(TokenKind::OpenCurly))
                } else if c == '}' {
                    Ok(self.take_single(TokenKind::CloseCurly))
                } else if c == ';' {
                    Ok(self.take_single(TokenKind::SemiColon))
                } else if c == '<' {
                    Ok(self.take_lookahead(TokenKind::LessThan, TokenKind::LessThanEquals))
                } else if c == '>' {
                    Ok(self.take_lookahead(TokenKind::GreaterThan, TokenKind::GreaterThanEquals))
                } else if c == '=' {
                    Ok(self.take_lookahead(TokenKind::Equals, TokenKind::EqualsEquals))
                } else if c == '!' {
                    Ok(self.take_lookahead(TokenKind::Invalid, TokenKind::NotEquals))
                } else if c == '"' {
                    Ok(self.lex_string())
                } else {
                    Ok(self.take_single(TokenKind::Invalid))
                }
            },
        }
    }

    /// Scans one token like [`Lexer::next_token`], but maps the results the
    /// way iteration over the scanner does: the end-of-input token becomes
    /// `None`, and a scan failure becomes a `TokenizationError` token with
    /// empty raw text.
    pub fn next(&mut self) -> (r: Option<Token>)
        requires
            old(self).wf(),
        ensures
            final(self).wf(),
            final(self).text() == old(self).text(),
            match spec_next_token(old(self).text(), old(self).pos()) {
                LexStep::Tok { kind, raw, end } => final(self).pos() == end && if kind
                    == TokenKind::Eof {
                    r is None
                } else {
                    r matches Some(t) && t@.kind == kind && t@.raw == raw
                },
                LexStep::Fail { end } => final(self).pos() == end && (r matches Some(t) && t@.kind
                    == TokenKind::TokenizationError && t@.raw == Seq::<char>::empty()),
            },
    {
        match self.next_token() {
            Ok(t) => {
                if t.kind == TokenKind::Eof {
                    None
                } else {
                    Some(t)
                }
            },
            Err(_) => Some(
                Token { kind: TokenKind::TokenizationError, data: TokenData { raw: String::new() } },
            ),
        }
    }

    /// Takes the single character at the cursor as a token of `kind`.
    fn take_single(&mut self, kind: TokenKind) -> (t: Token)
        requires
            old(self).wf(),
            old(self).pos() < old(self).text().len(),
        ensures
            final(self).wf(),
            final(self).text() == old(self).text(),
            final(self).pos() == old(self).pos() + 1,
            t@.kind == kind,
            t@.raw == seq![old(self).text()[old(self).pos()]],
    {
        proof {
            assert(self.input@.len() == self.input.len());
        }
        let c = self.input[self.current_pos];
        let mut raw = String::new();
        push_char(&mut raw, c);
        self.current_pos = self.current_pos + 1;
        Token { kind, data: TokenData { raw } }
    }

    /// Decides between the one- and two-character operator forms by looking
    /// one character ahead for a trailing `=`.
    fn take_lookahead(&mut self, single: TokenKind, double: TokenKind) -> (t: Token)
        requires
            old(self).wf(),
            old(self).pos() < old(self).text().len(),
        ensures
            final(self).wf(),
            final(self).text() == old(self).text(),
            if old(self).pos() + 1 < old(self).text().len() && old(self).text()[old(self).pos()
                + 1] == '=' {
                t@.kind == double && t@.raw == seq![
                    old(self).text()[old(self).pos()],
                    '=',
                ] && final(self).pos() == old(self).pos() + 2
            } else {
                t@.kind == single && t@.raw == seq![old(self).text()[old(self).pos()]]
                    && final(self).pos() == old(self).pos() + 1
            },
    {
        proof {
            assert(self.input@.len() == self.input.len());
        }
        let c = self.input[self.current_pos];
        match self.peek_next_char() {
            Some(second) if second == '=' => {
                let mut raw = String::new();
                push_char(&mut raw, c);
                push_char(&mut raw, '=');
                self.current_pos = self.current_pos + 2;
                Token { kind: double, data: TokenData { raw } }
            },
            _ => {
                let mut raw = String::new();
                push_char(&mut raw, c);
                self.current_pos = self.current_pos + 1;
                Token { kind: single, data: TokenData { raw } }
            },
        }
    }

    /// Scans a digit run as a number literal, or fails on 64-bit overflow.
    fn lex_number(&mut self) -> (r: LexerResult<Token>)
        requires
            old(self).wf(),
            old(self).pos() < old(self).text().len(),
            is_digit_char(old(self).text()[old(self).pos()]),
        ensures
            final(self).wf(),
            final(self).text() == old(self).text(),
            match spec_next_token(old(self).text(), old(self).pos()) {
                LexStep::Tok { kind, raw, end } => r matches Ok(t) && t@.kind == kind && t@.raw
                    == raw && final(self).pos() == end,
                LexStep::Fail { end } => r matches Err(_) && final(self).pos() == end,
            },
    {
        let ghost text = self.input@;
        let len = self.input.len();
        let start = self.current_pos;
        let mut end = start + 1;
        while end < len && is_digit(self.input[end])
            invariant
                start + 1 <= end <= len,
                len == self.input@.len(),
                self.input@ == text,
                digit_run_end(text, start + 1) == digit_run_end(text, end as int),
                forall|j: int| start + 1 <= j < end ==> is_digit_char(text[j]),
            decreases len - end,
        {
            end += 1;
        }
        proof {
            assert(digit_run_end(text, end as int) == end);
            assert(forall|j: int| start <= j < end ==> is_digit_char(text[j]));
        }
        match self.parse_digits(start, end) {
            Some(value) => {
                let raw = self.collect_range(start, end);
                self.current_pos = end;
                Ok(Token { kind: TokenKind::LiteralNumber(value), data: TokenData { raw } })
            },
            None => {
                self.current_pos = end - 1;
                Err(LexerError)
            },
        }
    }

    /// Reads the decimal value of `self.text()[start..end]`, or `None` when
    /// it exceeds `i64::MAX`.
    fn parse_digits(&self, start: usize, end: usize) -> (r: Option<i64>)
        requires
            start < end <= self.text().len(),
            forall|j: int| start <= j < end ==> is_digit_char(self.text()[j]),
        ensures
            match r {
                Some(v) => digits_value(self.text().subrange(start as int, end as int)) <= i64::MAX
                    && v == digits_value(self.text().subrange(start as int, end as int)),
                None => digits_value(self.text().subrange(start as int, end as int)) > i64::MAX,
            },
    {
        let ghost text = self.text();
        let mut val: u64 = 0;
        let mut i = start;
        while i < end
            invariant
                start <= i <= end <= text.len(),
                text == self.text(),
                forall|j: int| start <= j < end ==> is_digit_char(text[j]),
                val == digits_value(text.subrange(start as int, i as int)),
                val <= i64::MAX as u64,
            decreases end - i,
        {
            let d: u64 = (self.input[i] as u32 - 48) as u64;
            proof {
                assert(text.subrange(start as int, i + 1).drop_last() =~= text.subrange(
                    start as int,
                    i as int,
                ));
                assert(digits_value(text.subrange(start as int, i + 1)) == val * 10 + d);
            }
            if val > (i64::MAX as u64 - d) / 10 {
                proof {
                    assert(val * 10 + d > i64::MAX) by (nonlinear_arith)
                        requires
                            val > (i64::MAX as u64 - d) / 10,
                            d <= 9,
                    ;
                    lemma_digits_value_extend(text, start as int, i + 1, end as int);
                }
                return None;
            }
            proof {
                assert(val * 10 + d <= i64::MAX) by (nonlinear_arith)
                    requires
                        val <= (i64::MAX as u64 - d) / 10,
                        d <= 9,
                ;
            }
            val = val * 10 + d;
            i += 1;
        }
        Some(val as i64)
    }

    /// Scans a letter-initial alphanumeric run and classifies it against the
    /// keyword table.
    fn lex_word(&mut self) -> (r: LexerResult<Token>)
        requires
            old(self).wf(),
            old(self).pos() < old(self).text().len(),
            !is_digit_char(old(self).text()[old(self).pos()]),
            is_alpha_char(old(self).text()[old(self).pos()]),
        ensures
            final(self).wf(),
            final(self).text() == old(self).text(),
            match spec_next_token(old(self).text(), old(self).pos()) {
                LexStep::Tok { kind, raw, end } => r matches Ok(t) && t@.kind == kind && t@.raw
                    == raw && final(self).pos() == end,
                LexStep::Fail { end } => r matches Err(_) && final(self).pos() == end,
            },
    {
        let ghost text = self.input@;
        let len = self.input.len();
        let start = self.current_pos;
        let mut end = start + 1;
        while end < len && is_alnum(self.input[end])
            invariant
                start + 1 <= end <= len,
                len == self.input@.len(),
                self.input@ == text,
                alnum_run_end(text, start + 1) == alnum_run_end(text, end as int),
            decreases len - end,
        {
            end += 1;
        }
        proof {
            assert(alnum_run_end(text, end as int) == end);
        }
        let raw = self.collect_range(start, end);
        let kind = if is_keyword(&raw, "let") {
            TokenKind::Let
        } else if is_keyword(&raw, "if") {
            TokenKind::If
        } else if is_keyword(&raw, "else") {
            TokenKind::Else
        } else if is_keyword(&raw, "while") {
            TokenKind::While
        } else if is_keyword(&raw, "print") {
            TokenKind::Print
        } else if is_keyword(&raw, "input") {
            TokenKind::Input
        } else {
            TokenKind::Identifier
        };
        self.current_pos = end;
        Ok(Token { kind, data: TokenData { raw } })
    }

    /// Scans a string literal from the opening quote to the closing quote,
    /// or to the line break or end of input that makes it invalid.
    fn lex_string(&mut self) -> (t: Token)
        requires
            old(self).wf(),
            old(self).pos() < old(self).text().len(),
            old(self).text()[old(self).pos()] == '"',
        ensures
            final(self).wf(),
            final(self).text() == old(self).text(),
            match spec_next_token(old(self).text(), old(self).pos()) {
                LexStep::Tok { kind, raw, end } => t@.kind == kind && t@.raw == raw
                    && final(self).pos() == end,
                LexStep::Fail { end } => false,
            },
    {
        let ghost text = self.input@;
        let len = self.input.len();
        let start = self.current_pos;
        let mut stop = start + 1;
        while stop < len && !is_string_stop(self.input[stop])
            invariant
                start + 1 <= stop <= len,
                len == self.input@.len(),
                self.input@ == text,
                string_run_end(text, start + 1) == string_run_end(text, stop as int),
            decreases len - stop,
        {
            stop += 1;
        }
        proof {
            assert(string_run_end(text, stop as int) == stop);
        }
        if stop == len {
            let raw = self.collect_range(start, len);
            self.current_pos = len;
            Token { kind: TokenKind::Invalid, data: TokenData { raw } }
        } else if self.input[stop] == '"' {
            let raw = self.collect_range(start, stop + 1);
            self.current_pos = stop + 1;
            Token { kind: TokenKind::LiteralString, data: TokenData { raw } }
        } else {
            let raw = self.collect_range(start, stop + 1);
            self.current_pos = stop + 1;
            Token { kind: TokenKind::Invalid, data: TokenData { raw } }
        }
    }
}

/// Case-sensitive full match of a scanned run against one keyword.
fn is_keyword(raw: &String, kw: &str) -> (r: bool)
    ensures
        r == (raw@ == kw@),
{
    let kws = String::from_str(kw);
    *raw == kws
}

/// Appending digits to a run never shrinks its value.
proof fn lemma_digits_value_extend(text: Seq<char>, start: int, i: int, j: int)
    requires
        0 <= start <= i <= j <= text.len(),
    ensures
        digits_value(text.subrange(start, i)) <= digits_value(text.subrange(start, j)),
    decreases j - i,
{
    if i < j {
        lemma_digits_value_extend(text, start, i + 1, j);
        assert(text.subrange(start, i + 1).drop_last() =~= text.subrange(start, i));
        assert(digits_value(text.subrange(start, i + 1)) == digits_value(
            text.subrange(start, i),
        ) * 10 + digit_char_value(text.subrange(start, i + 1).last()));
    }
}

/// The models of a token sequence, in order.
pub open spec fn spec_tokens_view(q: Seq<Token>) -> Seq<SpecToken> {
    Seq::new(q.len(), |i: int| q[i]@)
}

/// `p`, but never below `lo`: the stream recursion uses it so that every
/// step visibly moves forward ([`lemma_next_token_progress`] shows the
/// clamp never actually fires).
pub open spec fn lex_at_least(p: int, lo: int) -> int {
    if p < lo {
        lo
    } else {
        p
    }
}

/// How many characters remain at `pos`: the termination measure of the
/// stream recursion.
pub open spec fn lex_rem(text: Seq<char>, pos: int) -> int {
    if pos < text.len() {
        text.len() - pos
    } else {
        0
    }
}

/// The whole token sequence scanned from position `pos` on: every token up
/// to (not including) the end-of-input sentinel, with a scan failure
/// surfacing as a `TokenizationError` token with empty raw text.
pub open spec fn spec_token_stream(text: Seq<char>, pos: int) -> Seq<SpecToken>
    decreases lex_rem(text, pos),
{
    match spec_next_token(text, pos) {
        LexStep::Tok { kind, raw, end } => {
            if kind == TokenKind::Eof {
                Seq::empty()
            } else {
                seq![SpecToken { kind, raw }] + spec_token_stream(
                    text,
                    lex_at_least(end, pos + 1),
                )
            }
        },
        LexStep::Fail { end } => seq![
            SpecToken { kind: TokenKind::TokenizationError, raw: Seq::empty() },
        ] + spec_token_stream(text, lex_at_least(end, pos + 1)),
    }
}

/// A digit run reaches no further than the end of the text and never ends
/// before it starts.
proof fn lemma_digit_run_end_bounds(text: Seq<char>, i: int)
    ensures
        i <= digit_run_end(text, i),
        i <= text.len() ==> digit_run_end(text, i) <= text.len(),
    decreases text.len() - i,
{
    if i < text.len() && is_digit_char(text[i]) {
        lemma_digit_run_end_bounds(text, i + 1);
    }
}

/// An identifier run reaches no further than the end of the text and never
/// ends before it starts.
proof fn lemma_alnum_run_end_bounds(text: Seq<char>, i: int)
    ensures
        i <= alnum_run_end(text, i),
        i <= text.len() ==> alnum_run_end(text, i) <= text.len(),
    decreases text.len() - i,
{
    if i < text.len() && is_alnum_char(text[i]) {
        lemma_alnum_run_end_bounds(text, i + 1);
    }
}

/// A string literal scan reaches no further than the end of the text and
/// never ends before it starts.
proof fn lemma_string_run_end_bounds(text: Seq<char>, i: int)
    ensures
        i <= string_run_end(text, i),
        i <= text.len() ==> string_run_end(text, i) <= text.len(),
    decreases text.len() - i,
{
    if i < text.len() && !is_string_stop_char(text[i]) {
        lemma_string_run_end_bounds(text, i + 1);
    }
}

/// Every scan step but the end-of-input sentinel consumes at least one
/// character and stays inside the text; a number-overflow failure does
/// too, because a single digit never overflows.
pub proof fn lemma_next_token_progress(text: Seq<char>, pos: int)
    requires
        0 <= pos,
    ensures
        match spec_next_token(text, pos) {
            LexStep::Tok { kind, raw, end } => if kind == TokenKind::Eof {
                end == pos
            } else {
                pos < end <= text.len()
            },
            LexStep::Fail { end } => pos < end <= text.len(),
        },
{
    if pos < text.len() {
        let c = text[pos];
        if is_digit_char(c) {
            lemma_digit_run_end_bounds(text, pos + 1);
            let run_end = digit_run_end(text, pos + 1);
            let raw = text.subrange(pos, run_end);
            if digits_value(raw) > i64::MAX && run_end == pos + 1 {
                assert(raw =~= seq![c]);
                assert(raw.drop_last() =~= Seq::<char>::empty());
                assert(raw.last() == c);
                assert(digits_value(raw.drop_last()) == 0);
                assert(digits_value(raw) == digit_char_value(c));
            }
        } else if is_alpha_char(c) {
            lemma_alnum_run_end_bounds(text, pos + 1);
        } else if c == '"' {
            lemma_string_run_end_bounds(text, pos + 1);
        }
    }
}

/// Scans the whole source text into its flat token sequence: the two core
/// entry points are this one and [`crate::parser::Parser::parse`] followed
/// by [`crate::emitter::CEmitter::emit`].
pub fn tokenize(input: &str) -> (tokens: Vec<Token>)
    ensures
        spec_tokens_view(tokens@) == spec_token_stream(input@, 0),
{
    let mut lexer = Lexer::from(input);
    let mut tokens: Vec<Token> = Vec::new();
    let mut done = false;
    while !done
        invariant
            lexer.wf(),
            lexer.text() == input@,
            spec_token_stream(input@, 0) == spec_tokens_view(tokens@) + spec_token_stream(
                input@,
                lexer.pos(),
            ),
            done ==> spec_token_stream(input@, lexer.pos()) == Seq::<SpecToken>::empty(),
        decreases (if done {
            0int
        } else {
            input@.len() - lexer.pos() + 1
        }),
    {
        let ghost p0 = lexer.pos();
        let ghost pre = tokens@;
        proof {
            lemma_next_token_progress(input@, p0);
        }
        match lexer.next() {
            None => {
                done = true;
            },
            Some(t) => {
                tokens.push(t);
                proof {
                    assert(spec_tokens_view(tokens@) =~= spec_tokens_view(pre).push(t@));
                    assert(spec_token_stream(input@, p0) == seq![t@] + spec_token_stream(
                        input@,
                        lexer.pos(),
                    ));
                    assert(spec_tokens_view(pre) + spec_token_stream(input@, p0)
                        =~= spec_tokens_view(tokens@) + spec_token_stream(input@, lexer.pos()));
                }
            },
        }
    }
    proof {
        assert(spec_tokens_view(tokens@) + Seq::<SpecToken>::empty() =~= spec_tokens_view(
            tokens@,
        ));
    }
    tokens
}

/// One-character lookahead fully decides the relational, assignment and
/// negation forms: `<` `>` `=` pair with a trailing `=` into their
/// two-character forms and stand alone otherwise, `!=` is the only valid
/// form of `!`, and a bare `!` is an invalid token.
pub proof fn lemma_lookahead_operators(text: Seq<char>, pos: int)
    requires
        0 <= pos < text.len(),
    ensures
        text[pos] == '<' && pos + 1 < text.len() && text[pos + 1] == '=' ==> spec_next_token(
            text,
            pos,
        ) == (LexStep::Tok { kind: TokenKind::LessThanEquals, raw: seq!['<', '='], end: pos + 2 }),
        text[pos] == '<' && !(pos + 1 < text.len() && text[pos + 1] == '=') ==> spec_next_token(
            text,
            pos,
        ) == (LexStep::Tok { kind: TokenKind::LessThan, raw: seq!['<'], end: pos + 1 }),
        text[pos] == '>' && pos + 1 < text.len() && text[pos + 1] == '=' ==> spec_next_token(
            text,
            pos,
        ) == (LexStep::Tok {
            kind: TokenKind::GreaterThanEquals,
            raw: seq!['>', '='],
            end: pos + 2,
        }),
        text[pos] == '>' && !(pos + 1 < text.len() && text[pos + 1] == '=') ==> spec_next_token(
            text,
            pos,
        ) == (LexStep::Tok { kind: TokenKind::GreaterThan, raw: seq!['>'], end: pos + 1 }),
        text[pos] == '=' && pos + 1 < text.len() && text[pos + 1] == '=' ==> spec_next_token(
            text,
            pos,
        ) == (LexStep::Tok { kind: TokenKind::EqualsEquals, raw: seq!['=', '='], end: pos + 2 }),
        text[pos] == '=' && !(pos + 1 < text.len() && text[pos + 1] == '=') ==> spec_next_token(
            text,
            pos,
        ) == (LexStep::Tok { kind: TokenKind::Equals, raw: seq!['='], end: pos + 1 }),
        text[pos] == '!' && pos + 1 < text.len() && text[pos + 1] == '=' ==> spec_next_token(
            text,
            pos,
        ) == (LexStep::Tok { kind: TokenKind::NotEquals, raw: seq!['!', '='], end: pos + 2 }),
        text[pos] == '!' && !(pos + 1 < text.len() && text[pos + 1] == '=') ==> spec_next_token(
            text,
            pos,
        ) == (LexStep::Tok { kind: TokenKind::Invalid, raw: seq!['!'], end: pos + 1 }),
{
}

/// Whitespace is never silently dropped: a whitespace character at the
/// cursor always becomes its own single-character whitespace token.
pub proof fn lemma_whitespace_kept(text: Seq<char>, pos: int)
    requires
        0 <= pos < text.len(),
        is_ws_char(text[pos]),
    ensures
        spec_next_token(text, pos) == (LexStep::Tok {
            kind: TokenKind::Whitespace,
            raw: seq![text[pos]],
            end: pos + 1,
        }),
{
}

} // verus!
