//! Tokens, and the scanner that produces them from source text.
//!
//! The scanner walks the source character by character, producing one token
//! per lexeme and skipping whitespace and line comments. It recovers from
//! lexical errors: an unrecognized character, an unterminated string or a
//! malformed number is reported and scanning continues, so one pass collects
//! every token and every lexical error.

use vstd::prelude::*;

verus! {

/// The kind of a token. The compiler consumes literals, operators,
/// parentheses and the end marker; the remaining kinds are recognized
/// lexically for forward compatibility, and using one in an expression is an
/// `UnexpectedToken` compile error.
#[derive(Debug, Clone, Copy, PartialEq, Eq, Structural)]
pub enum TokenType {
    LeftParen,
    RightParen,
    LeftBrace,
    RightBrace,
    Comma,
    Dot,
    Minus,
    Plus,
    Semicolon,
    Slash,
    Star,
    Bang,
    BangEqual,
    Equal,
    EqualEqual,
    Greater,
    GreaterEqual,
    Less,
    LessEqual,
    Identifier,
    String,
    Number,
    And,
    Class,
    Else,
    False,
    Fun,
    For,
    If,
    Nil,
    Or,
    Print,
    Return,
    Super,
    This,
    True,
    Var,
    While,
    Eof,
}

/// One lexeme with its kind and the 1-based source line it ends on.
#[derive(Debug)]
pub struct Token {
    pub token_type: TokenType,
    pub lexeme: String,
    pub line: usize,
}

impl Clone for Token {
    fn clone(&self) -> (res: Self)
        ensures
            res == *self,
    {
        Token { token_type: self.token_type, lexeme: self.lexeme.clone(), line: self.line }
    }
}

/// The mathematical model of a [`Token`]: the lexeme as a character sequence.
pub ghost struct TokenModel {
    pub token_type: TokenType,
    pub lexeme: Seq<char>,
    pub line: usize,
}

impl View for Token {
    type V = TokenModel;

    open spec fn view(&self) -> TokenModel {
        TokenModel { token_type: self.token_type, lexeme: self.lexeme@, line: self.line }
    }
}

/// A lexical error. Scanning reports it and goes on with the next character.
#[derive(Debug, Clone, Copy, PartialEq, Eq, Structural)]
pub enum ScanError {
    /// A character that begins no lexeme of the language.
    UnrecognizedCharacter { line: usize, found: char },
    /// A string literal still open at the end of the source.
    UnterminatedString { line: usize },
    /// A numeric literal whose decimal point is not followed by a digit.
    InvalidNumber { line: usize },
}

/// Whether `c` is a decimal digit.
pub open spec fn spec_is_digit(c: char) -> bool {
    48 <= c as u32 && c as u32 <= 57
}

/// The numeric value of a decimal digit.
pub open spec fn spec_digit_val(c: char) -> int {
    c as u32 - 48
}

/// Whether `c` may continue an identifier: an ASCII letter or digit.
pub open spec fn spec_is_alnum(c: char) -> bool {
    spec_is_digit(c) || (65 <= c as u32 && c as u32 <= 90) || (97 <= c as u32 && c as u32 <= 122)
}

/// The character at index `i`, if any.
pub open spec fn char_at(s: Seq<char>, i: int) -> Option<char> {
    if 0 <= i < s.len() {
        Some(s[i])
    } else {
        None
    }
}

/// The next line number: line counting saturates rather than wrapping.
pub open spec fn inc_line(l: usize) -> usize {
    if l < usize::MAX {
        (l + 1) as usize
    } else {
        l
    }
}

/// Where a line comment ends: the index just past the terminating newline,
/// or the end of the source; the flag says whether a newline was consumed.
pub open spec fn spec_skip_comment(s: Seq<char>, i: int) -> (int, bool)
    decreases s.len() - i,
{
    if i < 0 || i >= s.len() {
        (i, false)
    } else if s[i] == '\n' {
        (i + 1, true)
    } else {
        spec_skip_comment(s, i + 1)
    }
}

/// Scanning a string literal's body from `i` (just past the opening quote):
/// the index just past the closing quote and the line after any newlines
/// inside the literal, or, for a literal still open at the end of the
/// source, the line where the source ends.
pub open spec fn spec_string_scan(s: Seq<char>, i: int, line: usize) -> Result<
    (int, usize),
    usize,
>
    decreases s.len() - i,
{
    if i < 0 || i >= s.len() {
        Err(line)
    } else if s[i] == '"' {
        Ok((i + 1, line))
    } else if s[i] == '\n' {
        spec_string_scan(s, i + 1, inc_line(line))
    } else {
        spec_string_scan(s, i + 1, line)
    }
}

/// The index of the first non-digit at or after `i`.
pub open spec fn spec_digits_end(s: Seq<char>, i: int) -> int
    decreases s.len() - i,
{
    if 0 <= i < s.len() && spec_is_digit(s[i]) {
        spec_digits_end(s, i + 1)
    } else {
        i
    }
}

/// The index of the first character at or after `i` that cannot continue an
/// identifier.
pub open spec fn spec_ident_end(s: Seq<char>, i: int) -> int
    decreases s.len() - i,
{
    if 0 <= i < s.len() && spec_is_alnum(s[i]) {
        spec_ident_end(s, i + 1)
    } else {
        i
    }
}

/// Scanning a numeric literal from `i` (just past its first digit): the
/// index past its last digit, with an optional fractional part introduced by
/// a decimal point that must be followed by a digit; a bare trailing point
/// is a malformed number.
pub open spec fn spec_number_scan(s: Seq<char>, i: int) -> Result<int, ()> {
    let j = spec_digits_end(s, i);
    if char_at(s, j) == Some('.') {
        if (match char_at(s, j + 1) {
            Some(c) => spec_is_digit(c),
            None => false,
        }) {
            Ok(spec_digits_end(s, j + 2))
        } else {
            Err(())
        }
    } else {
        Ok(j)
    }
}

/// The keyword a lexeme spells, or `Identifier`.
pub open spec fn spec_keyword_type(lex: Seq<char>) -> TokenType {
    if lex == "and"@ {
        TokenType::And
    } else if lex == "class"@ {
        TokenType::Class
    } else if lex == "else"@ {
        TokenType::Else
    } else if lex == "false"@ {
        TokenType::False
    } else if lex == "for"@ {
        TokenType::For
    } else if lex == "fun"@ {
        TokenType::Fun
    } else if lex == "if"@ {
        TokenType::If
    } else if lex == "nil"@ {
        TokenType::Nil
    } else if lex == "or"@ {
        TokenType::Or
    } else if lex == "print"@ {
        TokenType::Print
    } else if lex == "return"@ {
        TokenType::Return
    } else if lex == "super"@ {
        TokenType::Super
    } else if lex == "this"@ {
        TokenType::This
    } else if lex == "true"@ {
        TokenType::True
    } else if lex == "var"@ {
        TokenType::Var
    } else if lex == "while"@ {
        TokenType::While
    } else {
        TokenType::Identifier
    }
}

/// What one scanning step does, starting at `pos` with the token's start
/// also at `pos`.
pub ghost struct ScanStep {
    /// A token, nothing (whitespace or a comment), or a lexical error.
    pub result: Result<Option<TokenModel>, ScanError>,
    /// The position scanning continues from.
    pub end: int,
    /// The line scanning continues on.
    pub line: usize,
}

/// A token spanning `[a, b)` of the source.
pub open spec fn spec_token(src: Seq<char>, tt: TokenType, a: int, b: int, line: usize) -> TokenModel {
    TokenModel { token_type: tt, lexeme: src.subrange(a, b), line }
}

/// A step that yields the single token `tt` spanning `[pos, end)`.
pub open spec fn spec_simple_step(
    src: Seq<char>,
    tt: TokenType,
    pos: int,
    end: int,
    line: usize,
) -> ScanStep {
    ScanStep { result: Ok(Some(spec_token(src, tt, pos, end, line))), end, line }
}

/// One scanning step at `pos`: which token, error or skip the character
/// there produces, where scanning resumes, and on which line.
pub open spec fn spec_scan_token(src: Seq<char>, pos: int, line: usize) -> ScanStep {
    match char_at(src, pos) {
        None => ScanStep { result: Ok(None), end: pos, line },
        Some(c) => if c == '(' {
            spec_simple_step(src, TokenType::LeftParen, pos, pos + 1, line)
        } else if c == ')' {
            spec_simple_step(src, TokenType::RightParen, pos, pos + 1, line)
        } else if c == '{' {
            spec_simple_step(src, TokenType::LeftBrace, pos, pos + 1, line)
        } else if c == '}' {
            spec_simple_step(src, TokenType::RightBrace, pos, pos + 1, line)
        } else if c == ',' {
            spec_simple_step(src, TokenType::Comma, pos, pos + 1, line)
        } else if c == '.' {
            spec_simple_step(src, TokenType::Dot, pos, pos + 1, line)
        } else if c == '-' {
            spec_simple_step(src, TokenType::Minus, pos, pos + 1, line)
        } else if c == '+' {
            spec_simple_step(src, TokenType::Plus, pos, pos + 1, line)
        } else if c == ';' {
            spec_simple_step(src, TokenType::Semicolon, pos, pos + 1, line)
        } else if c == '*' {
            spec_simple_step(src, TokenType::Star, pos, pos + 1, line)
        } else if c == '\n' {
            ScanStep { result: Ok(None), end: pos + 1, line: inc_line(line) }
        } else if c == ' ' || c == '\t' {
            ScanStep { result: Ok(None), end: pos + 1, line }
        } else if c == '!' {
            if char_at(src, pos + 1) == Some('=') {
                spec_simple_step(src, TokenType::BangEqual, pos, pos + 2, line)
            } else {
                spec_simple_step(src, TokenType::Bang, pos, pos + 1, line)
            }
        } else if c == '=' {
            if char_at(src, pos + 1) == Some('=') {
                spec_simple_step(src, TokenType::EqualEqual, pos, pos + 2, line)
            } else {
                spec_simple_step(src, TokenType::Equal, pos, pos + 1, line)
            }
        } else if c == '<' {
            if char_at(src, pos + 1) == Some('=') {
                spec_simple_step(src, TokenType::LessEqual, pos, pos + 2, line)
            } else {
                spec_simple_step(src, TokenType::Less, pos, pos + 1, line)
            }
        } else if c == '>' {
            if char_at(src, pos + 1) == Some('=') {
                spec_simple_step(src, TokenType::GreaterEqual, pos, pos + 2, line)
            } else {
                spec_simple_step(src, TokenType::Greater, pos, pos + 1, line)
            }
        } else if c == '/' {
            if char_at(src, pos + 1) == Some('/') {
                let (end, nl) = spec_skip_comment(src, pos + 1);
                ScanStep {
                    result: Ok(None),
                    end,
                    line: if nl {
                        inc_line(line)
                    } else {
                        line
                    },
                }
            } else {
                spec_simple_step(src, TokenType::Slash, pos, pos + 1, line)
            }
        } else if c == '"' {
            match spec_string_scan(src, pos + 1, line) {
                Ok((end, l2)) => ScanStep {
                    result: Ok(
                        Some(
                            TokenModel {
                                token_type: TokenType::String,
                                lexeme: src.subrange(pos + 1, end - 1),
                                line: l2,
                            },
                        ),
                    ),
                    end,
                    line: l2,
                },
                Err(l2) => ScanStep {
                    result: Err(ScanError::UnterminatedString { line: l2 }),
                    end: src.len() as int,
                    line: l2,
                },
            }
        } else if spec_is_digit(c) {
            match spec_number_scan(src, pos + 1) {
                Ok(end) => spec_simple_step(src, TokenType::Number, pos, end, line),
                Err(_) => ScanStep {
                    result: Err(ScanError::InvalidNumber { line }),
                    end: spec_digits_end(src, pos + 1),
                    line,
                },
            }
        } else if spec_is_alnum(c) {
            let end = spec_ident_end(src, pos + 1);
            ScanStep {
                result: Ok(
                    Some(
                        TokenModel {
                            token_type: spec_keyword_type(src.subrange(pos, end)),
                            lexeme: src.subrange(pos, end),
                            line,
                        },
                    ),
                ),
                end,
                line,
            }
        } else {
            ScanStep {
                result: Err(ScanError::UnrecognizedCharacter { line, found: c }),
                end: pos + 1,
                line,
            }
        },
    }
}

/// The tokens and errors of the whole source from `pos` on.
pub open spec fn spec_scan(src: Seq<char>, pos: int, line: usize) -> (
    Seq<TokenModel>,
    Seq<ScanError>,
)
    decreases src.len() - pos,
{
    if pos < 0 || pos >= src.len() {
        (Seq::empty(), Seq::empty())
    } else {
        let step = spec_scan_token(src, pos, line);
        // a step always consumes at least one character; the bound keeps the
        // recursion well-founded
        let next = if pos < step.end && step.end <= src.len() {
            step.end
        } else {
            pos + 1
        };
        let rest = spec_scan(src, next, step.line);
        match step.result {
            Ok(Some(t)) => (seq![t] + rest.0, rest.1),
            Ok(None) => rest,
            Err(e) => (rest.0, seq![e] + rest.1),
        }
    }
}

/// The models of a token sequence.
pub open spec fn tokens_view(ts: Seq<Token>) -> Seq<TokenModel> {
    ts.map_values(|t: Token| t@)
}

/// A scan result, with the token viewed as its model.
pub open spec fn token_opt_view(r: Result<Option<Token>, ScanError>) -> Result<
    Option<TokenModel>,
    ScanError,
> {
    match r {
        Ok(Some(t)) => Ok(Some(t@)),
        Ok(None) => Ok(None),
        Err(e) => Err(e),
    }
}

/// Whether `c` is a decimal digit.
fn is_digit_char(c: char) -> (r: bool)
    ensures
        r == spec_is_digit(c),
{
    let u = c as u32;
    48 <= u && u <= 57
}

/// Whether `c` may continue an identifier.
fn is_alnum_char(c: char) -> (r: bool)
    ensures
        r == spec_is_alnum(c),
{
    let u = c as u32;
    (48 <= u && u <= 57) || (65 <= u && u <= 90) || (97 <= u && u <= 122)
}

/// Character-wise string equality.
fn str_eq(a: &str, b: &str) -> (r: bool)
    ensures
        r == (a@ == b@),
{
    let la = a.unicode_len();
    let lb = b.unicode_len();
    if la != lb {
        return false;
    }
    let mut i: usize = 0;
    while i < la
        invariant
            la == a@.len(),
            la == b@.len(),
            i <= la,
            forall|j: int| 0 <= j < i ==> a@[j] == b@[j],
        decreases la - i,
    {
        if a.get_char(i) != b.get_char(i) {
            return false;
        }
        i += 1;
    }
    proof {
        assert(a@ =~= b@);
    }
    true
}

/// The keyword a lexeme spells, or `Identifier`.
fn keyword_token_type(lex: &str) -> (t: TokenType)
    ensures
        t == spec_keyword_type(lex@),
{
    if str_eq(lex, "and") {
        TokenType::And
    } else if str_eq(lex, "class") {
        TokenType::Class
    } else if str_eq(lex, "else") {
        TokenType::Else
    } else if str_eq(lex, "false") {
        TokenType::False
    } else if str_eq(lex, "for") {
        TokenType::For
    } else if str_eq(lex, "fun") {
        TokenType::Fun
    } else if str_eq(lex, "if") {
        TokenType::If
    } else if str_eq(lex, "nil") {
        TokenType::Nil
    } else if str_eq(lex, "or") {
        TokenType::Or
    } else if str_eq(lex, "print") {
        TokenType::Print
    } else if str_eq(lex, "return") {
        TokenType::Return
    } else if str_eq(lex, "super") {
        TokenType::Super
    } else if str_eq(lex, "this") {
        TokenType::This
    } else if str_eq(lex, "true") {
        TokenType::True
    } else if str_eq(lex, "var") {
        TokenType::Var
    } else if str_eq(lex, "while") {
        TokenType::While
    } else {
        TokenType::Identifier
    }
}

/// Saturating line bump.
fn bump_line(l: usize) -> (r: usize)
    ensures
        r == inc_line(l),
{
    if l < usize::MAX {
        l + 1
    } else {
        l
    }
}

/// The scanner's cursor state: the source, the start of the lexeme being
/// scanned, the next character to read, and the current line.
pub struct Scanner {
    pub source: String,
    pub start: usize,
    pub current: usize,
    pub line: usize,
}

impl Scanner {
    /// The character under the cursor, without consuming it.
    pub fn peek(&self) -> (r: Option<char>)
        ensures
            r == char_at(self.source@, self.current as int),
    {
        let n = self.source.as_str().unicode_len();
        if self.current < n {
            Some(self.source.as_str().get_char(self.current))
        } else {
            None
        }
    }

    /// The character after the one under the cursor.
    pub fn peek_next(&self) -> (r: Option<char>)
        ensures
            r == char_at(self.source@, self.current as int + 1),
    {
        let n = self.source.as_str().unicode_len();
        if self.current >= n {
            None
        } else if self.current + 1 >= n {
            None
        } else {
            Some(self.source.as_str().get_char(self.current + 1))
        }
    }

    /// Consumes and returns the character under the cursor; at the end of
    /// the source the cursor stays put.
    pub fn consume(&mut self) -> (r: Option<char>)
        ensures
            r == char_at(old(self).source@, old(self).current as int),
            final (self).source == old(self).source,
            final (self).start == old(self).start,
            final (self).line == old(self).line,
            r is Some ==> final (self).current == old(self).current + 1,
            r is None ==> final (self).current == old(self).current,
    {
        let n = self.source.as_str().unicode_len();
        if self.current < n {
            let c = self.source.as_str().get_char(self.current);
            self.current = self.current + 1;
            Some(c)
        } else {
            None
        }
    }

    /// The token for the lexeme between `start` and the cursor.
    pub fn create_token(&self, token_type: TokenType) -> (t: Token)
        requires
            self.start <= self.current <= self.source@.len(),
        ensures
            t@ == spec_token(
                self.source@,
                token_type,
                self.start as int,
                self.current as int,
                self.line,
            ),
    {
        Token {
            token_type,
            lexeme: self.source.as_str().substring_char(self.start, self.current).to_owned(),
            line: self.line,
        }
    }

    /// Consumes the next character if it is `candidate` and returns the
    /// two-character token, else returns the one-character token.
    pub fn peek_and_decide(
        &mut self,
        candidate: char,
        token_if_match: TokenType,
        token_if_no_match: TokenType,
    ) -> (t: Token)
        requires
            old(self).start <= old(self).current <= old(self).source@.len(),
        ensures
            final (self).source == old(self).source,
            final (self).start == old(self).start,
            final (self).line == old(self).line,
            if char_at(old(self).source@, old(self).current as int) == Some(candidate) {
                final (self).current == old(self).current + 1 && t@ == spec_token(
                    old(self).source@,
                    token_if_match,
                    old(self).start as int,
                    old(self).current as int + 1,
                    old(self).line,
                )
            } else {
                final (self).current == old(self).current && t@ == spec_token(
                    old(self).source@,
                    token_if_no_match,
                    old(self).start as int,
                    old(self).current as int,
                    old(self).line,
                )
            },
    {
        match self.peek() {
            Some(c) => if c == candidate {
                self.consume();
                self.create_token(token_if_match)
            } else {
                self.create_token(token_if_no_match)
            },
            None => self.create_token(token_if_no_match),
        }
    }

    /// If the cursor is on the second slash of a line comment, consumes
    /// through the end of the line (counting the newline) or the end of the
    /// source, and reports `true`; otherwise leaves the state alone and
    /// reports `false`.
    pub fn consume_comment(&mut self) -> (r: bool)
        ensures
            final (self).source == old(self).source,
            final (self).start == old(self).start,
            if char_at(old(self).source@, old(self).current as int) == Some('/') {
                r && final (self).current == spec_skip_comment(
                    old(self).source@,
                    old(self).current as int,
                ).0 && final (self).line == (if spec_skip_comment(
                    old(self).source@,
                    old(self).current as int,
                ).1 {
                    inc_line(old(self).line)
                } else {
                    old(self).line
                })
            } else {
                !r && final (self).current == old(self).current && final (self).line == old(
                    self,
                ).line
            },
    {
        let is_comment = match self.peek() {
            Some(c) => c == '/',
            None => false,
        };
        if !is_comment {
            return false;
        }
        let ghost src = self.source@;
        let ghost c0 = self.current as int;
        let ghost l0 = self.line;
        loop
            invariant
                self.source == old(self).source,
                self.source@ == src,
                src == old(self).source@,
                c0 == old(self).current as int,
                self.start == old(self).start,
                self.line == l0,
                l0 == old(self).line,
                char_at(src, c0) == Some('/'),
                c0 <= self.current as int,
                spec_skip_comment(src, self.current as int) == spec_skip_comment(src, c0),
            decreases src.len() - self.current,
        {
            let ghost prev = self.current as int;
            match self.consume() {
                None => {
                    proof {
                        assert(spec_skip_comment(src, prev) == (prev, false));
                    }
                    return true;
                },
                Some(c) => {
                    if c == '\n' {
                        proof {
                            assert(spec_skip_comment(src, prev) == (prev + 1, true));
                        }
                        self.line = bump_line(self.line);
                        return true;
                    }
                    proof {
                        assert(spec_skip_comment(src, prev) == spec_skip_comment(src, prev + 1));
                    }
                },
            }
        }
    }

    /// Scans a string literal's body, the opening quote already consumed
    /// (`start` sits on it). Newlines inside the literal are part of it and
    /// advance the line count. The token's lexeme is the text between the
    /// quotes; a literal still open at the end of the source is an
    /// `UnterminatedString`.
    pub fn consume_string(&mut self) -> (r: Result<Token, ScanError>)
        requires
            old(self).start < old(self).current <= old(self).source@.len(),
        ensures
            final (self).source == old(self).source,
            final (self).start == old(self).start,
            match spec_string_scan(old(self).source@, old(self).current as int, old(self).line) {
                Ok((end, l2)) => {
                    &&& final (self).current == end
                    &&& final (self).line == l2
                    &&& token_opt_view(
                        match r {
                            Ok(t) => Ok(Some(t)),
                            Err(e) => Err(e),
                        },
                    ) == Ok::<Option<TokenModel>, ScanError>(
                        Some(
                            TokenModel {
                                token_type: TokenType::String,
                                lexeme: old(self).source@.subrange(
                                    old(self).start as int + 1,
                                    end - 1,
                                ),
                                line: l2,
                            },
                        ),
                    )
                },
                Err(l2) => {
                    &&& final (self).current == old(self).source@.len()
                    &&& final (self).line == l2
                    &&& r == Err::<Token, ScanError>(ScanError::UnterminatedString { line: l2 })
                },
            },
    {
        let ghost src = self.source@;
        let ghost c0 = self.current as int;
        let ghost l0 = self.line;
        loop
            invariant
                self.source == old(self).source,
                self.source@ == src,
                src == old(self).source@,
                c0 == old(self).current as int,
                self.start == old(self).start,
                self.start < self.current,
                self.current as int <= src.len(),
                c0 <= self.current as int,
                l0 == old(self).line,
                spec_string_scan(src, self.current as int, self.line) == spec_string_scan(
                    src,
                    c0,
                    l0,
                ),
            decreases src.len() - self.current,
        {
            let ghost prev = self.current as int;
            let ghost lprev = self.line;
            match self.consume() {
                None => {
                    proof {
                        assert(spec_string_scan(src, prev, lprev) == Err::<(int, usize), usize>(
                            lprev,
                        ));
                    }
                    return Err(ScanError::UnterminatedString { line: self.line });
                },
                Some(c) => {
                    if c == '"' {
                        proof {
                            assert(spec_string_scan(src, prev, lprev) == Ok::<
                                (int, usize),
                                usize,
                            >((prev + 1, lprev)));
                        }
                        let t = Token {
                            token_type: TokenType::String,
                            lexeme: self.source.as_str().substring_char(
                                self.start + 1,
                                self.current - 1,
                            ).to_owned(),
                            line: self.line,
                        };
                        return Ok(t);
                    } else if c == '\n' {
                        proof {
                            assert(spec_string_scan(src, prev, lprev) == spec_string_scan(
                                src,
                                prev + 1,
                                inc_line(lprev),
                            ));
                        }
                        self.line = bump_line(self.line);
                    } else {
                        proof {
                            assert(spec_string_scan(src, prev, lprev) == spec_string_scan(
                                src,
                                prev + 1,
                                lprev,
                            ));
                        }
                    }
                },
            }
        }
    }

    /// Advances the cursor past a run of decimal digits.
    fn skip_digits(&mut self)
        requires
            old(self).current <= old(self).source@.len(),
        ensures
            final (self).source == old(self).source,
            final (self).start == old(self).start,
            final (self).line == old(self).line,
            final (self).current as int == spec_digits_end(
                old(self).source@,
                old(self).current as int,
            ),
            old(self).current <= final (self).current,
            final (self).current <= old(self).source@.len(),
    {
        let ghost src = self.source@;
        let ghost c0 = self.current as int;
        loop
            invariant
                self.source == old(self).source,
                self.source@ == src,
                src == old(self).source@,
                c0 == old(self).current as int,
                self.start == old(self).start,
                self.line == old(self).line,
                self.current as int <= src.len(),
                c0 <= self.current as int,
                spec_digits_end(src, self.current as int) == spec_digits_end(src, c0),
            decreases src.len() - self.current,
        {
            let ghost prev = self.current as int;
            let more = match self.peek() {
                Some(c) => is_digit_char(c),
                None => false,
            };
            if !more {
                proof {
                    assert(spec_digits_end(src, prev) == prev);
                }
                return ;
            }
            self.consume();
            proof {
                assert(spec_digits_end(src, prev) == spec_digits_end(src, prev + 1));
            }
        }
    }

    /// Advances the cursor past a run of identifier characters.
    fn skip_alnum(&mut self)
        requires
            old(self).current <= old(self).source@.len(),
        ensures
            final (self).source == old(self).source,
            final (self).start == old(self).start,
            final (self).line == old(self).line,
            final (self).current as int == spec_ident_end(
                old(self).source@,
                old(self).current as int,
            ),
            old(self).current <= final (self).current,
            final (self).current <= old(self).source@.len(),
    {
        let ghost src = self.source@;
        let ghost c0 = self.current as int;
        loop
            invariant
                self.source == old(self).source,
                self.source@ == src,
                src == old(self).source@,
                c0 == old(self).current as int,
                self.start == old(self).start,
                self.line == old(self).line,
                self.current as int <= src.len(),
                c0 <= self.current as int,
                spec_ident_end(src, self.current as int) == spec_ident_end(src, c0),
            decreases src.len() - self.current,
        {
            let ghost prev = self.current as int;
            let more = match self.peek() {
                Some(c) => is_alnum_char(c),
                None => false,
            };
            if !more {
                proof {
                    assert(spec_ident_end(src, prev) == prev);
                }
                return ;
            }
            self.consume();
            proof {
                assert(spec_ident_end(src, prev) == spec_ident_end(src, prev + 1));
            }
        }
    }

    /// Scans the rest of a numeric literal, its first digit already consumed
    /// (`start` sits on it): the remaining digits, then an optional
    /// fractional part. A decimal point not followed by a digit is an
    /// `InvalidNumber`, reported with the cursor left on the point.
    pub fn consume_number(&mut self) -> (r: Result<Token, ScanError>)
        requires
            old(self).start <= old(self).current <= old(self).source@.len(),
        ensures
            final (self).source == old(self).source,
            final (self).start == old(self).start,
            final (self).line == old(self).line,
            match spec_number_scan(old(self).source@, old(self).current as int) {
                Ok(end) => {
                    &&& final (self).current == end
                    &&& token_opt_view(
                        match r {
                            Ok(t) => Ok(Some(t)),
                            Err(e) => Err(e),
                        },
                    ) == Ok::<Option<TokenModel>, ScanError>(
                        Some(
                            spec_token(
                                old(self).source@,
                                TokenType::Number,
                                old(self).start as int,
                                end,
                                old(self).line,
                            ),
                        ),
                    )
                },
                Err(_) => {
                    &&& final (self).current == spec_digits_end(
                        old(self).source@,
                        old(self).current as int,
                    )
                    &&& r == Err::<Token, ScanError>(
                        ScanError::InvalidNumber { line: old(self).line },
                    )
                },
            },
    {
        self.skip_digits();
        let dotted = match self.peek() {
            Some(c) => c == '.',
            None => false,
        };
        if !dotted {
            return Ok(self.create_token(TokenType::Number));
        }
        let fraction = match self.peek_next() {
            Some(c) => is_digit_char(c),
            None => false,
        };
        if !fraction {
            return Err(ScanError::InvalidNumber { line: self.line });
        }
        self.consume();  // the decimal point
        proof {
            // the spec resumes after the digit it checked behind the point
            assert(spec_digits_end(self.source@, self.current as int) == spec_digits_end(
                self.source@,
                self.current as int + 1,
            ));
        }
        self.skip_digits();
        Ok(self.create_token(TokenType::Number))
    }

    /// Scans the rest of an identifier or keyword, its first character
    /// already consumed (`start` sits on it), and resolves keywords.
    pub fn consume_identifier(&mut self) -> (t: Token)
        requires
            old(self).start <= old(self).current <= old(self).source@.len(),
        ensures
            final (self).source == old(self).source,
            final (self).start == old(self).start,
            final (self).line == old(self).line,
            final (self).current == spec_ident_end(old(self).source@, old(self).current as int),
            t@ == ({
                let end = spec_ident_end(old(self).source@, old(self).current as int);
                TokenModel {
                    token_type: spec_keyword_type(
                        old(self).source@.subrange(old(self).start as int, end),
                    ),
                    lexeme: old(self).source@.subrange(old(self).start as int, end),
                    line: old(self).line,
                }
            }),
    {
        self.skip_alnum();
        let lexeme = self.source.as_str().substring_char(self.start, self.current).to_owned();
        let token_type = keyword_token_type(lexeme.as_str());
        Token { token_type, lexeme, line: self.line }
    }

    /// One scanning step: consumes one lexeme (or one skipped character) and
    /// produces its token, nothing, or a lexical error.
    pub fn scan_token(&mut self) -> (r: Result<Option<Token>, ScanError>)
        requires
            old(self).start == old(self).current,
            old(self).current <= old(self).source@.len(),
        ensures
            final (self).source == old(self).source,
            final (self).start == old(self).start,
            ({
                let step = spec_scan_token(old(self).source@, old(self).current as int, old(self).line);
                &&& token_opt_view(r) == step.result
                &&& final (self).current as int == step.end
                &&& final (self).line == step.line
            }),
    {
        let c = match self.consume() {
            None => {
                return Ok(None);
            },
            Some(c) => c,
        };
        match c {
            '(' => Ok(Some(self.create_token(TokenType::LeftParen))),
            ')' => Ok(Some(self.create_token(TokenType::RightParen))),
            '{' => Ok(Some(self.create_token(TokenType::LeftBrace))),
            '}' => Ok(Some(self.create_token(TokenType::RightBrace))),
            ',' => Ok(Some(self.create_token(TokenType::Comma))),
            '.' => Ok(Some(self.create_token(TokenType::Dot))),
            '-' => Ok(Some(self.create_token(TokenType::Minus))),
            '+' => Ok(Some(self.create_token(TokenType::Plus))),
            ';' => Ok(Some(self.create_token(TokenType::Semicolon))),
            '*' => Ok(Some(self.create_token(TokenType::Star))),
            '\n' => {
                self.line = bump_line(self.line);
                Ok(None)
            },
            ' ' => Ok(None),
            '\t' => Ok(None),
            '!' => Ok(Some(self.peek_and_decide('=', TokenType::BangEqual, TokenType::Bang))),
            '=' => Ok(Some(self.peek_and_decide('=', TokenType::EqualEqual, TokenType::Equal))),
            '<' => Ok(Some(self.peek_and_decide('=', TokenType::LessEqual, TokenType::Less))),
            '>' => Ok(
                Some(self.peek_and_decide('=', TokenType::GreaterEqual, TokenType::Greater)),
            ),
            '/' => {
                if self.consume_comment() {
                    Ok(None)
                } else {
                    Ok(Some(self.create_token(TokenType::Slash)))
                }
            },
            '"' => match self.consume_string() {
                Ok(t) => Ok(Some(t)),
                Err(e) => Err(e),
            },
            _ => {
                if is_digit_char(c) {
                    match self.consume_number() {
                        Ok(t) => Ok(Some(t)),
                        Err(e) => Err(e),
                    }
                } else if is_alnum_char(c) {
                    Ok(Some(self.consume_identifier()))
                } else {
                    Err(ScanError::UnrecognizedCharacter { line: self.line, found: c })
                }
            },
        }
    }
}

/// Scans the whole source, collecting every token and every lexical error.
/// A lexical error does not stop the scan: the scanner resumes with the next
/// character.
pub fn scan_tokens(source: String) -> (r: (Vec<Token>, Vec<ScanError>))
    ensures
        tokens_view(r.0@) == spec_scan(source@, 0, 1).0,
        r.1@ == spec_scan(source@, 0, 1).1,
{
    let ghost src = source@;
    let n = source.as_str().unicode_len();
    let mut scanner = Scanner { source, start: 0, current: 0, line: 1 };
    let mut tokens: Vec<Token> = Vec::new();
    let mut errors: Vec<ScanError> = Vec::new();
    while scanner.current < n
        invariant
            scanner.source@ == src,
            n == src.len(),
            scanner.current <= n,
            spec_scan(src, 0, 1).0 == tokens_view(tokens@) + spec_scan(
                src,
                scanner.current as int,
                scanner.line,
            ).0,
            spec_scan(src, 0, 1).1 == errors@ + spec_scan(
                src,
                scanner.current as int,
                scanner.line,
            ).1,
        decreases n - scanner.current,
    {
        scanner.start = scanner.current;
        let prev = scanner.current;
        let ghost prev_line = scanner.line;
        let ghost toks0 = tokens@;
        let ghost errs0 = errors@;
        let step_result = scanner.scan_token();
        match step_result {
            Ok(Some(t)) => tokens.push(t),
            Ok(None) => {},
            Err(e) => errors.push(e),
        }
        // a step always consumes at least one character; the bound keeps the
        // loop well-founded
        if !(scanner.current > prev && scanner.current <= n) {
            scanner.current = prev + 1;
        }
        proof {
            let step = spec_scan_token(src, prev as int, prev_line);
            let next = if prev < step.end && step.end <= src.len() {
                step.end
            } else {
                prev + 1
            };
            assert(scanner.current as int == next);
            let rest = spec_scan(src, next, step.line);
            match step.result {
                Ok(Some(tm)) => {
                    assert(tokens_view(toks0.push(tokens@.last())) =~= tokens_view(toks0).push(
                        tm,
                    ));
                    assert(tokens_view(toks0) + (seq![tm] + rest.0) =~= tokens_view(toks0).push(
                        tm,
                    ) + rest.0);
                },
                Ok(None) => {},
                Err(e) => {
                    assert(errs0 + (seq![e] + rest.1) =~= errs0.push(e) + rest.1);
                },
            }
        }
    }
    proof {
        assert(spec_scan(src, scanner.current as int, scanner.line).0 =~= Seq::<
            TokenModel,
        >::empty());
        assert(spec_scan(src, scanner.current as int, scanner.line).1 =~= Seq::<
            ScanError,
        >::empty());
        assert(tokens_view(tokens@) + Seq::<TokenModel>::empty() =~= tokens_view(tokens@));
        assert(errors@ + Seq::<ScanError>::empty() =~= errors@);
    }
    (tokens, errors)
}

} // verus!
