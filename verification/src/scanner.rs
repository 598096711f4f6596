use crate::number::{parse_double, spec_parse_double};
use crate::token::{spec_eof_token, spec_tokens, SpecToken, SpecTokenType, Token, TokenType};
use vstd::prelude::*;
use vstd::string::StrSliceExecFns;

verus! {

// ---------------------------------------------------------------------------
// Character classes
// ---------------------------------------------------------------------------
/// An ASCII decimal digit.
pub open spec fn spec_is_digit(c: char) -> bool {
    48 <= c as u32 && c as u32 <= 57
}

/// An ASCII letter or underscore: what an identifier may start with.
pub open spec fn spec_is_alpha(c: char) -> bool {
    ||| (65 <= c as u32 && c as u32 <= 90)
    ||| (97 <= c as u32 && c as u32 <= 122)
    ||| c as u32 == 95
}

/// An ASCII letter, digit or underscore: what an identifier may continue
/// with.
pub open spec fn spec_is_alphanumeric(c: char) -> bool {
    spec_is_alpha(c) || spec_is_digit(c)
}

fn is_digit(c: char) -> (r: bool)
    ensures
        r == spec_is_digit(c),
{
    let u: u32 = c as u32;
    48 <= u && u <= 57
}

// ---------------------------------------------------------------------------
// Position helpers: where a run of characters ends
// ---------------------------------------------------------------------------
/// The first position at or after `j` holding `c`, or the end of the text.
pub open spec fn spec_skip_until(s: Seq<char>, j: int, c: char) -> int
    decreases s.len() - j,
{
    if 0 <= j < s.len() {
        if s[j] == c {
            j
        } else {
            spec_skip_until(s, j + 1, c)
        }
    } else {
        s.len() as int
    }
}

/// The first position at or after `j` not holding a digit; `j` itself when
/// out of range.
pub open spec fn spec_digits_end(s: Seq<char>, j: int) -> int
    decreases s.len() - j,
{
    if 0 <= j < s.len() && spec_is_digit(s[j]) {
        spec_digits_end(s, j + 1)
    } else {
        j
    }
}

/// The first position at or after `j` not holding an identifier character;
/// `j` itself when out of range.
pub open spec fn spec_ident_end(s: Seq<char>, j: int) -> int
    decreases s.len() - j,
{
    if 0 <= j < s.len() && spec_is_alphanumeric(s[j]) {
        spec_ident_end(s, j + 1)
    } else {
        j
    }
}

proof fn lemma_skip_until(s: Seq<char>, j: int, c: char)
    requires
        0 <= j,
    ensures
        j <= s.len() ==> j <= spec_skip_until(s, j, c) <= s.len(),
        j > s.len() ==> spec_skip_until(s, j, c) == s.len(),
    decreases s.len() - j,
{
    if 0 <= j < s.len() && s[j] != c {
        lemma_skip_until(s, j + 1, c);
    }
}

proof fn lemma_digits_end(s: Seq<char>, j: int)
    requires
        0 <= j <= s.len(),
    ensures
        j <= spec_digits_end(s, j) <= s.len(),
    decreases s.len() - j,
{
    if 0 <= j < s.len() && spec_is_digit(s[j]) {
        lemma_digits_end(s, j + 1);
    }
}

proof fn lemma_ident_end(s: Seq<char>, j: int)
    requires
        0 <= j <= s.len(),
    ensures
        j <= spec_ident_end(s, j) <= s.len(),
    decreases s.len() - j,
{
    if 0 <= j < s.len() && spec_is_alphanumeric(s[j]) {
        lemma_ident_end(s, j + 1);
    }
}

// ---------------------------------------------------------------------------
// Keywords
// ---------------------------------------------------------------------------
/// The fixed keyword table: the token kind a reserved word scans to.
pub open spec fn spec_keyword_kind(lex: Seq<char>) -> Option<SpecTokenType> {
    if lex == "and"@ {
        Some(SpecTokenType::And)
    } else if lex == "class"@ {
        Some(SpecTokenType::Class)
    } else if lex == "else"@ {
        Some(SpecTokenType::Else)
    } else if lex == "false"@ {
        Some(SpecTokenType::False)
    } else if lex == "fun"@ {
        Some(SpecTokenType::Fun)
    } else if lex == "for"@ {
        Some(SpecTokenType::For)
    } else if lex == "if"@ {
        Some(SpecTokenType::If)
    } else if lex == "nil"@ {
        Some(SpecTokenType::Nil)
    } else if lex == "or"@ {
        Some(SpecTokenType::Or)
    } else if lex == "print"@ {
        Some(SpecTokenType::Print)
    } else if lex == "return"@ {
        Some(SpecTokenType::Return)
    } else if lex == "super"@ {
        Some(SpecTokenType::Super)
    } else if lex == "this"@ {
        Some(SpecTokenType::This)
    } else if lex == "true"@ {
        Some(SpecTokenType::True)
    } else if lex == "var"@ {
        Some(SpecTokenType::Var)
    } else if lex == "while"@ {
        Some(SpecTokenType::While)
    } else {
        None
    }
}

/// The kind of a maximal identifier run: a keyword where the lexeme matches
/// the table, an identifier otherwise.
pub open spec fn spec_ident_kind(lex: Seq<char>) -> SpecTokenType {
    match spec_keyword_kind(lex) {
        Some(k) => k,
        None => SpecTokenType::Identifier,
    }
}

// ---------------------------------------------------------------------------
// One step of the lexer
// ---------------------------------------------------------------------------
/// What one step of the lexer does at position `i`: the tokens it emits
/// (none for skipped text), the position scanning resumes at, and the line
/// counter after the step.
pub struct SpecStep {
    pub toks: Seq<SpecToken>,
    pub next: int,
    pub line: int,
}

/// A step emitting one token whose lexeme runs from `i` to `next`.
pub open spec fn spec_one_token(
    s: Seq<char>,
    i: int,
    line: int,
    kind: SpecTokenType,
    next: int,
) -> SpecStep {
    SpecStep {
        toks: seq![SpecToken { kind, lexeme: s.subrange(i, next), line }],
        next,
        line,
    }
}

/// One step of maximal-munch scanning at position `i` of the text, on line
/// `line`. Mirrors the lexical rules: two-character operators win over
/// one-character ones by single-character lookahead, `//` discards the rest
/// of the line, strings run to the closing quote, numbers take a fractional
/// part only when a digit follows the dot, identifier runs are checked
/// against the keyword table, and any unrecognized character becomes an
/// in-band error token.
pub open spec fn spec_step(s: Seq<char>, i: int, line: int) -> SpecStep
    recommends
        0 <= i < s.len(),
{
    let c = s[i];
    if c == '(' {
        spec_one_token(s, i, line, SpecTokenType::LeftParen, i + 1)
    } else if c == ')' {
        spec_one_token(s, i, line, SpecTokenType::RightParen, i + 1)
    } else if c == '{' {
        spec_one_token(s, i, line, SpecTokenType::LeftBrace, i + 1)
    } else if c == '}' {
        spec_one_token(s, i, line, SpecTokenType::RightBrace, i + 1)
    } else if c == ',' {
        spec_one_token(s, i, line, SpecTokenType::Comma, i + 1)
    } else if c == '.' {
        spec_one_token(s, i, line, SpecTokenType::Dot, i + 1)
    } else if c == '-' {
        spec_one_token(s, i, line, SpecTokenType::Minus, i + 1)
    } else if c == '+' {
        spec_one_token(s, i, line, SpecTokenType::Plus, i + 1)
    } else if c == ';' {
        spec_one_token(s, i, line, SpecTokenType::Semicolon, i + 1)
    } else if c == '/' {
        if i + 1 < s.len() && s[i + 1] == '/' {
            SpecStep { toks: Seq::empty(), next: spec_skip_until(s, i + 2, '\n'), line }
        } else {
            spec_one_token(s, i, line, SpecTokenType::Slash, i + 1)
        }
    } else if c == '*' {
        spec_one_token(s, i, line, SpecTokenType::Star, i + 1)
    } else if c == '!' {
        if i + 1 < s.len() && s[i + 1] == '=' {
            spec_one_token(s, i, line, SpecTokenType::BangEqual, i + 2)
        } else {
            spec_one_token(s, i, line, SpecTokenType::Bang, i + 1)
        }
    } else if c == '=' {
        if i + 1 < s.len() && s[i + 1] == '=' {
            spec_one_token(s, i, line, SpecTokenType::EqualEqual, i + 2)
        } else {
            spec_one_token(s, i, line, SpecTokenType::Equal, i + 1)
        }
    } else if c == '>' {
        if i + 1 < s.len() && s[i + 1] == '=' {
            spec_one_token(s, i, line, SpecTokenType::GreaterEqual, i + 2)
        } else {
            spec_one_token(s, i, line, SpecTokenType::Greater, i + 1)
        }
    } else if c == '<' {
        if i + 1 < s.len() && s[i + 1] == '=' {
            spec_one_token(s, i, line, SpecTokenType::LessEqual, i + 2)
        } else {
            spec_one_token(s, i, line, SpecTokenType::Less, i + 1)
        }
    } else if c == '"' {
        let close = spec_skip_until(s, i + 1, '"');
        if close >= s.len() {
            // Unterminated: one in-band error token holding the rest of the
            // text; scanning resumes at the end of input.
            SpecStep {
                toks: seq![
                    SpecToken {
                        kind: SpecTokenType::SyntaxErr("Unterminated string"@),
                        lexeme: s.subrange(i, s.len() as int),
                        line,
                    },
                ],
                next: s.len() as int,
                line,
            }
        } else {
            SpecStep {
                toks: seq![
                    SpecToken {
                        kind: SpecTokenType::String(s.subrange(i + 1, close)),
                        lexeme: s.subrange(i, close + 1),
                        line,
                    },
                ],
                next: close + 1,
                line,
            }
        }
    } else if c == ' ' || c == '\r' || c == '\t' {
        SpecStep { toks: Seq::empty(), next: i + 1, line }
    } else if c == '\n' {
        SpecStep { toks: Seq::empty(), next: i + 1, line: line + 1 }
    } else if spec_is_digit(c) {
        let whole_end = spec_digits_end(s, i + 1);
        let end = if whole_end < s.len() && s[whole_end] == '.' && whole_end + 1 < s.len()
            && spec_is_digit(s[whole_end + 1]) {
            spec_digits_end(s, whole_end + 1)
        } else {
            whole_end
        };
        let lex = s.subrange(i, end);
        let kind = match spec_parse_double(lex) {
            Some(bits) => SpecTokenType::Number(bits),
            None => SpecTokenType::SyntaxErr("Failed to parse number"@),
        };
        SpecStep { toks: seq![SpecToken { kind, lexeme: lex, line }], next: end, line }
    } else if spec_is_alpha(c) {
        let end = spec_ident_end(s, i + 1);
        let lex = s.subrange(i, end);
        SpecStep {
            toks: seq![SpecToken { kind: spec_ident_kind(lex), lexeme: lex, line }],
            next: end,
            line,
        }
    } else {
        spec_one_token(s, i, line, SpecTokenType::SyntaxErr("Invalid character"@), i + 1)
    }
}

// ---------------------------------------------------------------------------
// The whole scan
// ---------------------------------------------------------------------------
/// The token stream scanning yields from position `i` on line `line`: the
/// steps' tokens in order, closed by exactly one end-of-stream token.
pub open spec fn spec_scan_from(s: Seq<char>, i: int, line: int) -> Seq<SpecToken>
    decreases s.len() - i,
{
    if 0 <= i < s.len() {
        let st = spec_step(s, i, line);
        if i < st.next <= s.len() {
            st.toks + spec_scan_from(s, st.next, st.line)
        } else {
            seq![spec_eof_token(line)]
        }
    } else {
        seq![spec_eof_token(line)]
    }
}

/// The full token stream of a text, scanned from its start on line 1.
pub open spec fn spec_scan(s: Seq<char>) -> Seq<SpecToken> {
    spec_scan_from(s, 0, 1)
}

/// One lexing step always makes progress and never moves past the end.
proof fn lemma_step_bounds(s: Seq<char>, i: int, line: int)
    requires
        0 <= i < s.len(),
    ensures
        i < spec_step(s, i, line).next <= s.len(),
        spec_step(s, i, line).line >= line,
{
    lemma_skip_until(s, i + 1, '"');
    lemma_skip_until(s, i + 2, '\n');
    lemma_digits_end(s, i + 1);
    lemma_ident_end(s, i + 1);
    let whole_end = spec_digits_end(s, i + 1);
    if whole_end < s.len() && s[whole_end] == '.' && whole_end + 1 < s.len() && spec_is_digit(
        s[whole_end + 1],
    ) {
        lemma_digits_end(s, whole_end + 1);
    }
}

/// The tokens one step emits all carry the step's own line and are never the
/// end-of-stream token.
proof fn lemma_step_tokens(s: Seq<char>, i: int, line: int)
    requires
        0 <= i < s.len(),
    ensures
        forall|k: int|
            0 <= k < spec_step(s, i, line).toks.len() ==> spec_step(s, i, line).toks[k].line
                == line && !(spec_step(s, i, line).toks[k].kind is EOF),
{
}

proof fn lemma_scan_from_shape(s: Seq<char>, i: int, line: int)
    ensures
        spec_scan_from(s, i, line).len() >= 1,
        spec_scan_from(s, i, line).last().kind is EOF,
        forall|k: int|
            0 <= k < spec_scan_from(s, i, line).len() - 1 ==> !(spec_scan_from(s, i, line)[k].kind
                is EOF),
        forall|k: int|
            0 <= k < spec_scan_from(s, i, line).len() ==> spec_scan_from(s, i, line)[k].line
                >= line,
        forall|k1: int, k2: int|
            0 <= k1 <= k2 < spec_scan_from(s, i, line).len() ==> spec_scan_from(s, i, line)[k1].line
                <= spec_scan_from(s, i, line)[k2].line,
    decreases s.len() - i,
{
    if 0 <= i < s.len() {
        let st = spec_step(s, i, line);
        lemma_step_bounds(s, i, line);
        lemma_step_tokens(s, i, line);
        lemma_scan_from_shape(s, st.next, st.line);
        let ts = spec_scan_from(s, i, line);
        let rest = spec_scan_from(s, st.next, st.line);
        assert(ts =~= st.toks + rest);
        assert(ts.last() == rest.last());
        assert forall|k1: int, k2: int| 0 <= k1 <= k2 < ts.len() implies ts[k1].line
            <= ts[k2].line by {
            if k1 >= st.toks.len() {
                assert(rest[k1 - st.toks.len()].line <= rest[k2 - st.toks.len()].line);
            } else if k2 >= st.toks.len() {
                assert(ts[k1].line == line);
                assert(rest[k2 - st.toks.len()].line >= st.line);
            }
        }
    }
}

/// The lexer never aborts and always closes the stream: whatever the text,
/// its token stream is nonempty, ends with exactly one end-of-stream token
/// and none earlier, and its line numbers start at 1 and never decrease
/// across the stream.
pub proof fn lemma_scan_stream_shape(s: Seq<char>)
    ensures
        spec_scan(s).len() >= 1,
        spec_scan(s).last().kind is EOF,
        forall|k: int| 0 <= k < spec_scan(s).len() - 1 ==> !(spec_scan(s)[k].kind is EOF),
        forall|k: int| 0 <= k < spec_scan(s).len() ==> spec_scan(s)[k].line >= 1,
        forall|k1: int, k2: int|
            0 <= k1 <= k2 < spec_scan(s).len() ==> spec_scan(s)[k1].line <= spec_scan(s)[k2].line,
        crate::parser::spec_stream_ok(spec_scan(s)),
{
    lemma_scan_from_shape(s, 0, 1);
}

// ---------------------------------------------------------------------------
// Trusted text conversions
// ---------------------------------------------------------------------------
/// The characters of the text, in order.
fn str_chars(s: &str) -> (v: Vec<char>)
    ensures
        v@ == s@,
{
    let n = s.unicode_len();
    let mut v: Vec<char> = Vec::new();
    let mut i: usize = 0;
    while i < n
        invariant
            i <= n,
            n == s@.len(),
            v@ == s@.subrange(0, i as int),
        decreases n - i,
    {
        v.push(s.get_char(i));
        proof {
            assert(v@ =~= s@.subrange(0, i as int + 1));
        }
        i = i + 1;
    }
    proof {
        assert(v@ =~= s@);
    }
    v
}

/// Relies on `String::from_iter` over `char`: the string holding exactly the
/// given characters, in order.
#[verifier::external_body]
fn chars_to_string(v: &[char]) -> (s: String)
    ensures
        s@ == v@,
{
    v.iter().collect()
}

// ---------------------------------------------------------------------------
// The scanner
// ---------------------------------------------------------------------------
/// Converts raw source text into the full sequence of tokens in one pass.
/// Lexical problems never abort the scan: they are embedded as error tokens
/// and scanning continues to the end of input.
pub struct Scanner {
    pub source: Vec<char>,
    pub tokens: Vec<Token>,
    pub current: usize,
    pub line: u64,
}

impl Scanner {
    /// The position scanning has reached.
    pub open spec fn spec_current(&self) -> int {
        self.current as int
    }

    /// The current 1-based line counter.
    pub open spec fn spec_line(&self) -> int {
        self.line as int
    }

    /// The scanner's invariant: the cursor stays within the text, and the
    /// line counter can have grown at most one per character consumed.
    pub open spec fn wf(&self) -> bool {
        &&& self.current <= self.source@.len()
        &&& self.source@.len() < usize::MAX
        &&& 1 <= self.line
        &&& self.line as int <= 1 + self.current as int
    }

    /// A scanner at the start of the text, on line 1, with no tokens yet.
    pub fn new(source: &str) -> (r: Scanner)
        requires
            source@.len() < usize::MAX,
        ensures
            r.source@ == source@,
            r.tokens@ == Seq::<Token>::empty(),
            r.spec_current() == 0,
            r.spec_line() == 1,
            r.wf(),
    {
        Scanner { source: str_chars(source), tokens: Vec::new(), current: 0, line: 1 }
    }

    /// The source substring from `start` to `end`, as a fresh string.
    fn substring(&self, start: usize, end: usize) -> (s: String)
        requires
            start <= end <= self.source@.len(),
        ensures
            s@ == self.source@.subrange(start as int, end as int),
    {
        let mut buf: Vec<char> = Vec::new();
        let mut k: usize = start;
        while k < end
            invariant
                start <= k <= end <= self.source@.len(),
                buf@ == self.source@.subrange(start as int, k as int),
            decreases end - k,
        {
            buf.push(self.source[k]);
            proof {
                assert(buf@ =~= self.source@.subrange(start as int, k as int + 1));
            }
            k = k + 1;
        }
        chars_to_string(buf.as_slice())
    }

    /// Emits a token of the given kind whose lexeme runs from `start` to the
    /// cursor, on the current line.
    fn add_token(&mut self, kind: TokenType, start: usize)
        requires
            old(self).wf(),
            start <= old(self).spec_current(),
        ensures
            final(self).wf(),
            final(self).source == old(self).source,
            final(self).spec_current() == old(self).spec_current(),
            final(self).spec_line() == old(self).spec_line(),
            spec_tokens(final(self).tokens@) == spec_tokens(old(self).tokens@).push(
                SpecToken {
                    kind: kind@,
                    lexeme: old(self).source@.subrange(start as int, old(self).spec_current()),
                    line: old(self).spec_line(),
                },
            ),
    {
        let lexeme = self.substring(start, self.current);
        let t = Token { kind, lexeme, line: self.line };
        let ghost before = self.tokens@;
        self.tokens.push(t);
        proof {
            assert(spec_tokens(self.tokens@) =~= spec_tokens(before).push(
                SpecToken {
                    kind: kind@,
                    lexeme: self.source@.subrange(start as int, self.spec_current()),
                    line: self.spec_line(),
                },
            ));
        }
    }

    /// Advances the cursor to the next occurrence of `c`, or to the end of
    /// the text; the cursor is left on the matching character.
    fn skip_until(&mut self, c: char)
        requires
            old(self).wf(),
        ensures
            final(self).wf(),
            final(self).source == old(self).source,
            final(self).tokens == old(self).tokens,
            final(self).spec_line() == old(self).spec_line(),
            final(self).spec_current() == spec_skip_until(
                old(self).source@,
                old(self).spec_current(),
                c,
            ),
            final(self).spec_current() >= old(self).spec_current(),
    {
        let ghost s = self.source@;
        let ghost i0 = self.spec_current();
        while self.current < self.source.len() && self.source[self.current] != c
            invariant
                self.wf(),
                self.source == old(self).source,
                self.source@ == s,
                self.tokens == old(self).tokens,
                self.line == old(self).line,
                i0 <= self.spec_current(),
                spec_skip_until(s, self.spec_current(), c) == spec_skip_until(s, i0, c),
            decreases s.len() - self.spec_current(),
        {
            self.current = self.current + 1;
        }
    }

    /// Advances the cursor past a maximal run of digits.
    fn consume_digits(&mut self)
        requires
            old(self).wf(),
        ensures
            final(self).wf(),
            final(self).source == old(self).source,
            final(self).tokens == old(self).tokens,
            final(self).spec_line() == old(self).spec_line(),
            final(self).spec_current() == spec_digits_end(
                old(self).source@,
                old(self).spec_current(),
            ),
            final(self).spec_current() >= old(self).spec_current(),
    {
        let ghost s = self.source@;
        let ghost i0 = self.spec_current();
        while self.current < self.source.len() && is_digit(self.source[self.current])
            invariant
                self.wf(),
                self.source == old(self).source,
                self.source@ == s,
                self.tokens == old(self).tokens,
                self.line == old(self).line,
                i0 <= self.spec_current(),
                spec_digits_end(s, self.spec_current()) == spec_digits_end(s, i0),
            decreases s.len() - self.spec_current(),
        {
            self.current = self.current + 1;
        }
    }

    /// Advances the cursor past a maximal run of identifier characters.
    fn consume_ident(&mut self)
        requires
            old(self).wf(),
        ensures
            final(self).wf(),
            final(self).source == old(self).source,
            final(self).tokens == old(self).tokens,
            final(self).spec_line() == old(self).spec_line(),
            final(self).spec_current() == spec_ident_end(
                old(self).source@,
                old(self).spec_current(),
            ),
            final(self).spec_current() >= old(self).spec_current(),
    {
        let ghost s = self.source@;
        let ghost i0 = self.spec_current();
        while self.current < self.source.len() && Self::is_alphanumeric(
            self.source[self.current],
        )
            invariant
                self.wf(),
                self.source == old(self).source,
                self.source@ == s,
                self.tokens == old(self).tokens,
                self.line == old(self).line,
                i0 <= self.spec_current(),
                spec_ident_end(s, self.spec_current()) == spec_ident_end(s, i0),
            decreases s.len() - self.spec_current(),
        {
            self.current = self.current + 1;
        }
    }

    /// Matches an ASCII letter or underscore.
    fn is_alpha(c: char) -> (r: bool)
        ensures
            r == spec_is_alpha(c),
    {
        let u: u32 = c as u32;
        (65 <= u && u <= 90) || (97 <= u && u <= 122) || u == 95
    }

    /// Matches an ASCII letter, digit or underscore.
    fn is_alphanumeric(c: char) -> (r: bool)
        ensures
            r == spec_is_alphanumeric(c),
    {
        Self::is_alpha(c) || is_digit(c)
    }

    /// The keyword the lexeme exactly matches, if any.
    fn keyword_kind(lexeme: &String) -> (r: Option<TokenType>)
        ensures
            match spec_keyword_kind(lexeme@) {
                Some(k) => r matches Some(kt) && kt@ == k,
                None => r is None,
            },
    {
        if *lexeme == String::from_str("and") {
            Some(TokenType::And)
        } else if *lexeme == String::from_str("class") {
            Some(TokenType::Class)
        } else if *lexeme == String::from_str("else") {
            Some(TokenType::Else)
        } else if *lexeme == String::from_str("false") {
            Some(TokenType::False)
        } else if *lexeme == String::from_str("fun") {
            Some(TokenType::Fun)
        } else if *lexeme == String::from_str("for") {
            Some(TokenType::For)
        } else if *lexeme == String::from_str("if") {
            Some(TokenType::If)
        } else if *lexeme == String::from_str("nil") {
            Some(TokenType::Nil)
        } else if *lexeme == String::from_str("or") {
            Some(TokenType::Or)
        } else if *lexeme == String::from_str("print") {
            Some(TokenType::Print)
        } else if *lexeme == String::from_str("return") {
            Some(TokenType::Return)
        } else if *lexeme == String::from_str("super") {
            Some(TokenType::Super)
        } else if *lexeme == String::from_str("this") {
            Some(TokenType::This)
        } else if *lexeme == String::from_str("true") {
            Some(TokenType::True)
        } else if *lexeme == String::from_str("var") {
            Some(TokenType::Var)
        } else if *lexeme == String::from_str("while") {
            Some(TokenType::While)
        } else {
            None
        }
    }

    /// Scans one token (or skips whitespace or a comment) from the cursor,
    /// exactly as `spec_step` describes.
    fn scan_token(&mut self)
        requires
            old(self).wf(),
            old(self).spec_current() < old(self).source@.len(),
        ensures
            final(self).wf(),
            final(self).source == old(self).source,
            ({
                let st = spec_step(old(self).source@, old(self).spec_current(), old(
                    self,
                ).spec_line());
                &&& spec_tokens(final(self).tokens@) == spec_tokens(old(self).tokens@) + st.toks
                &&& final(self).spec_current() == st.next
                &&& final(self).spec_line() == st.line
            }),
            old(self).spec_current() < final(self).spec_current() <= old(self).source@.len(),
    {
        let ghost s = self.source@;
        let ghost i0 = self.spec_current();
        let ghost l0 = self.spec_line();
        let ghost toks0 = spec_tokens(self.tokens@);
        proof {
            lemma_step_bounds(s, i0, l0);
        }
        let start = self.current;
        let c = self.source[start];
        self.current = start + 1;
        if c == '(' {
            self.add_token(TokenType::LeftParen, start);
        } else if c == ')' {
            self.add_token(TokenType::RightParen, start);
        } else if c == '{' {
            self.add_token(TokenType::LeftBrace, start);
        } else if c == '}' {
            self.add_token(TokenType::RightBrace, start);
        } else if c == ',' {
            self.add_token(TokenType::Comma, start);
        } else if c == '.' {
            self.add_token(TokenType::Dot, start);
        } else if c == '-' {
            self.add_token(TokenType::Minus, start);
        } else if c == '+' {
            self.add_token(TokenType::Plus, start);
        } else if c == ';' {
            self.add_token(TokenType::Semicolon, start);
        } else if c == '/' {
            if self.current < self.source.len() && self.source[self.current] == '/' {
                // A line comment: discard through (not including) the next
                // newline.
                self.current = self.current + 1;
                self.skip_until('\n');
            } else {
                self.add_token(TokenType::Slash, start);
            }
        } else if c == '*' {
            self.add_token(TokenType::Star, start);
        } else if c == '!' {
            if self.current < self.source.len() && self.source[self.current] == '=' {
                self.current = self.current + 1;
                self.add_token(TokenType::BangEqual, start);
            } else {
                self.add_token(TokenType::Bang, start);
            }
        } else if c == '=' {
            if self.current < self.source.len() && self.source[self.current] == '=' {
                self.current = self.current + 1;
                self.add_token(TokenType::EqualEqual, start);
            } else {
                self.add_token(TokenType::Equal, start);
            }
        } else if c == '>' {
            if self.current < self.source.len() && self.source[self.current] == '=' {
                self.current = self.current + 1;
                self.add_token(TokenType::GreaterEqual, start);
            } else {
                self.add_token(TokenType::Greater, start);
            }
        } else if c == '<' {
            if self.current < self.source.len() && self.source[self.current] == '=' {
                self.current = self.current + 1;
                self.add_token(TokenType::LessEqual, start);
            } else {
                self.add_token(TokenType::Less, start);
            }
        } else if c == '"' {
            self.skip_until('"');
            if self.current == self.source.len() {
                // Unterminated string: one in-band error token, and the scan
                // goes on at the end of input.
                self.add_token(
                    TokenType::SyntaxErr(String::from_str("Unterminated string")),
                    start,
                );
                proof {
                    assert(spec_tokens(self.tokens@) =~= toks0 + spec_step(s, i0, l0).toks);
                }
            } else {
                // Consume the closing quote; the decoded text is the content
                // between the delimiters.
                self.current = self.current + 1;
                let content = self.substring(start + 1, self.current - 1);
                let lexeme = self.substring(start, self.current);
                let t = Token { kind: TokenType::String(content), lexeme, line: self.line };
                self.tokens.push(t);
                proof {
                    assert(spec_tokens(self.tokens@) =~= toks0 + spec_step(s, i0, l0).toks);
                }
            }
        } else if c == ' ' || c == '\r' || c == '\t' {
            // Skipped with no token emitted.
        } else if c == '\n' {
            self.line = self.line + 1;
        } else if is_digit(c) {
            self.consume_digits();
            if self.current < self.source.len() && self.source[self.current] == '.'
                && self.current + 1 < self.source.len() && is_digit(
                self.source[self.current + 1],
            ) {
                // Consume the dot, then the fractional digits.
                self.current = self.current + 1;
                self.consume_digits();
            }
            let lexeme = self.substring(start, self.current);
            match parse_double(lexeme.as_str()) {
                Some(bits) => {
                    let t = Token { kind: TokenType::Number(bits), lexeme, line: self.line };
                    self.tokens.push(t);
                },
                None => {
                    let t = Token {
                        kind: TokenType::SyntaxErr(String::from_str("Failed to parse number")),
                        lexeme,
                        line: self.line,
                    };
                    self.tokens.push(t);
                },
            }
            proof {
                assert(spec_tokens(self.tokens@) =~= toks0 + spec_step(s, i0, l0).toks);
            }
        } else if Self::is_alpha(c) {
            self.consume_ident();
            let lexeme = self.substring(start, self.current);
            match Self::keyword_kind(&lexeme) {
                Some(kind) => {
                    let t = Token { kind, lexeme, line: self.line };
                    self.tokens.push(t);
                },
                None => {
                    let t = Token { kind: TokenType::Identifier, lexeme, line: self.line };
                    self.tokens.push(t);
                },
            }
            proof {
                assert(spec_tokens(self.tokens@) =~= toks0 + spec_step(s, i0, l0).toks);
            }
        } else {
            self.add_token(TokenType::SyntaxErr(String::from_str("Invalid character")), start);
        }
        proof {
            assert(spec_tokens(self.tokens@) =~= toks0 + spec_step(s, i0, l0).toks);
        }
    }

    /// Scans the remaining text into tokens and closes the stream with the
    /// end-of-stream token, as `spec_scan_from` describes. On a fresh
    /// scanner this yields exactly `spec_scan` of the source.
    pub fn scan_tokens(&mut self)
        requires
            old(self).wf(),
        ensures
            final(self).wf(),
            final(self).source == old(self).source,
            spec_tokens(final(self).tokens@) == spec_tokens(old(self).tokens@) + spec_scan_from(
                old(self).source@,
                old(self).spec_current(),
                old(self).spec_line(),
            ),
            final(self).spec_current() == old(self).source@.len(),
    {
        let ghost s = self.source@;
        let ghost i0 = self.spec_current();
        let ghost l0 = self.spec_line();
        let ghost toks0 = spec_tokens(self.tokens@);
        while self.current < self.source.len()
            invariant
                self.wf(),
                self.source == old(self).source,
                self.source@ == s,
                toks0 + spec_scan_from(s, i0, l0) == spec_tokens(self.tokens@) + spec_scan_from(
                    s,
                    self.spec_current(),
                    self.spec_line(),
                ),
            decreases s.len() - self.spec_current(),
        {
            self.scan_token();
        }
        let t = Token { kind: TokenType::EOF, lexeme: String::new(), line: self.line };
        self.tokens.push(t);
        proof {
            assert(spec_scan_from(s, self.spec_current(), self.spec_line()) =~= seq![
                spec_eof_token(self.spec_line()),
            ]);
            assert(spec_tokens(self.tokens@) =~= toks0 + spec_scan_from(s, i0, l0));
        }
    }
}

} // verus!
