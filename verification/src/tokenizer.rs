//! Tokens and the lexer.
//!
//! The parser consumes an ordered, randomly peekable sequence of tokens,
//! each tagged with the source line it appeared on.  `tokenize` produces
//! that sequence from raw characters, skipping whitespace and comments.

use vstd::prelude::*;

verus! {

/// The reserved words of the language.
#[derive(Clone, Copy, PartialEq, Eq, Structural, Debug)]
pub enum Keywords {
    Class,
    Constructor,
    Function,
    Method,
    Field,
    Static,
    Var,
    Int,
    Char,
    Boolean,
    Void,
    True,
    False,
    Null,
    This,
    Let,
    Do,
    If,
    While,
    Else,
    Return,
}

/// The punctuation and operator symbols.
#[derive(Clone, Copy, PartialEq, Eq, Structural, Debug)]
pub enum Symbols {
    LeftCurly,
    RightCurly,
    LeftSquare,
    RightSquare,
    LeftParen,
    RightParen,
    Dot,
    Comma,
    SemiColon,
    Plus,
    Minus,
    Mult,
    Div,
    And,
    Or,
    Lt,
    Gt,
    Equal,
    Not,
}

/// One lexical token: a keyword, a symbol, an integer literal in
/// `0..=32767`, a string literal, or an identifier.
#[derive(PartialEq, Eq, Debug)]
pub enum Token {
    Keywords(Keywords),
    Symbols(Symbols),
    Integer(u16),
    StringLit(String),
    Identifier(String),
}

/// A value tagged with the source line it came from.
#[derive(PartialEq, Eq, Debug)]
pub struct Line<T> {
    pub inner: T,
    pub line: usize,
}

impl<T> Line<T> {
    pub fn new(inner: T, line: usize) -> (r: Line<T>)
        ensures
            r.inner == inner,
            r.line == line,
    {
        Line { inner, line }
    }
}

impl Token {
    /// A structurally equal copy.
    pub fn dup(&self) -> (r: Token)
        ensures
            r == *self,
    {
        match self {
            Token::Keywords(k) => Token::Keywords(*k),
            Token::Symbols(s) => Token::Symbols(*s),
            Token::Integer(n) => Token::Integer(*n),
            Token::StringLit(s) => Token::StringLit(s.clone()),
            Token::Identifier(s) => Token::Identifier(s.clone()),
        }
    }
}

/// The token stream: a consume-once cursor over a token vector, with
/// unbounded lookahead.
pub struct Tokens {
    pub tokens: Vec<Line<Token>>,
    pub idx: usize,
}

impl Tokens {
    pub fn new(tokens: Vec<Line<Token>>) -> (r: Tokens)
        ensures
            r.tokens == tokens,
            r.idx == 0,
    {
        Tokens { tokens, idx: 0 }
    }

    /// Consume and return the next token, if any.
    pub fn pop(&mut self) -> (r: Option<Line<Token>>)
        requires
            old(self).idx < usize::MAX,
        ensures
            final(self).tokens == old(self).tokens,
            final(self).idx == old(self).idx + 1,
            old(self).idx < old(self).tokens@.len() ==> (r matches Some(t) && t == old(
                self,
            ).tokens@[old(self).idx as int]),
            old(self).idx >= old(self).tokens@.len() ==> r is None,
    {
        let r = if self.idx < self.tokens.len() {
            let t = &self.tokens[self.idx];
            Some(Line { inner: t.inner.dup(), line: t.line })
        } else {
            None
        };
        self.idx = self.idx + 1;
        r
    }

    /// Look `ith` tokens past the cursor without consuming.
    pub fn peek(&self, ith: usize) -> (r: Option<&Line<Token>>)
        ensures
            self.idx + ith < self.tokens@.len() ==> (r matches Some(t) && *t == self.tokens@[self.idx + ith]),
            self.idx + ith >= self.tokens@.len() ==> r is None,
    {
        if ith < self.tokens.len() && self.idx < self.tokens.len() - ith {
            Some(&self.tokens[self.idx + ith])
        } else {
            None
        }
    }
}


// ---------------------------------------------------------------------
// Twins and views.
// ---------------------------------------------------------------------

/// Mathematical twin of `Token`.
pub enum TokV {
    Keyword(Keywords),
    Symbol(Symbols),
    Integer(u16),
    StringLit(Seq<char>),
    Identifier(Seq<char>),
}

/// Mathematical twin of `Line<Token>`.
pub struct LineTokV {
    pub token: TokV,
    pub line: int,
}

pub open spec fn view_token(t: Token) -> TokV {
    match t {
        Token::Keywords(k) => TokV::Keyword(k),
        Token::Symbols(sy) => TokV::Symbol(sy),
        Token::Integer(n) => TokV::Integer(n),
        Token::StringLit(st) => TokV::StringLit(st@),
        Token::Identifier(id) => TokV::Identifier(id@),
    }
}

pub open spec fn view_line_token(t: Line<Token>) -> LineTokV {
    LineTokV { token: view_token(t.inner), line: t.line as int }
}

pub open spec fn view_line_tokens(ts: Seq<Line<Token>>) -> Seq<LineTokV> {
    ts.map(|i: int, t: Line<Token>| view_line_token(t))
}

// ---------------------------------------------------------------------
// Character classes and runs.
// ---------------------------------------------------------------------

pub open spec fn is_digit(c: char) -> bool {
    '0' <= c && c <= '9'
}

pub open spec fn is_ws(c: char) -> bool {
    c == ' ' || c == '\t' || c == '\r' || c == '\n' || c == '\u{b}' || c == '\u{c}'
}

pub open spec fn is_ident_char(c: char) -> bool {
    ('a' <= c && c <= 'z') || ('A' <= c && c <= 'Z') || is_digit(c) || c == '_'
}

/// Length of the run of characters satisfying `f`, starting at `i`.
pub open spec fn run_len(chars: Seq<char>, i: int, f: spec_fn(char) -> bool) -> int
    decreases chars.len() - i,
{
    if 0 <= i < chars.len() && f(chars[i]) {
        1 + run_len(chars, i + 1, f)
    } else {
        0
    }
}

proof fn lemma_run_len_bounds(chars: Seq<char>, i: int, f: spec_fn(char) -> bool)
    requires
        0 <= i <= chars.len(),
    ensures
        0 <= run_len(chars, i, f) <= chars.len() - i,
        forall|k: int| i <= k < i + run_len(chars, i, f) ==> f(#[trigger] chars[k]),
        i + run_len(chars, i, f) < chars.len() ==> !f(chars[i + run_len(chars, i, f)]),
    decreases chars.len() - i,
{
    if 0 <= i < chars.len() && f(chars[i]) {
        lemma_run_len_bounds(chars, i + 1, f);
    }
}

/// Scan the run of characters satisfying the digit class.
fn scan_run(chars: &Vec<char>, i: usize, kind: u8) -> (r: usize)
    requires
        i <= chars@.len(),
        kind == 0 || kind == 1 || kind == 2 || kind == 3,
    ensures
        r as int == run_len(
            chars@,
            i as int,
            if kind == 0 {
                |c: char| is_digit(c)
            } else if kind == 1 {
                |c: char| is_ident_char(c)
            } else if kind == 2 {
                |c: char| c != '\n' && c != '"'
            } else {
                |c: char| c != '\n'
            },
        ),
        i + r <= chars@.len(),
{
    let ghost f: spec_fn(char) -> bool = if kind == 0 {
        |c: char| is_digit(c)
    } else if kind == 1 {
        |c: char| is_ident_char(c)
    } else if kind == 2 {
        |c: char| c != '\n' && c != '"'
    } else {
        |c: char| c != '\n'
    };
    let n = chars.len();
    let mut j = i;
    while j < n
        invariant
            i <= j <= n,
            n == chars@.len(),
            kind == 0 || kind == 1 || kind == 2 || kind == 3,
            f == (if kind == 0 {
                |c: char| is_digit(c)
            } else if kind == 1 {
                |c: char| is_ident_char(c)
            } else if kind == 2 {
                |c: char| c != '\n' && c != '"'
            } else {
                |c: char| c != '\n'
            }),
            run_len(chars@, i as int, f) == (j - i) + run_len(chars@, j as int, f),
            forall|k: int| i <= k < j ==> f(#[trigger] chars@[k]),
        decreases n - j,
    {
        let c = chars[j];
        let matches_class = if kind == 0 {
            c >= '0' && c <= '9'
        } else if kind == 1 {
            (c >= 'a' && c <= 'z') || (c >= 'A' && c <= 'Z') || (c >= '0' && c <= '9') || c == '_'
        } else if kind == 2 {
            c != '\n' && c != '"'
        } else {
            c != '\n'
        };
        if !matches_class {
            proof {
                assert(!f(chars@[j as int]));
            }
            return j - i;
        }
        proof {
            assert(f(chars@[j as int]));
        }
        j = j + 1;
    }
    proof {
        assert(run_len(chars@, n as int, f) == 0);
    }
    n - i
}

/// Number of newline characters in the sequence.
pub open spec fn count_newlines(s: Seq<char>) -> int
    decreases s.len(),
{
    if s.len() == 0 {
        0
    } else {
        count_newlines(s.drop_last()) + if s.last() == '\n' {
            1int
        } else {
            0int
        }
    }
}

/// Index of the first `*/` at or after `k`.
pub open spec fn find_close(chars: Seq<char>, k: int) -> Option<int>
    decreases chars.len() - k,
{
    if k < 0 || k + 1 >= chars.len() {
        None
    } else if chars[k] == '*' && chars[k + 1] == '/' {
        Some(k)
    } else {
        find_close(chars, k + 1)
    }
}

/// The symbol a single character denotes, if any.
pub open spec fn symbol_of(c: char) -> Option<Symbols> {
    if c == '{' {
        Some(Symbols::LeftCurly)
    } else if c == '}' {
        Some(Symbols::RightCurly)
    } else if c == '[' {
        Some(Symbols::LeftSquare)
    } else if c == ']' {
        Some(Symbols::RightSquare)
    } else if c == '(' {
        Some(Symbols::LeftParen)
    } else if c == ')' {
        Some(Symbols::RightParen)
    } else if c == '.' {
        Some(Symbols::Dot)
    } else if c == ',' {
        Some(Symbols::Comma)
    } else if c == ';' {
        Some(Symbols::SemiColon)
    } else if c == '+' {
        Some(Symbols::Plus)
    } else if c == '-' {
        Some(Symbols::Minus)
    } else if c == '*' {
        Some(Symbols::Mult)
    } else if c == '/' {
        Some(Symbols::Div)
    } else if c == '&' {
        Some(Symbols::And)
    } else if c == '|' {
        Some(Symbols::Or)
    } else if c == '<' {
        Some(Symbols::Lt)
    } else if c == '>' {
        Some(Symbols::Gt)
    } else if c == '=' {
        Some(Symbols::Equal)
    } else if c == '~' {
        Some(Symbols::Not)
    } else {
        None
    }
}

/// The keyword a name denotes, if any.
pub open spec fn keyword_of(s: Seq<char>) -> Option<Keywords> {
    if s == "class"@ {
        Some(Keywords::Class)
    } else if s == "constructor"@ {
        Some(Keywords::Constructor)
    } else if s == "function"@ {
        Some(Keywords::Function)
    } else if s == "method"@ {
        Some(Keywords::Method)
    } else if s == "field"@ {
        Some(Keywords::Field)
    } else if s == "static"@ {
        Some(Keywords::Static)
    } else if s == "var"@ {
        Some(Keywords::Var)
    } else if s == "int"@ {
        Some(Keywords::Int)
    } else if s == "char"@ {
        Some(Keywords::Char)
    } else if s == "boolean"@ {
        Some(Keywords::Boolean)
    } else if s == "void"@ {
        Some(Keywords::Void)
    } else if s == "true"@ {
        Some(Keywords::True)
    } else if s == "false"@ {
        Some(Keywords::False)
    } else if s == "null"@ {
        Some(Keywords::Null)
    } else if s == "this"@ {
        Some(Keywords::This)
    } else if s == "let"@ {
        Some(Keywords::Let)
    } else if s == "do"@ {
        Some(Keywords::Do)
    } else if s == "if"@ {
        Some(Keywords::If)
    } else if s == "while"@ {
        Some(Keywords::While)
    } else if s == "else"@ {
        Some(Keywords::Else)
    } else if s == "return"@ {
        Some(Keywords::Return)
    } else {
        None
    }
}

/// One token (or skipped stretch) of the stream, starting at `i` on
/// line `line`: the whole tokenization of the rest of the input.
pub open spec fn spec_tokenize(chars: Seq<char>, i: int, line: int) -> Option<Seq<LineTokV>>
    decreases chars.len() - i,
{
    if i < 0 || i >= chars.len() {
        Some(Seq::empty())
    } else {
        let c = chars[i];
        if is_ws(c) {
            spec_tokenize(chars, i + 1, line + if c == '\n' {
                1int
            } else {
                0int
            })
        } else if is_digit(c) {
            let cnt = run_len(chars, i, |c: char| is_digit(c));
            let val = crate::assembler::dec_val(chars.subrange(i, i + cnt));
            if 1 <= cnt && i + cnt <= chars.len() && val <= 32767 {
                match spec_tokenize(chars, i + cnt, line) {
                    Some(rest) => Some(
                        seq![LineTokV { token: TokV::Integer(val as u16), line }] + rest,
                    ),
                    None => None,
                }
            } else {
                None
            }
        } else if c == '/' && i + 1 < chars.len() && chars[i + 1] == '/' {
            let cnt = run_len(chars, i, |c: char| c != '\n');
            if 1 <= cnt && i + cnt <= chars.len() {
                spec_tokenize(chars, i + cnt, line)
            } else {
                None
            }
        } else if c == '/' && i + 1 < chars.len() && chars[i + 1] == '*' {
            match find_close(chars, i + 2) {
                Some(j) => if i < j + 2 && j + 2 <= chars.len() {
                    spec_tokenize(chars, j + 2, line + count_newlines(chars.subrange(i + 2, j)))
                } else {
                    None
                },
                None => None,
            }
        } else if c == '"' {
            let cnt = run_len(chars, i + 1, |c: char| c != '\n' && c != '"');
            if 0 <= cnt && i + 1 + cnt < chars.len() && chars[i + 1 + cnt] == '"' {
                match spec_tokenize(chars, i + cnt + 2, line) {
                    Some(rest) => Some(
                        seq![
                            LineTokV {
                                token: TokV::StringLit(chars.subrange(i + 1, i + 1 + cnt)),
                                line,
                            },
                        ] + rest,
                    ),
                    None => None,
                }
            } else {
                None
            }
        } else {
            match symbol_of(c) {
                Some(sym) => match spec_tokenize(chars, i + 1, line) {
                    Some(rest) => Some(
                        seq![LineTokV { token: TokV::Symbol(sym), line }] + rest,
                    ),
                    None => None,
                },
                None => {
                    let cnt = run_len(chars, i, |c: char| is_ident_char(c));
                    if 1 <= cnt && i + cnt <= chars.len() {
                        let name = chars.subrange(i, i + cnt);
                        let tok = match keyword_of(name) {
                            Some(k) => TokV::Keyword(k),
                            None => TokV::Identifier(name),
                        };
                        match spec_tokenize(chars, i + cnt, line) {
                            Some(rest) => Some(seq![LineTokV { token: tok, line }] + rest),
                            None => None,
                        }
                    } else {
                        None
                    }
                },
            }
        }
    }
}

// ---------------------------------------------------------------------
// Executable lexing.
// ---------------------------------------------------------------------

/// Relies on `String::push`: appends exactly the one character.
#[verifier::external_body]
fn push_char(s: &mut String, c: char)
    ensures
        final(s)@ == old(s)@.push(c),
{
    s.push(c);
}

/// The characters `[lo, hi)` as a fresh string.
fn chars_to_string(chars: &Vec<char>, lo: usize, hi: usize) -> (r: String)
    requires
        lo <= hi <= chars@.len(),
    ensures
        r@ == chars@.subrange(lo as int, hi as int),
{
    let mut s = String::new();
    let mut k = lo;
    proof {
        assert(s@ =~= chars@.subrange(lo as int, lo as int));
    }
    while k < hi
        invariant
            lo <= k <= hi <= chars@.len(),
            s@ == chars@.subrange(lo as int, k as int),
        decreases hi - k,
    {
        push_char(&mut s, chars[k]);
        proof {
            assert(s@ =~= chars@.subrange(lo as int, k + 1));
        }
        k = k + 1;
    }
    s
}

/// Find the first `*/` at or after `k`.
fn find_close_vec(chars: &Vec<char>, k: usize) -> (r: Option<usize>)
    requires
        k <= chars@.len(),
    ensures
        match r {
            Some(j) => find_close(chars@, k as int) == Some(j as int) && k <= j && j + 1
                < chars@.len(),
            None => find_close(chars@, k as int) is None,
        },
{
    let n = chars.len();
    let mut j = k;
    while j < n && j + 1 < n
        invariant
            k <= j,
            j <= n,
            n == chars@.len(),
            find_close(chars@, k as int) == find_close(chars@, j as int),
        decreases n - j,
    {
        if chars[j] == '*' && chars[j + 1] == '/' {
            return Some(j);
        }
        j = j + 1;
    }
    None
}

/// Count newlines in `[lo, hi)`.
fn count_newlines_range(chars: &Vec<char>, lo: usize, hi: usize) -> (r: usize)
    requires
        lo <= hi <= chars@.len(),
    ensures
        r as int == count_newlines(chars@.subrange(lo as int, hi as int)),
        r <= hi - lo,
{
    let mut cnt: usize = 0;
    let mut k = lo;
    proof {
        assert(chars@.subrange(lo as int, lo as int) =~= Seq::<char>::empty());
    }
    while k < hi
        invariant
            lo <= k <= hi <= chars@.len(),
            cnt as int == count_newlines(chars@.subrange(lo as int, k as int)),
            cnt <= k - lo,
        decreases hi - k,
    {
        proof {
            assert(chars@.subrange(lo as int, k + 1).drop_last() =~= chars@.subrange(
                lo as int,
                k as int,
            ));
            assert(chars@.subrange(lo as int, k + 1).last() == chars@[k as int]);
        }
        if chars[k] == '\n' {
            cnt = cnt + 1;
        }
        k = k + 1;
    }
    cnt
}

/// The symbol a character denotes, if any.
fn get_symbol_token(c: char) -> (r: Option<Symbols>)
    ensures
        r == symbol_of(c),
{
    if c == '{' {
        Some(Symbols::LeftCurly)
    } else if c == '}' {
        Some(Symbols::RightCurly)
    } else if c == '[' {
        Some(Symbols::LeftSquare)
    } else if c == ']' {
        Some(Symbols::RightSquare)
    } else if c == '(' {
        Some(Symbols::LeftParen)
    } else if c == ')' {
        Some(Symbols::RightParen)
    } else if c == '.' {
        Some(Symbols::Dot)
    } else if c == ',' {
        Some(Symbols::Comma)
    } else if c == ';' {
        Some(Symbols::SemiColon)
    } else if c == '+' {
        Some(Symbols::Plus)
    } else if c == '-' {
        Some(Symbols::Minus)
    } else if c == '*' {
        Some(Symbols::Mult)
    } else if c == '/' {
        Some(Symbols::Div)
    } else if c == '&' {
        Some(Symbols::And)
    } else if c == '|' {
        Some(Symbols::Or)
    } else if c == '<' {
        Some(Symbols::Lt)
    } else if c == '>' {
        Some(Symbols::Gt)
    } else if c == '=' {
        Some(Symbols::Equal)
    } else if c == '~' {
        Some(Symbols::Not)
    } else {
        None
    }
}

/// The keyword a name denotes, if any.
fn get_keyword_token(s: &str) -> (r: Option<Keywords>)
    ensures
        r == keyword_of(s@),
{
    if crate::text::str_eq(s, "class") {
        Some(Keywords::Class)
    } else if crate::text::str_eq(s, "constructor") {
        Some(Keywords::Constructor)
    } else if crate::text::str_eq(s, "function") {
        Some(Keywords::Function)
    } else if crate::text::str_eq(s, "method") {
        Some(Keywords::Method)
    } else if crate::text::str_eq(s, "field") {
        Some(Keywords::Field)
    } else if crate::text::str_eq(s, "static") {
        Some(Keywords::Static)
    } else if crate::text::str_eq(s, "var") {
        Some(Keywords::Var)
    } else if crate::text::str_eq(s, "int") {
        Some(Keywords::Int)
    } else if crate::text::str_eq(s, "char") {
        Some(Keywords::Char)
    } else if crate::text::str_eq(s, "boolean") {
        Some(Keywords::Boolean)
    } else if crate::text::str_eq(s, "void") {
        Some(Keywords::Void)
    } else if crate::text::str_eq(s, "true") {
        Some(Keywords::True)
    } else if crate::text::str_eq(s, "false") {
        Some(Keywords::False)
    } else if crate::text::str_eq(s, "null") {
        Some(Keywords::Null)
    } else if crate::text::str_eq(s, "this") {
        Some(Keywords::This)
    } else if crate::text::str_eq(s, "let") {
        Some(Keywords::Let)
    } else if crate::text::str_eq(s, "do") {
        Some(Keywords::Do)
    } else if crate::text::str_eq(s, "if") {
        Some(Keywords::If)
    } else if crate::text::str_eq(s, "while") {
        Some(Keywords::While)
    } else if crate::text::str_eq(s, "else") {
        Some(Keywords::Else)
    } else if crate::text::str_eq(s, "return") {
        Some(Keywords::Return)
    } else {
        None
    }
}

/// Read the digit run at `i` as an integer literal; the grammar caps
/// integer literals at 32767.
pub fn process_ascii_digit(chars: &Vec<char>, i: usize) -> (r: Option<(usize, u16)>)
    requires
        i < chars@.len(),
        is_digit(chars@[i as int]),
    ensures
        ({
            let cnt = run_len(chars@, i as int, |c: char| is_digit(c));
            let val = crate::assembler::dec_val(chars@.subrange(i as int, i + cnt));
            match r {
                Some((adv, v)) => adv as int == cnt && val <= 32767 && v as int == val && 1 <= cnt
                    && i + cnt <= chars@.len(),
                None => val > 32767,
            }
        }),
{
    let n = chars.len();
    proof {
        assert(n == chars@.len());
    }
    let cnt = scan_run(chars, i, 0);
    let ghost f: spec_fn(char) -> bool = |c: char| is_digit(c);
    let ghost digits = chars@.subrange(i as int, i + cnt);
    proof {
        lemma_run_len_bounds(chars@, i as int, f);
        assert(forall|k: int| 0 <= k < digits.len() ==> is_digit(#[trigger] digits[k]));
    }
    let mut val: u32 = 0;
    let mut k = i;
    proof {
        assert(digits.take(0) =~= Seq::<char>::empty());
    }
    while k < i + cnt
        invariant
            i <= k <= i + cnt,
            i + cnt <= chars@.len(),
            chars@.len() <= usize::MAX,
            cnt as int == run_len(chars@, i as int, f),
            f == (|c: char| is_digit(c)),
            digits == chars@.subrange(i as int, i + cnt),
            digits.len() == cnt,
            forall|m: int| 0 <= m < digits.len() ==> is_digit(#[trigger] digits[m]),
            val as int == crate::assembler::dec_val(digits.take(k - i)),
            val <= 32767,
        decreases i + cnt - k,
    {
        let c = chars[k];
        proof {
            assert(digits.take(k - i + 1).drop_last() =~= digits.take(k - i));
            assert(digits.take(k - i + 1).last() == digits[k - i]);
            assert(digits[k - i] == chars@[k as int]);
        }
        let d = (c as u32) - ('0' as u32);
        proof {
            assert(is_digit(chars@[k as int]));
        }
        let next = val * 10 + d;
        if next > 32767 {
            proof {
                assert(crate::assembler::dec_val(digits.take(k - i + 1)) > 32767);
                crate::assembler::lemma_dec_val_mono(digits, k - i + 1);
            }
            return None;
        }
        val = next;
        k = k + 1;
    }
    proof {
        assert(digits.take(cnt as int) =~= digits);
    }
    Some((cnt, val as u16))
}

/// Length of a `//` comment: everything up to the newline.
pub fn process_single_line_comment(chars: &Vec<char>, i: usize) -> (r: usize)
    requires
        i <= chars@.len(),
    ensures
        r as int == run_len(chars@, i as int, |c: char| c != '\n'),
        i + r <= chars@.len(),
{
    scan_run(chars, i, 3)
}

/// Length of a `/* ... */` comment and the newlines it spans, or
/// nothing when it is unterminated.
pub fn process_multi_line_comment(chars: &Vec<char>, i: usize) -> (r: Option<(usize, usize)>)
    requires
        i + 2 <= chars@.len(),
    ensures
        match r {
            Some((adv, nl)) => ({
                &&& find_close(chars@, i + 2) is Some
                &&& adv as int == find_close(chars@, i + 2).unwrap() + 2 - i
                &&& 4 <= adv
                &&& i + adv <= chars@.len()
                &&& nl as int == count_newlines(chars@.subrange(i + 2, i + adv - 2))
                &&& nl as int <= adv
            }),
            None => find_close(chars@, i + 2) is None,
        },
{
    let n = chars.len();
    proof {
        assert(n == chars@.len());
    }
    match find_close_vec(chars, i + 2) {
        Some(j) => {
            let nl = count_newlines_range(chars, i + 2, j);
            Some((j + 2 - i, nl))
        },
        None => None,
    }
}

/// The string literal starting at the quote `i`, or nothing when it is
/// unterminated.
pub fn process_strings(chars: &Vec<char>, i: usize) -> (r: Option<(usize, String)>)
    requires
        i < chars@.len(),
    ensures
        ({
            let cnt = run_len(chars@, i + 1, |c: char| c != '\n' && c != '"');
            match r {
                Some((adv, st)) => adv as int == cnt + 2 && i + 1 + cnt < chars@.len()
                    && chars@[i + 1 + cnt] == '"' && st@ == chars@.subrange(i + 1, i + 1 + cnt),
                None => !(i + 1 + cnt < chars@.len() && chars@[i + 1 + cnt] == '"'),
            }
        }),
{
    let n = chars.len();
    proof {
        assert(n == chars@.len());
    }
    let cnt = scan_run(chars, i + 1, 2);
    let ghost f: spec_fn(char) -> bool = |c: char| c != '\n' && c != '"';
    proof {
        lemma_run_len_bounds(chars@, i + 1, f);
    }
    if i + 1 + cnt < chars.len() && chars[i + 1 + cnt] == '"' {
        let st = chars_to_string(chars, i + 1, i + 1 + cnt);
        Some((cnt + 2, st))
    } else {
        None
    }
}

/// The identifier or keyword run starting at `i`.
pub fn process_identifier(chars: &Vec<char>, i: usize) -> (r: (usize, String))
    requires
        i <= chars@.len(),
    ensures
        r.0 as int == run_len(chars@, i as int, |c: char| is_ident_char(c)),
        i + r.0 <= chars@.len(),
        r.1@ == chars@.subrange(i as int, i + r.0),
{
    let n = chars.len();
    proof {
        assert(n == chars@.len());
    }
    let cnt = scan_run(chars, i, 1);
    let st = chars_to_string(chars, i, i + cnt);
    (cnt, st)
}

proof fn lemma_view_line_tokens_push(ts: Seq<Line<Token>>, t: Line<Token>)
    ensures
        view_line_tokens(ts.push(t)) == view_line_tokens(ts).push(view_line_token(t)),
{
    assert(view_line_tokens(ts.push(t)) =~= view_line_tokens(ts).push(view_line_token(t)));
}

/// Tokenize a character stream: skip whitespace and comments, and tag
/// every token with the source line it starts on.
#[verifier::rlimit(100)]
pub fn tokenize(chars: &Vec<char>) -> (r: Result<Tokens, crate::errors::SyntaxError>)
    requires
        chars@.len() < usize::MAX,
    ensures
        match r {
            Ok(t) => spec_tokenize(chars@, 0, 1) == Some(view_line_tokens(t.tokens@)) && t.idx
                == 0,
            Err(_) => spec_tokenize(chars@, 0, 1) is None,
        },
{
    let mut tokens: Vec<Line<Token>> = Vec::new();
    let mut line: usize = 1;
    let mut idx: usize = 0;
    let n = chars.len();
    proof {
        assert(view_line_tokens(tokens@) =~= Seq::<LineTokV>::empty());
        match spec_tokenize(chars@, 0, 1) {
            Some(rest) => {
                assert(view_line_tokens(tokens@) + rest =~= rest);
            },
            None => {},
        }
    }
    while idx < n
        invariant
            idx <= n,
            n == chars@.len(),
            n < usize::MAX,
            1 <= line,
            line <= 1 + idx,
            ({
                match spec_tokenize(chars@, idx as int, line as int) {
                    Some(rest) => spec_tokenize(chars@, 0, 1) == Some(
                        view_line_tokens(tokens@) + rest,
                    ),
                    None => spec_tokenize(chars@, 0, 1) is None,
                }
            }),
        decreases n - idx,
    {
        let c = chars[idx];
        if c == ' ' || c == '\t' || c == '\r' || c == '\n' || c == '\u{b}' || c == '\u{c}' {
            if c == '\n' {
                line = line + 1;
            }
            idx = idx + 1;
            continue;
        }
        if c >= '0' && c <= '9' {
            match process_ascii_digit(chars, idx) {
                Some((adv, val)) => {
                    let ghost pre = tokens@;
                    let tok = Line::new(Token::Integer(val), line);
                    let ghost tv = view_line_token(tok);
                    tokens.push(tok);
                    proof {
                        lemma_view_line_tokens_push(pre, tokens@.last());
                        match spec_tokenize(chars@, idx + adv, line as int) {
                            Some(r2) => {
                                assert(view_line_tokens(tokens@) + r2 =~= view_line_tokens(pre) + (
                                seq![tv] + r2));
                            },
                            None => {},
                        }
                    }
                    idx = idx + adv;
                },
                None => {
                    return Err(
                        crate::errors::SyntaxError::new(
                            line,
                            "number too large to fit in 0..32767",
                        ),
                    );
                },
            }
            continue;
        }
        if c == '/' && idx + 1 < n && chars[idx + 1] == '/' {
            let adv = process_single_line_comment(chars, idx);
            proof {
                lemma_run_len_bounds(chars@, idx as int, |c: char| c != '\n');
            }
            idx = idx + adv;
            continue;
        }
        if c == '/' && idx + 1 < n && chars[idx + 1] == '*' {
            match process_multi_line_comment(chars, idx) {
                Some((adv, nline)) => {
                    proof {
                        let j = find_close(chars@, idx + 2).unwrap();
                        assert(idx + adv == j + 2);
                        assert(idx + adv - 2 == j);
                    }
                    idx = idx + adv;
                    line = line + nline;
                },
                None => {
                    return Err(crate::errors::SyntaxError::new(line, "unterminated comment"));
                },
            }
            continue;
        }
        if c == '"' {
            proof {
                lemma_run_len_bounds(chars@, idx + 1, |c: char| c != '\n' && c != '"');
            }
            match process_strings(chars, idx) {
                Some((adv, st)) => {
                    let ghost pre = tokens@;
                    let tok = Line::new(Token::StringLit(st), line);
                    let ghost tv = view_line_token(tok);
                    tokens.push(tok);
                    proof {
                        lemma_view_line_tokens_push(pre, tokens@.last());
                        match spec_tokenize(chars@, idx + adv, line as int) {
                            Some(r2) => {
                                assert(view_line_tokens(tokens@) + r2 =~= view_line_tokens(pre) + (
                                seq![tv] + r2));
                            },
                            None => {},
                        }
                    }
                    idx = idx + adv;
                },
                None => {
                    return Err(
                        crate::errors::SyntaxError::new(line, "string does not end with `\"`"),
                    );
                },
            }
            continue;
        }
        match get_symbol_token(c) {
            Some(sym) => {
                let ghost pre = tokens@;
                let tok = Line::new(Token::Symbols(sym), line);
                let ghost tv = view_line_token(tok);
                tokens.push(tok);
                proof {
                    lemma_view_line_tokens_push(pre, tokens@.last());
                    match spec_tokenize(chars@, idx + 1, line as int) {
                        Some(r2) => {
                            assert(view_line_tokens(tokens@) + r2 =~= view_line_tokens(pre) + (
                            seq![tv] + r2));
                        },
                        None => {},
                    }
                }
                idx = idx + 1;
                continue;
            },
            None => {},
        }
        let (adv, identifier) = process_identifier(chars, idx);
        if adv == 0 {
            return Err(crate::errors::SyntaxError::new(line, "unexpected character"));
        }
        let ghost pre = tokens@;
        let tok = match get_keyword_token(identifier.as_str()) {
            Some(keyword) => Line::new(Token::Keywords(keyword), line),
            None => Line::new(Token::Identifier(identifier), line),
        };
        let ghost tv = view_line_token(tok);
        tokens.push(tok);
        proof {
            lemma_view_line_tokens_push(pre, tokens@.last());
            match spec_tokenize(chars@, idx + adv, line as int) {
                Some(r2) => {
                    assert(view_line_tokens(tokens@) + r2 =~= view_line_tokens(pre) + (seq![tv]
                        + r2));
                },
                None => {},
            }
        }
        idx = idx + adv;
    }
    proof {
        match spec_tokenize(chars@, idx as int, line as int) {
            Some(rest) => {
                assert(view_line_tokens(tokens@) + rest =~= view_line_tokens(tokens@));
            },
            None => {},
        }
    }
    Ok(Tokens::new(tokens))
}
} // verus!
