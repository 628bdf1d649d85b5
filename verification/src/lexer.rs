//! The tokenizer for the surface language.
//!
//! It turns source text into a token stream of identifiers, reserved words,
//! number literals and punctuation, each carrying its source location;
//! whitespace only separates tokens and tracks line boundaries.

use vstd::prelude::*;
use vstd::string::StringExecFns;

verus! {

/// A source span: first and last character position, inclusive.
#[derive(Debug, Clone, Copy, PartialEq, Eq, Structural)]
pub struct Loc(pub usize, pub usize);

impl Loc {
    pub fn new(start: usize, end: usize) -> (r: Loc)
        ensures
            r == (Loc(start, end)),
    {
        Loc(start, end)
    }

    /// The smallest span covering both spans.
    pub fn merge(self, other: Loc) -> (r: Loc)
        ensures
            r.0 == if self.0 <= other.0 {
                self.0
            } else {
                other.0
            },
            r.1 == if self.1 >= other.1 {
                self.1
            } else {
                other.1
            },
    {
        Loc(
            if self.0 <= other.0 {
                self.0
            } else {
                other.0
            },
            if self.1 >= other.1 {
                self.1
            } else {
                other.1
            },
        )
    }
}

#[derive(Debug, Clone, Copy, PartialEq, Eq, Structural)]
pub enum Error {
    EOF,
    UnexpectedChar,
    TooLargeNumber,
}

#[derive(Debug, Clone, Copy, PartialEq, Eq, Hash, Structural)]
pub enum Reserved {
    BEGIN,
    END,
    Alias,
    Begin,
    Break,
    Case,
    Class,
    Def,
    Defined,
    Do,
    Else,
    Elsif,
    End,
    False,
    If,
    Return,
    Then,
    True,
}

#[derive(Debug, Clone, PartialEq)]
pub enum TokenKind {
    Ident(String),
    NumLit(i64),
    Reserved(Reserved),
    Punct(char),
    Space,
    LineTerm,
}

/// A payload annotated with its source span.
#[derive(Debug, Clone, PartialEq)]
pub struct Annot<T> {
    pub value: T,
    pub loc: Loc,
}

impl<T> Annot<T> {
    pub fn new(value: T, loc: Loc) -> (r: Annot<T>)
        ensures
            r.value == value,
            r.loc == loc,
    {
        Annot { value, loc }
    }
}

pub type Token = Annot<TokenKind>;

impl Token {
    pub fn new_ident(ident: String, loc: Loc) -> (r: Token)
        ensures
            r.value == (TokenKind::Ident(ident)),
            r.loc == loc,
    {
        Annot::new(TokenKind::Ident(ident), loc)
    }

    pub fn new_reserved(ident: Reserved, loc: Loc) -> (r: Token)
        ensures
            r.value == (TokenKind::Reserved(ident)),
            r.loc == loc,
    {
        Annot::new(TokenKind::Reserved(ident), loc)
    }

    pub fn new_numlit(num: i64, loc: Loc) -> (r: Token)
        ensures
            r.value == (TokenKind::NumLit(num)),
            r.loc == loc,
    {
        Annot::new(TokenKind::NumLit(num), loc)
    }

    pub fn new_punct(ch: char, loc: Loc) -> (r: Token)
        ensures
            r.value == (TokenKind::Punct(ch)),
            r.loc == loc,
    {
        Annot::new(TokenKind::Punct(ch), loc)
    }

    pub fn new_space(loc: Loc) -> (r: Token)
        ensures
            r.value == (TokenKind::Space),
            r.loc == loc,
    {
        Annot::new(TokenKind::Space, loc)
    }

    pub fn new_line_term(loc: Loc) -> (r: Token)
        ensures
            r.value == (TokenKind::LineTerm),
            r.loc == loc,
    {
        Annot::new(TokenKind::LineTerm, loc)
    }

    pub fn loc(&self) -> (r: Loc)
        ensures
            r == self.loc,
    {
        self.loc
    }

    /// True of the end-of-line marker.
    pub fn is_line_term(&self) -> (r: bool)
        ensures
            r == (self.value matches TokenKind::LineTerm),
    {
        matches!(self.value, TokenKind::LineTerm)
    }

    /// True of statement terminators: an end of line or a semicolon.
    pub fn is_term(&self) -> (r: bool)
        ensures
            r == ((self.value matches TokenKind::LineTerm) || (self.value matches TokenKind::Punct(
                c,
            ) && c == ';')),
    {
        match &self.value {
            TokenKind::LineTerm => true,
            TokenKind::Punct(c) => *c == ';',
            _ => false,
        }
    }
}

// ---------------------------------------------------------------------------
// Character classes (ASCII).
// ---------------------------------------------------------------------------

pub open spec fn ch_is_alpha(c: char) -> bool {
    (65 <= c as u32 && c as u32 <= 90) || (97 <= c as u32 && c as u32 <= 122)
}

pub open spec fn ch_is_digit(c: char) -> bool {
    48 <= c as u32 && c as u32 <= 57
}

pub open spec fn ch_is_punct(c: char) -> bool {
    let u = c as u32;
    (0x21 <= u && u <= 0x2f) || (0x3a <= u && u <= 0x40) || (0x5b <= u && u <= 0x60) || (0x7b <= u
        && u <= 0x7e)
}

pub open spec fn ch_is_ws(c: char) -> bool {
    c == ' ' || c == '\t' || c == '\n' || c == '\r' || c as u32 == 0x0c
}

fn is_alpha(c: char) -> (r: bool)
    ensures
        r == ch_is_alpha(c),
{
    let u = c as u32;
    (65 <= u && u <= 90) || (97 <= u && u <= 122)
}

fn is_digit(c: char) -> (r: bool)
    ensures
        r == ch_is_digit(c),
{
    let u = c as u32;
    48 <= u && u <= 57
}

fn is_punct(c: char) -> (r: bool)
    ensures
        r == ch_is_punct(c),
{
    let u = c as u32;
    (0x21 <= u && u <= 0x2f) || (0x3a <= u && u <= 0x40) || (0x5b <= u && u <= 0x60) || (0x7b <= u
        && u <= 0x7e)
}

fn is_ws(c: char) -> (r: bool)
    ensures
        r == ch_is_ws(c),
{
    let u = c as u32;
    u == 0x20 || u == 0x09 || u == 0x0a || u == 0x0d || u == 0x0c
}

/// Relies on std's `String::push`: appends exactly the one character.
#[verifier::external_body]
fn string_push_char(s: &mut String, c: char)
    ensures
        final(s)@ == old(s)@.push(c),
{
    s.push(c)
}

// ---------------------------------------------------------------------------
// Reserved words.
// ---------------------------------------------------------------------------

pub open spec fn spec_reserved(s: Seq<char>) -> Option<Reserved> {
    if s == "BEGIN"@ {
        Some(Reserved::BEGIN)
    } else if s == "END"@ {
        Some(Reserved::END)
    } else if s == "alias"@ {
        Some(Reserved::Alias)
    } else if s == "begin"@ {
        Some(Reserved::Begin)
    } else if s == "break"@ {
        Some(Reserved::Break)
    } else if s == "case"@ {
        Some(Reserved::Case)
    } else if s == "class"@ {
        Some(Reserved::Class)
    } else if s == "def"@ {
        Some(Reserved::Def)
    } else if s == "defined?"@ {
        Some(Reserved::Defined)
    } else if s == "do"@ {
        Some(Reserved::Do)
    } else if s == "else"@ {
        Some(Reserved::Else)
    } else if s == "elsif"@ {
        Some(Reserved::Elsif)
    } else if s == "end"@ {
        Some(Reserved::End)
    } else if s == "false"@ {
        Some(Reserved::False)
    } else if s == "if"@ {
        Some(Reserved::If)
    } else if s == "return"@ {
        Some(Reserved::Return)
    } else if s == "then"@ {
        Some(Reserved::Then)
    } else if s == "true"@ {
        Some(Reserved::True)
    } else {
        None
    }
}

fn str_is(s: &String, lit: &str) -> (r: bool)
    ensures
        r == (s@ == lit@),
{
    let owned = String::from_str(lit);
    *s == owned
}

/// Looks a word up in the reserved-word table.
pub fn reserved_of(s: &String) -> (r: Option<Reserved>)
    ensures
        r == spec_reserved(s@),
{
    if str_is(s, "BEGIN") {
        Some(Reserved::BEGIN)
    } else if str_is(s, "END") {
        Some(Reserved::END)
    } else if str_is(s, "alias") {
        Some(Reserved::Alias)
    } else if str_is(s, "begin") {
        Some(Reserved::Begin)
    } else if str_is(s, "break") {
        Some(Reserved::Break)
    } else if str_is(s, "case") {
        Some(Reserved::Case)
    } else if str_is(s, "class") {
        Some(Reserved::Class)
    } else if str_is(s, "def") {
        Some(Reserved::Def)
    } else if str_is(s, "defined?") {
        Some(Reserved::Defined)
    } else if str_is(s, "do") {
        Some(Reserved::Do)
    } else if str_is(s, "else") {
        Some(Reserved::Else)
    } else if str_is(s, "elsif") {
        Some(Reserved::Elsif)
    } else if str_is(s, "end") {
        Some(Reserved::End)
    } else if str_is(s, "false") {
        Some(Reserved::False)
    } else if str_is(s, "if") {
        Some(Reserved::If)
    } else if str_is(s, "return") {
        Some(Reserved::Return)
    } else if str_is(s, "then") {
        Some(Reserved::Then)
    } else if str_is(s, "true") {
        Some(Reserved::True)
    } else {
        None
    }
}

// ---------------------------------------------------------------------------
// The lexer.
// ---------------------------------------------------------------------------

/// A token's span lies inside the source text and is well-ordered.
pub open spec fn token_in_bounds(t: Token, len: nat) -> bool {
    t.loc.0 <= t.loc.1 < len
}

#[derive(Debug, Clone)]
pub struct Lexer {
    pub code: Vec<char>,
    pub len: usize,
    pub line_top_pos: usize,
    pub pos: usize,
    pub line: usize,
    pub line_pos: Vec<(usize, usize, usize)>,  // (line_no, line_top_pos, line_end_pos)
}

impl Lexer {
    pub open spec fn wf(self) -> bool {
        &&& self.len == self.code@.len()
        &&& self.pos <= self.len
    }

    pub fn new(code_text: &str) -> (r: Lexer)
        ensures
            r.wf(),
            r.code@ == code_text@,
            r.pos == 0,
            r.line == 1,
            r.line_pos@.len() == 0,
            r.line_top_pos == 0,
    {
        let mut code: Vec<char> = Vec::new();
        for c in it: code_text.chars()
            invariant
                code@ == it.seq().take(it.index() as int),
                it.seq() == code_text@,
        {
            code.push(c);
        }
        proof {
            assert(code@ =~= code_text@);
        }
        let len = code.len();
        Lexer { code, len, line_top_pos: 0, pos: 0, line: 1, line_pos: Vec::new() }
    }

    fn get(&mut self) -> (r: Result<char, Error>)
        requires
            old(self).wf(),
        ensures
            final(self).wf(),
            final(self).code == old(self).code,
            final(self).len == old(self).len,
            final(self).line_pos == old(self).line_pos,
            match r {
                Ok(c) => final(self).pos == old(self).pos + 1 && c == old(self).code@[old(
                    self,
                ).pos as int],
                Err(_) => final(self).pos == old(self).pos && old(self).pos >= old(self).len,
            },
    {
        if self.pos >= self.len {
            Err(Error::EOF)
        } else {
            let ch = self.code[self.pos];
            if ch == '\n' {
                self.line = self.line.saturating_add(1);
            }
            self.pos += 1;
            Ok(ch)
        }
    }

    fn peek(&self) -> (r: Result<char, Error>)
        requires
            self.wf(),
        ensures
            match r {
                Ok(c) => self.pos < self.len && c == self.code@[self.pos as int],
                Err(_) => self.pos >= self.len,
            },
    {
        if self.pos >= self.len {
            Err(Error::EOF)
        } else {
            Ok(self.code[self.pos])
        }
    }

    /// Skips a whitespace run, recording line boundaries; hands back a
    /// single marker token for the run: an end-of-line marker if one was
    /// crossed, otherwise a space marker.
    fn skip_whitespace(&mut self) -> (r: Option<Token>)
        requires
            old(self).wf(),
        ensures
            final(self).wf(),
            final(self).code == old(self).code,
            final(self).len == old(self).len,
            final(self).pos >= old(self).pos,
            match r {
                Some(t) => token_in_bounds(t, final(self).len as nat),
                None => true,
            },
    {
        let mut res: Option<Token> = None;
        let mut p = self.pos;
        while p < self.len
            invariant
                self.wf(),
                self.code == old(self).code,
                self.len == old(self).len,
                self.pos == old(self).pos,
                old(self).pos <= p,
                p <= self.len,
                match res {
                    Some(t) => token_in_bounds(t, self.len as nat),
                    None => true,
                },
            decreases self.len - p,
        {
            let ch = self.code[p];
            if ch == '\n' {
                self.line_pos.push((self.line, self.line_top_pos, p));
                self.line = self.line.saturating_add(1);
                self.line_top_pos = p + 1;
                res = Some(Token::new_line_term(Loc(p, p)));
            } else if !is_ws(ch) {
                self.pos = p;
                return res;
            } else if res.is_none() {
                res = Some(Token::new_space(Loc(p, p)));
            }
            p += 1;
        }
        self.pos = self.len;
        self.line_pos.push((self.line, self.line_top_pos, self.pos));
        res
    }

    /// Tokenizes the whole source text.  Every produced token carries a
    /// span that lies inside the text, and the spans come in strictly
    /// increasing source order, without overlaps.
    pub fn tokenize(&mut self) -> (r: Result<Vec<Token>, Error>)
        requires
            old(self).wf(),
        ensures
            final(self).wf(),
            final(self).code == old(self).code,
            match r {
                Ok(tokens) => {
                    &&& forall|i: int|
                        0 <= i < tokens@.len() ==> token_in_bounds(
                            #[trigger] tokens@[i],
                            old(self).code@.len(),
                        )
                    &&& forall|i: int, j: int|
                        0 <= i < j < tokens@.len() ==> tokens@[i].loc.1 < tokens@[j].loc.0
                },
                Err(_) => true,
            },
    {
        let mut tokens: Vec<Token> = Vec::new();
        loop
            invariant
                self.wf(),
                self.code == old(self).code,
                self.len == old(self).len,
                forall|i: int|
                    0 <= i < tokens@.len() ==> token_in_bounds(
                        #[trigger] tokens@[i],
                        self.len as nat,
                    ),
                forall|i: int| 0 <= i < tokens@.len() ==> (#[trigger] tokens@[i]).loc.1 < self.pos,
                forall|i: int, j: int|
                    0 <= i < j < tokens@.len() ==> tokens@[i].loc.1 < tokens@[j].loc.0,
            decreases self.len - self.pos,
        {
            // the whitespace marker is tracked for line accounting but is
            // not part of the token stream
            let _ = self.skip_whitespace();
            let start_pos = self.pos;
            let ch = match self.get() {
                Ok(ch) => ch,
                Err(_) => { break },
            };
            let token: Token;
            if is_alpha(ch) || ch == '_' {
                // read an identifier or a reserved word
                let mut tok = String::new();
                string_push_char(&mut tok, ch);
                loop
                    invariant
                        self.wf(),
                        self.code == old(self).code,
                        self.len == old(self).len,
                        start_pos < self.pos,
                        self.pos <= self.len,
                    decreases self.len - self.pos,
                {
                    let c = match self.peek() {
                        Ok(c) => c,
                        Err(_) => { break },
                    };
                    if is_alpha(c) || is_digit(c) || c == '_' {
                        match self.get() {
                            Ok(c2) => string_push_char(&mut tok, c2),
                            Err(_) => { break },
                        }
                    } else {
                        break ;
                    }
                }
                let loc = Loc(start_pos, self.pos - 1);
                token = match reserved_of(&tok) {
                    Some(reserved) => Token::new_reserved(reserved, loc),
                    None => Token::new_ident(tok, loc),
                };
            } else if is_digit(ch) {
                // read a number literal; `_` separators are skipped
                let mut val: i64 = (ch as u32 as i64) - 48;
                loop
                    invariant
                        self.wf(),
                        self.code == old(self).code,
                        self.len == old(self).len,
                        start_pos < self.pos,
                        self.pos <= self.len,
                        0 <= val,
                    decreases self.len - self.pos,
                {
                    let c = match self.peek() {
                        Ok(c) => c,
                        Err(_) => { break },
                    };
                    if is_digit(c) {
                        let d = (c as u32 as i64) - 48;
                        let shifted = match val.checked_mul(10) {
                            Some(v) => v,
                            None => { return Err(Error::TooLargeNumber) },
                        };
                        val = match shifted.checked_add(d) {
                            Some(v) => v,
                            None => { return Err(Error::TooLargeNumber) },
                        };
                        let _ = self.get();
                    } else if c == '_' {
                        let _ = self.get();
                    } else {
                        break ;
                    }
                }
                token = Token::new_numlit(val, Loc(start_pos, self.pos - 1));
            } else if is_punct(ch) {
                token = Token::new_punct(ch, Loc(start_pos, self.pos - 1));
            } else {
                return Err(Error::UnexpectedChar);
            }
            tokens.push(token);
        }
        Ok(tokens)
    }
}

} // verus!
