//! The recursive-descent parser for the expression subset of the surface
//! language: compound statements, `if`/`elsif`/`else`, comparison, additive
//! and multiplicative operators, parenthesised expressions and number
//! literals.

use vstd::prelude::*;
use crate::lexer::{Loc, Reserved, Token, TokenKind};

verus! {

/// A syntax-tree node with its source span.
#[derive(Debug, PartialEq)]
pub struct Node {
    pub kind: NodeKind,
    pub loc: Loc,
}

#[derive(Debug, PartialEq)]
pub enum NodeKind {
    Number(i64),
    BinOp(BinOp, Box<Node>, Box<Node>),
    Assign(Box<Node>, Box<Node>),
    CompStmt(Vec<Node>),
    If(Box<Node>, Box<Node>, Box<Node>),
}

#[derive(Debug, Clone, Copy, PartialEq, Eq, Structural)]
pub enum BinOp {
    Add,
    Sub,
    Mul,
    Eq,
}

impl Node {
    pub fn new_number(num: i64, loc: Loc) -> (r: Node)
        ensures
            r.kind == (NodeKind::Number(num)),
            r.loc == loc,
    {
        Node { kind: NodeKind::Number(num), loc }
    }

    pub fn new_comp_stmt() -> (r: Node)
        ensures
            r.kind matches NodeKind::CompStmt(nodes) && nodes@.len() == 0,
            r.loc == (Loc(0, 0)),
    {
        Node { kind: NodeKind::CompStmt(Vec::new()), loc: Loc(0, 0) }
    }
}

#[derive(Debug, Clone, Copy, PartialEq, Eq, Structural)]
pub enum ParseError {
    UnexpectedToken,
    EOF,
}

#[derive(Debug)]
pub struct Parser {
    pub tokens: Vec<Token>,
    pub cursor: usize,
}

pub type ParseResult = Result<Node, ParseError>;

impl Parser {
    pub open spec fn wf(self) -> bool {
        self.cursor <= self.tokens@.len()
    }

    /// A parser over a token stream, positioned at its start.
    pub fn new(tokens: Vec<Token>) -> (r: Parser)
        ensures
            r.wf(),
            r.tokens == tokens,
            r.cursor == 0,
    {
        Parser { tokens, cursor: 0 }
    }

    /// The index of the next token, skipping end-of-line markers; the
    /// cursor does not move.
    fn peek_idx(&self) -> (r: Option<usize>)
        requires
            self.wf(),
        ensures
            match r {
                Some(i) => self.cursor <= i < self.tokens@.len() && !(
                self.tokens@[i as int].value matches TokenKind::LineTerm),
                None => true,
            },
    {
        let n = self.tokens.len();
        let mut c = self.cursor;
        while c < n
            invariant
                n == self.tokens@.len(),
                self.cursor <= c <= n,
            decreases n - c,
        {
            if !self.tokens[c].is_line_term() {
                return Some(c);
            }
            c += 1;
        }
        None
    }

    /// The index of the next token, skipping and consuming end-of-line
    /// markers; the cursor moves past it.
    fn get_idx(&mut self) -> (r: Option<usize>)
        requires
            old(self).wf(),
        ensures
            final(self).wf(),
            final(self).tokens == old(self).tokens,
            match r {
                Some(i) => old(self).cursor <= i < final(self).cursor && final(self).cursor <= final(self).tokens@.len() && !(final(self).tokens@[i as int].value
                    matches TokenKind::LineTerm),
                None => final(self).cursor == final(self).tokens@.len() && final(self).cursor
                    >= old(self).cursor,
            },
    {
        let n = self.tokens.len();
        while self.cursor < n
            invariant
                n == self.tokens@.len(),
                self.tokens == old(self).tokens,
                old(self).cursor <= self.cursor <= n,
            decreases n - self.cursor,
        {
            let i = self.cursor;
            self.cursor += 1;
            if !self.tokens[i].is_line_term() {
                return Some(i);
            }
        }
        None
    }

    /// Consumes the next significant token when it is the expected
    /// punctuator.
    fn get_if_punct(&mut self, expect: char) -> (r: bool)
        requires
            old(self).wf(),
        ensures
            final(self).wf(),
            final(self).tokens == old(self).tokens,
            r ==> old(self).cursor < final(self).cursor,
            !r ==> final(self).cursor == old(self).cursor,
    {
        match self.peek_idx() {
            Some(i) => {
                let hit = match &self.tokens[i].value {
                    TokenKind::Punct(punct) => *punct == expect,
                    _ => false,
                };
                if hit {
                    let n = self.tokens.len();
                    proof {
                        assert(i < n);
                    }
                    self.cursor = i + 1;
                    true
                } else {
                    false
                }
            },
            None => false,
        }
    }

    /// Consumes the next significant token when it is the expected
    /// reserved word.
    fn get_if_reserved(&mut self, expect: Reserved) -> (r: bool)
        requires
            old(self).wf(),
        ensures
            final(self).wf(),
            final(self).tokens == old(self).tokens,
            r ==> old(self).cursor < final(self).cursor,
            !r ==> final(self).cursor == old(self).cursor,
    {
        match self.peek_idx() {
            Some(i) => {
                let hit = match &self.tokens[i].value {
                    TokenKind::Reserved(reserved) => *reserved == expect,
                    _ => false,
                };
                if hit {
                    let n = self.tokens.len();
                    proof {
                        assert(i < n);
                    }
                    self.cursor = i + 1;
                    true
                } else {
                    false
                }
            },
            None => false,
        }
    }

    /// The token under the cursor, end-of-line markers included.
    pub fn peek_no_skip_line_term(&self) -> (r: Option<&Token>)
        requires
            self.wf(),
        ensures
            match r {
                Some(t) => self.cursor < self.tokens@.len() && *t == self.tokens@[self.cursor as int],
                None => self.cursor == self.tokens@.len(),
            },
    {
        if self.cursor < self.tokens.len() {
            Some(&self.tokens[self.cursor])
        } else {
            None
        }
    }

    /// Consumes the token under the cursor, end-of-line markers included,
    /// and hands back its index.
    fn get_no_skip_line_term(&mut self) -> (r: Option<usize>)
        requires
            old(self).wf(),
        ensures
            final(self).wf(),
            final(self).tokens == old(self).tokens,
            match r {
                Some(i) => i == old(self).cursor && final(self).cursor == old(self).cursor + 1,
                None => final(self).cursor == old(self).cursor && old(self).cursor == old(
                    self,
                ).tokens@.len(),
            },
    {
        if self.cursor < self.tokens.len() {
            let i = self.cursor;
            self.cursor += 1;
            Some(i)
        } else {
            None
        }
    }

    /// Consumes the next token when it is a statement terminator, without
    /// skipping end-of-line markers first.
    fn get_if_term(&mut self) -> (r: bool)
        requires
            old(self).wf(),
        ensures
            final(self).wf(),
            final(self).tokens == old(self).tokens,
            r ==> old(self).cursor < final(self).cursor,
            !r ==> final(self).cursor == old(self).cursor,
    {
        let hit = match self.peek_no_skip_line_term() {
            Some(t) => t.is_term(),
            None => false,
        };
        if hit {
            let _ = self.get_no_skip_line_term();
            true
        } else {
            false
        }
    }

    /// Consumes the next significant token, which must be the expected
    /// reserved word.
    fn expect_reserved(&mut self, expect: Reserved) -> (r: Result<(), ParseError>)
        requires
            old(self).wf(),
        ensures
            final(self).wf(),
            final(self).tokens == old(self).tokens,
            old(self).cursor <= final(self).cursor,
    {
        match self.get_idx() {
            Some(i) => {
                match &self.tokens[i].value {
                    TokenKind::Reserved(reserved) => {
                        if *reserved == expect {
                            Ok(())
                        } else {
                            Err(self.error_unexpected())
                        }
                    },
                    _ => Err(self.error_unexpected()),
                }
            },
            None => Err(ParseError::EOF),
        }
    }

    /// The failure reported for a token that fits no production.
    fn error_unexpected(&self) -> (r: ParseError)
        ensures
            r == (ParseError::UnexpectedToken),
    {
        ParseError::UnexpectedToken
    }

    /// Parses a compound statement: expressions separated by terminators,
    /// ending at the end of input or before `else`, `elsif` or `end`.
    pub fn parse_comp_stmt(&mut self) -> (r: ParseResult)
        requires
            old(self).wf(),
        ensures
            final(self).wf(),
            final(self).tokens == old(self).tokens,
            old(self).cursor <= final(self).cursor,
            r matches Ok(node) ==> node.kind matches NodeKind::CompStmt(_),
        decreases old(self).tokens@.len() - old(self).cursor, 5int,
    {
        let mut nodes: Vec<Node> = Vec::new();
        loop
            invariant
                self.wf(),
                self.tokens == old(self).tokens,
                old(self).cursor <= self.cursor,
            ensures
                self.wf(),
                self.tokens == old(self).tokens,
                old(self).cursor <= self.cursor,
            decreases self.tokens@.len() - self.cursor,
        {
            match self.peek_idx() {
                None => { break ; },
                Some(i) => {
                    match &self.tokens[i].value {
                        TokenKind::Reserved(r) => {
                            match r {
                                Reserved::Else | Reserved::Elsif | Reserved::End => { break ; },
                                _ => {},
                            }
                        },
                        _ => {},
                    }
                },
            }
            match self.parse_expr() {
                Ok(node) => nodes.push(node),
                Err(e) => {
                    return Err(e);
                },
            }
            if !self.get_if_term() {
                break ;
            }
        }
        let mut loc = Loc::new(0, 0);
        let n = nodes.len();
        if n > 0 {
            loc = nodes[0].loc;
            let mut k: usize = 1;
            while k < n
                invariant
                    n == nodes@.len(),
                    k <= n,
                decreases n - k,
            {
                loc = loc.merge(nodes[k].loc);
                k += 1;
            }
        }
        Ok(Node { kind: NodeKind::CompStmt(nodes), loc })
    }

    /// Parses one expression.
    pub fn parse_expr(&mut self) -> (r: ParseResult)
        requires
            old(self).wf(),
        ensures
            final(self).wf(),
            final(self).tokens == old(self).tokens,
            old(self).cursor <= final(self).cursor,
            r is Ok ==> old(self).cursor < final(self).cursor,
        decreases old(self).tokens@.len() - old(self).cursor, 4int,
    {
        self.parse_arg_comp()
    }

    /// Parses a comparison: an additive expression, optionally compared
    /// for equality with another comparison.
    fn parse_arg_comp(&mut self) -> (r: ParseResult)
        requires
            old(self).wf(),
        ensures
            final(self).wf(),
            final(self).tokens == old(self).tokens,
            old(self).cursor <= final(self).cursor,
            r is Ok ==> old(self).cursor < final(self).cursor,
        decreases old(self).tokens@.len() - old(self).cursor, 3int,
    {
        let lhs = match self.parse_arg_add() {
            Ok(lhs) => lhs,
            Err(e) => {
                return Err(e);
            },
        };
        if self.get_if_punct('=') {
            let rhs = match self.parse_arg_comp() {
                Ok(rhs) => rhs,
                Err(e) => {
                    return Err(e);
                },
            };
            let loc = lhs.loc.merge(rhs.loc);
            Ok(Node { kind: NodeKind::BinOp(BinOp::Eq, Box::new(lhs), Box::new(rhs)), loc })
        } else {
            Ok(lhs)
        }
    }

    /// Parses an additive expression.
    fn parse_arg_add(&mut self) -> (r: ParseResult)
        requires
            old(self).wf(),
        ensures
            final(self).wf(),
            final(self).tokens == old(self).tokens,
            old(self).cursor <= final(self).cursor,
            r is Ok ==> old(self).cursor < final(self).cursor,
        decreases old(self).tokens@.len() - old(self).cursor, 2int,
    {
        let lhs = match self.parse_arg_mul() {
            Ok(lhs) => lhs,
            Err(e) => {
                return Err(e);
            },
        };
        if self.get_if_punct('+') {
            let rhs = match self.parse_arg_add() {
                Ok(rhs) => rhs,
                Err(e) => {
                    return Err(e);
                },
            };
            let loc = lhs.loc.merge(rhs.loc);
            Ok(Node { kind: NodeKind::BinOp(BinOp::Add, Box::new(lhs), Box::new(rhs)), loc })
        } else if self.get_if_punct('-') {
            let rhs = match self.parse_arg_add() {
                Ok(rhs) => rhs,
                Err(e) => {
                    return Err(e);
                },
            };
            let loc = lhs.loc.merge(rhs.loc);
            Ok(Node { kind: NodeKind::BinOp(BinOp::Sub, Box::new(lhs), Box::new(rhs)), loc })
        } else {
            Ok(lhs)
        }
    }

    /// Parses a multiplicative expression.
    pub fn parse_arg_mul(&mut self) -> (r: ParseResult)
        requires
            old(self).wf(),
        ensures
            final(self).wf(),
            final(self).tokens == old(self).tokens,
            old(self).cursor <= final(self).cursor,
            r is Ok ==> old(self).cursor < final(self).cursor,
        decreases old(self).tokens@.len() - old(self).cursor, 1int,
    {
        let lhs = match self.parse_primary() {
            Ok(lhs) => lhs,
            Err(e) => {
                return Err(e);
            },
        };
        if self.get_if_punct('*') {
            let rhs = match self.parse_arg_mul() {
                Ok(rhs) => rhs,
                Err(e) => {
                    return Err(e);
                },
            };
            let loc = lhs.loc.merge(rhs.loc);
            Ok(Node { kind: NodeKind::BinOp(BinOp::Mul, Box::new(lhs), Box::new(rhs)), loc })
        } else {
            Ok(lhs)
        }
    }

    /// Parses a primary: a number literal, a parenthesised expression, or
    /// an `if` expression.
    fn parse_primary(&mut self) -> (r: ParseResult)
        requires
            old(self).wf(),
        ensures
            final(self).wf(),
            final(self).tokens == old(self).tokens,
            old(self).cursor <= final(self).cursor,
            r is Ok ==> old(self).cursor < final(self).cursor,
        decreases old(self).tokens@.len() - old(self).cursor, 0int,
    {
        let i = match self.get_idx() {
            Some(i) => i,
            None => {
                return Err(ParseError::EOF);
            },
        };
        let loc = self.tokens[i].loc;
        match &self.tokens[i].value {
            TokenKind::NumLit(num) => Ok(Node::new_number(*num, loc)),
            TokenKind::Punct(punct) => {
                if *punct == '(' {
                    let node = match self.parse_expr() {
                        Ok(node) => node,
                        Err(e) => {
                            return Err(e);
                        },
                    };
                    match self.get_idx() {
                        Some(j) => {
                            let closed = match &self.tokens[j].value {
                                TokenKind::Punct(p) => *p == ')',
                                _ => false,
                            };
                            if closed {
                                Ok(node)
                            } else {
                                Err(ParseError::UnexpectedToken)
                            }
                        },
                        None => Err(ParseError::EOF),
                    }
                } else {
                    Err(ParseError::UnexpectedToken)
                }
            },
            TokenKind::Reserved(r) => {
                if *r == Reserved::If {
                    let node = self.parse_if_then();
                    match self.expect_reserved(Reserved::End) {
                        Ok(_) => node,
                        Err(e) => Err(e),
                    }
                } else {
                    Err(ParseError::UnexpectedToken)
                }
            },
            _ => Err(ParseError::UnexpectedToken),
        }
    }

    /// Parses the body of an `if`: a condition, a `then` part, and an
    /// optional `elsif` chain or `else` part; the caller consumes `end`.
    fn parse_if_then(&mut self) -> (r: ParseResult)
        requires
            old(self).wf(),
        ensures
            final(self).wf(),
            final(self).tokens == old(self).tokens,
            old(self).cursor <= final(self).cursor,
        decreases old(self).tokens@.len() - old(self).cursor, 6int,
    {
        let cond = match self.parse_expr() {
            Ok(cond) => cond,
            Err(e) => {
                return Err(e);
            },
        };
        match self.parse_then() {
            Ok(_) => {},
            Err(e) => {
                return Err(e);
            },
        }
        let then_ = match self.parse_comp_stmt() {
            Ok(t) => t,
            Err(e) => {
                return Err(e);
            },
        };
        let mut else_ = Node::new_comp_stmt();
        if self.get_if_reserved(Reserved::Elsif) {
            else_ = match self.parse_if_then() {
                Ok(n) => n,
                Err(e) => {
                    return Err(e);
                },
            };
        } else if self.get_if_reserved(Reserved::Else) {
            else_ = match self.parse_comp_stmt() {
                Ok(n) => n,
                Err(e) => {
                    return Err(e);
                },
            };
        }
        let loc = cond.loc.merge(then_.loc);
        Ok(Node { kind: NodeKind::If(Box::new(cond), Box::new(then_), Box::new(else_)), loc })
    }

    /// Consumes the separator between an `if` condition and its body: a
    /// statement terminator or the word `then`.
    fn parse_then(&mut self) -> (r: Result<(), ParseError>)
        requires
            old(self).wf(),
        ensures
            final(self).wf(),
            final(self).tokens == old(self).tokens,
            old(self).cursor <= final(self).cursor,
        decreases old(self).tokens@.len() - old(self).cursor, 0int,
    {
        if self.get_if_term() {
            return Ok(());
        }
        self.expect_reserved(Reserved::Then)
    }
}

} // verus!
