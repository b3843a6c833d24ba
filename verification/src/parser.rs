//! The parser: recursive descent over the tokens, one token of lookahead.
//!
//! Precedence, lowest first: assignment, `or`, `and`, equality, comparison,
//! additive, multiplicative, unary, call, primary. The binary levels
//! associate to the left, unary operators and assignment to the right.

use vstd::prelude::*;
use std::rc::Rc;
use crate::ast::expr_views;
use crate::ast::share;
use crate::ast::stmt_views;
use crate::ast::Expr;
use crate::ast::ExprView;
use crate::ast::Stmt;
use crate::ast::StmtView;
use crate::ast::Value;
use crate::ast::ValueView;
use crate::scanner::token_views;
use crate::scanner::well_ended;
use crate::scanner::Token;
use crate::scanner::TokenType;
use crate::scanner::TokenTypeView;
use crate::scanner::TokenView;

verus! {

/// A syntax error: the line of the token it was found at, and what was
/// expected there.
#[derive(Debug, PartialEq)]
pub struct ParseError {
    pub line: u32,
    pub message: &'static str,
}

impl ParseError {
    /// Renders this error for display.
    pub fn report(&self) -> (s: String)
        ensures
            s@ == crate::error_text(self.line, self.message@),
    {
        crate::error(self.line, self.message)
    }
}

/// How many tokens stand at or after `pos`.
pub open spec fn remaining(ts: Seq<TokenView>, pos: int) -> nat {
    if 0 <= pos < ts.len() {
        (ts.len() - pos) as nat
    } else {
        0
    }
}

/// A position that is not before `pos`. The parser never steps back, as
/// its contracts show, so this changes no position that it reaches; it
/// only makes plain that the grammar is well founded.
pub open spec fn past(p: int, pos: int) -> int {
    if p > pos {
        p
    } else {
        pos
    }
}

/// Whether `pos` is a position of the list.
pub open spec fn within(ts: Seq<TokenView>, pos: int) -> bool {
    0 <= pos < ts.len()
}

/// The error raised at the token at `pos`.
pub open spec fn error_at(ts: Seq<TokenView>, pos: int, message: &'static str) -> ParseError {
    ParseError { line: ts[pos].line, message }
}

/// The kinds of token that a construct may require.
pub enum Required {
    Identifier,
    LeftParen,
    RightParen,
    LeftBrace,
    RightBrace,
    Semicolon,
}

/// Whether a token kind is the required one.
pub open spec fn meets(typ: TokenTypeView, required: Required) -> bool {
    match required {
        Required::Identifier => typ is Identifier,
        Required::LeftParen => typ is LeftParen,
        Required::RightParen => typ is RightParen,
        Required::LeftBrace => typ is LeftBrace,
        Required::RightBrace => typ is RightBrace,
        Required::Semicolon => typ is Semicolon,
    }
}

/// A required token: it is passed over when it stands at `pos`, and the
/// error with `message` is raised at `pos` otherwise.
pub open spec fn expect(ts: Seq<TokenView>, pos: int, required: Required, message: &'static str) -> (
    Result<TokenView, ParseError>,
    int,
) {
    if within(ts, pos) && meets(ts[pos].typ, required) {
        (Ok(ts[pos]), pos + 1)
    } else {
        (Err(error_at(ts, pos, message)), pos)
    }
}

/// Whether a token kind is a binary operator of a level: 0 multiplicative,
/// 1 additive, 2 comparison, 3 equality, 4 `and`, 5 `or`.
pub open spec fn operator_of(level: nat, typ: TokenTypeView) -> bool {
    if level == 0 {
        typ is Star || typ is Slash
    } else if level == 1 {
        typ is Minus || typ is Plus
    } else if level == 2 {
        typ is Greater || typ is GreaterEqual || typ is Less || typ is LessEqual
    } else if level == 3 {
        typ is BangEqual || typ is EqualEqual
    } else if level == 4 {
        typ is And
    } else if level == 5 {
        typ is Or
    } else {
        false
    }
}

/// The node of a binary operator of a level: a logical one for `and` and
/// `or`, a binary one below.
pub open spec fn join(level: nat, left: ExprView, operator: TokenView, right: ExprView) -> ExprView {
    if level >= 4 {
        ExprView::Logical { left: Box::new(left), operator, right: Box::new(right) }
    } else {
        ExprView::Binary { left: Box::new(left), operator, right: Box::new(right) }
    }
}

/// A primary expression at `pos`: a literal, a name, or an expression
/// between round brackets. Where the closing bracket is missing, the error
/// is that an expression was expected there.
pub open spec fn primary(ts: Seq<TokenView>, pos: int) -> (Result<ExprView, ParseError>, int)
    decreases remaining(ts, pos), 0nat,
{
    if !within(ts, pos) {
        (Err(error_at(ts, pos, "Expect expression.")), pos)
    } else {
        match ts[pos].typ {
            TokenTypeView::False => (Ok(ExprView::Literal { value: ValueView::Boolean(false) }), pos + 1),
            TokenTypeView::True => (Ok(ExprView::Literal { value: ValueView::Boolean(true) }), pos + 1),
            TokenTypeView::Null => (Ok(ExprView::Literal { value: ValueView::Null }), pos + 1),
            TokenTypeView::Number(n) => (Ok(ExprView::Literal { value: ValueView::Number(n) }), pos + 1),
            TokenTypeView::String(s) => (Ok(ExprView::Literal { value: ValueView::String(s) }), pos + 1),
            TokenTypeView::Identifier => (Ok(ExprView::Variable { name: ts[pos] }), pos + 1),
            TokenTypeView::LeftParen => {
                let (inner, q) = assignment(ts, pos + 1);
                let p = past(q, pos + 1);
                match inner {
                    Err(e) => (Err(e), p),
                    Ok(expression) => if within(ts, p) && ts[p].typ is RightParen {
                        (Ok(ExprView::Grouping { expression: Box::new(expression) }), p + 1)
                    } else {
                        (Err(error_at(ts, p, "Expect expression.")), p)
                    },
                }
            },
            _ => (Err(error_at(ts, pos, "Expect expression.")), pos),
        }
    }
}

/// The arguments of a call from `pos` on, after those in `found`:
/// expressions with commas between them.
pub open spec fn arguments(ts: Seq<TokenView>, pos: int, found: Seq<ExprView>) -> (
    Result<Seq<ExprView>, ParseError>,
    int,
)
    decreases remaining(ts, pos), 18nat,
{
    if !within(ts, pos) {
        (Err(error_at(ts, pos, "Expect expression.")), pos)
    } else {
        let (argument, q) = assignment(ts, pos);
        let p = past(q, pos);
        match argument {
            Err(e) => (Err(e), p),
            Ok(a) => if within(ts, p) && ts[p].typ is Comma {
                arguments(ts, p + 1, found.push(a))
            } else {
                (Ok(found.push(a)), p)
            },
        }
    }
}

/// The rest of a call after its opening bracket at `pos - 1`: the
/// arguments, if there are any, and the closing bracket.
pub open spec fn finish(ts: Seq<TokenView>, pos: int, callee: ExprView) -> (
    Result<ExprView, ParseError>,
    int,
)
    decreases remaining(ts, pos), 19nat,
{
    if !within(ts, pos) {
        (Err(error_at(ts, pos, "Expect expression.")), pos)
    } else {
        let (list, q) = if ts[pos].typ is RightParen {
            (Ok(Seq::<ExprView>::empty()), pos)
        } else {
            arguments(ts, pos, Seq::empty())
        };
        let p = past(q, pos);
        match list {
            Err(e) => (Err(e), p),
            Ok(found) => match expect(ts, p, Required::RightParen, "Expect ')' after arguments.") {
                (Err(e), _) => (Err(e), p),
                (Ok(paren), _) => (
                    Ok(ExprView::Call { callee: Box::new(callee), paren, arguments: found }),
                    p + 1,
                ),
            },
        }
    }
}

/// The argument lists that follow a callee, each making a call of what
/// stands before it.
pub open spec fn call_rest(ts: Seq<TokenView>, pos: int, callee: ExprView) -> (
    Result<ExprView, ParseError>,
    int,
)
    decreases remaining(ts, pos), 1nat,
{
    if within(ts, pos) && ts[pos].typ is LeftParen {
        let (made, q) = finish(ts, pos + 1, callee);
        let p = past(q, pos + 1);
        match made {
            Err(e) => (Err(e), p),
            Ok(c) => call_rest(ts, p, c),
        }
    } else {
        (Ok(callee), pos)
    }
}

/// A call: a primary expression and the argument lists after it.
pub open spec fn call(ts: Seq<TokenView>, pos: int) -> (Result<ExprView, ParseError>, int)
    decreases remaining(ts, pos), 2nat,
{
    if !within(ts, pos) {
        (Err(error_at(ts, pos, "Expect expression.")), pos)
    } else {
        let (callee, q) = primary(ts, pos);
        let p = past(q, pos);
        match callee {
            Err(e) => (Err(e), p),
            Ok(c) => call_rest(ts, p, c),
        }
    }
}

/// A unary expression: `!` or `-` before a unary expression, or a call.
pub open spec fn unary(ts: Seq<TokenView>, pos: int) -> (Result<ExprView, ParseError>, int)
    decreases remaining(ts, pos), 3nat,
{
    if within(ts, pos) && (ts[pos].typ is Bang || ts[pos].typ is Minus) {
        let (operand, q) = unary(ts, pos + 1);
        let p = past(q, pos + 1);
        match operand {
            Err(e) => (Err(e), p),
            Ok(right) => (Ok(ExprView::Unary { operator: ts[pos], right: Box::new(right) }), p),
        }
    } else {
        call(ts, pos)
    }
}

/// An expression of a binary level: operands of the level below, joined
/// from left to right by the operators of the level.
pub open spec fn binary(ts: Seq<TokenView>, pos: int, level: nat) -> (
    Result<ExprView, ParseError>,
    int,
)
    decreases remaining(ts, pos), 5 + 2 * level,
{
    if !within(ts, pos) {
        (Err(error_at(ts, pos, "Expect expression.")), pos)
    } else {
        let (first, q) = if level == 0 {
            unary(ts, pos)
        } else {
            binary(ts, pos, (level - 1) as nat)
        };
        let p = past(q, pos);
        match first {
            Err(e) => (Err(e), p),
            Ok(left) => binary_rest(ts, p, left, level),
        }
    }
}

/// The operators of a level and their right operands from `pos` on, after
/// the expression `left`.
pub open spec fn binary_rest(ts: Seq<TokenView>, pos: int, left: ExprView, level: nat) -> (
    Result<ExprView, ParseError>,
    int,
)
    decreases remaining(ts, pos), 4 + 2 * level,
{
    if within(ts, pos) && operator_of(level, ts[pos].typ) {
        let (second, q) = if level == 0 {
            unary(ts, pos + 1)
        } else {
            binary(ts, pos + 1, (level - 1) as nat)
        };
        let p = past(q, pos + 1);
        match second {
            Err(e) => (Err(e), p),
            Ok(right) => binary_rest(ts, p, join(level, left, ts[pos], right), level),
        }
    } else {
        (Ok(left), pos)
    }
}

/// An expression: an `or` expression, or an assignment of an expression
/// to a variable. Whether the left side is a variable is checked after the
/// right side is parsed, and the error is raised at the `=`.
pub open spec fn assignment(ts: Seq<TokenView>, pos: int) -> (Result<ExprView, ParseError>, int)
    decreases remaining(ts, pos), 16nat,
{
    if !within(ts, pos) {
        (Err(error_at(ts, pos, "Expect expression.")), pos)
    } else {
        let (target, q) = binary(ts, pos, 5);
        let p = past(q, pos);
        match target {
            Err(e) => (Err(e), p),
            Ok(left) => if within(ts, p) && ts[p].typ is Equal {
                let (right, q2) = assignment(ts, p + 1);
                let stop2 = past(q2, p + 1);
                match right {
                    Err(e) => (Err(e), stop2),
                    Ok(value) => match left {
                        ExprView::Variable { name } => (
                            Ok(ExprView::Assign { name, value: Box::new(value) }),
                            stop2,
                        ),
                        _ => (Err(error_at(ts, p, "Invalid assignment target.")), stop2),
                    },
                }
            } else {
                (Ok(left), p)
            },
        }
    }
}

/// The parser: the tokens and the position of the next one.
pub struct Parser {
    pub tokens: Vec<Rc<Token>>,
    pub current: usize,
}

/// The view of the outcome of parsing an expression.
pub open spec fn expr_result(r: Result<Expr, ParseError>) -> Result<ExprView, ParseError> {
    match r {
        Ok(e) => Ok(e@),
        Err(e) => Err(e),
    }
}

/// The view of the outcome of passing a required token.
pub open spec fn consumed(r: Result<Rc<Token>, ParseError>) -> Result<TokenView, ParseError> {
    match r {
        Ok(token) => Ok(token@),
        Err(e) => Err(e),
    }
}

/// Whether the parser went from `before` to `after`, with the outcome `r`,
/// as the grammar says: it keeps its tokens, never steps back, passes at
/// least one token when it succeeds, and yields the tree and the position
/// that are expected.
pub open spec fn parsed(
    before: Parser,
    after: Parser,
    r: Result<Expr, ParseError>,
    expected: (Result<ExprView, ParseError>, int),
) -> bool {
    &&& after.tokens == before.tokens
    &&& after.wf()
    &&& after.current >= before.current
    &&& r is Ok ==> after.current > before.current
    &&& expr_result(r) == expected.0
    &&& after.current == expected.1
}

impl Parser {
    /// Whether the parser stands on a token of a list that ends with the
    /// end token.
    pub open spec fn wf(&self) -> bool {
        well_ended(token_views(self.tokens@)) && self.current < self.tokens@.len()
    }

    fn is_at_end(&self) -> (b: bool)
        requires
            self.wf(),
        ensures
            b == (token_views(self.tokens@)[self.current as int].typ is EOF),
    {
        match &self.tokens[self.current].typ {
            TokenType::EOF => true,
            _ => false,
        }
    }

    fn peek(&self) -> (token: Rc<Token>)
        requires
            self.wf(),
        ensures
            token == self.tokens@[self.current as int],
    {
        share(&self.tokens[self.current])
    }

    fn previous(&self) -> (token: Rc<Token>)
        requires
            1 <= self.current <= self.tokens@.len(),
        ensures
            token == self.tokens@[self.current - 1],
    {
        share(&self.tokens[self.current - 1])
    }

    fn advance(&mut self)
        requires
            old(self).wf(),
        ensures
            final(self).wf(),
            final(self).tokens == old(self).tokens,
            final(self).current as int == if token_views(
                old(self).tokens@,
            )[old(self).current as int].typ is EOF {
                old(self).current as int
            } else {
                old(self).current + 1
            },
    {
        if !self.is_at_end() {
            assert(self.current < self.tokens.len());
            self.current += 1;
        }
    }

    fn check(&self, required: &Required) -> (b: bool)
        requires
            self.wf(),
        ensures
            b == meets(token_views(self.tokens@)[self.current as int].typ, *required),
    {
        let typ = &self.tokens[self.current].typ;
        match required {
            Required::Identifier => match typ {
                TokenType::Identifier => true,
                _ => false,
            },
            Required::LeftParen => match typ {
                TokenType::LeftParen => true,
                _ => false,
            },
            Required::RightParen => match typ {
                TokenType::RightParen => true,
                _ => false,
            },
            Required::LeftBrace => match typ {
                TokenType::LeftBrace => true,
                _ => false,
            },
            Required::RightBrace => match typ {
                TokenType::RightBrace => true,
                _ => false,
            },
            Required::Semicolon => match typ {
                TokenType::Semicolon => true,
                _ => false,
            },
        }
    }

    fn error(&self, message: &'static str) -> (e: ParseError)
        requires
            self.wf(),
        ensures
            e == error_at(token_views(self.tokens@), self.current as int, message),
    {
        ParseError { line: self.tokens[self.current].line, message }
    }

    fn consume(&mut self, required: Required, message: &'static str) -> (r: Result<
        Rc<Token>,
        ParseError,
    >)
        requires
            old(self).wf(),
        ensures
            final(self).wf(),
            final(self).tokens == old(self).tokens,
            consumed(r) == expect(
                token_views(old(self).tokens@),
                old(self).current as int,
                required,
                message,
            ).0,
            final(self).current == expect(
                token_views(old(self).tokens@),
                old(self).current as int,
                required,
                message,
            ).1,
    {
        if self.check(&required) {
            let token = self.peek();
            assert(!(token.typ is EOF));
            self.advance();
            return Ok(token);
        }
        Err(self.error(message))
    }

    /// Parses a primary expression.
    pub fn primary(&mut self) -> (r: Result<Expr, ParseError>)
        requires
            old(self).wf(),
        ensures
            parsed(
                *old(self),
                *final(self),
                r,
                primary(token_views(old(self).tokens@), old(self).current as int),
            ),
        decreases remaining(token_views(old(self).tokens@), old(self).current as int), 0nat,
    {
        let token = self.peek();
        match &token.typ {
            TokenType::False => {
                self.advance();
                let literal = Value::Boolean(false);
                assert(literal@ == ValueView::Boolean(false));
                let found = Expr::Literal { value: literal };
                assert(found@ == ExprView::Literal { value: ValueView::Boolean(false) });
                Ok(found)
            },
            TokenType::True => {
                self.advance();
                let literal = Value::Boolean(true);
                assert(literal@ == ValueView::Boolean(true));
                let found = Expr::Literal { value: literal };
                assert(found@ == ExprView::Literal { value: ValueView::Boolean(true) });
                Ok(found)
            },
            TokenType::Null => {
                self.advance();
                let literal = Value::Null;
                assert(literal@ == ValueView::Null);
                let found = Expr::Literal { value: literal };
                assert(found@ == ExprView::Literal { value: ValueView::Null });
                Ok(found)
            },
            TokenType::Number(n) => {
                self.advance();
                let literal = Value::Number(n.clone());
                assert(literal@ == ValueView::Number(n@));
                let found = Expr::Literal { value: literal };
                assert(found@ == ExprView::Literal { value: ValueView::Number(n@) });
                Ok(found)
            },
            TokenType::String(s) => {
                self.advance();
                let literal = Value::String(s.clone());
                assert(literal@ == ValueView::String(s@));
                let found = Expr::Literal { value: literal };
                assert(found@ == ExprView::Literal { value: ValueView::String(s@) });
                Ok(found)
            },
            TokenType::Identifier => {
                self.advance();
                Ok(Expr::Variable { name: token })
            },
            TokenType::LeftParen => {
                self.advance();
                let expression = match self.assignment() {
                    Ok(e) => e,
                    Err(e) => {
                        return Err(e);
                    },
                };
                match &self.tokens[self.current].typ {
                    TokenType::RightParen => {
                        self.advance();
                        Ok(Expr::Grouping { expression: Box::new(expression) })
                    },
                    _ => Err(self.error("Expect expression.")),
                }
            },
            _ => Err(self.error("Expect expression.")),
        }
    }

    /// Parses what follows the opening bracket of a call.
    #[verifier::loop_isolation(false)]
    fn finish_call(&mut self, callee: Expr) -> (r: Result<Expr, ParseError>)
        requires
            old(self).wf(),
        ensures
            final(self).tokens == old(self).tokens,
            final(self).wf(),
            final(self).current >= old(self).current,
            expr_result(r) == finish(token_views(old(self).tokens@), old(self).current as int, callee@).0,
            final(self).current == finish(token_views(old(self).tokens@), old(self).current as int, callee@).1,
            r is Ok ==> final(self).current > old(self).current,
        decreases remaining(token_views(old(self).tokens@), old(self).current as int), 19nat,
    {
        let ghost ts = token_views(self.tokens@);
        let ghost start = self.current as int;
        let mut list: Vec<Box<Expr>> = Vec::new();
        let mut more = match &self.tokens[self.current].typ {
            TokenType::RightParen => false,
            _ => true,
        };
        let ghost total = if more {
            arguments(ts, start, Seq::empty())
        } else {
            (Ok(Seq::<ExprView>::empty()), start)
        };
        while more
            invariant
                token_views(self.tokens@) == ts,
                self.tokens == old(self).tokens,
                self.wf(),
                self.current >= start,
                more ==> total == arguments(
                    ts,
                    self.current as int,
                    expr_views(list@, list@.len()),
                ),
                !more ==> total == (
                    Ok::<Seq<ExprView>, ParseError>(expr_views(list@, list@.len())),
                    self.current as int,
                ),
            decreases self.tokens@.len() - self.current,
        {
            let ghost before = list@;
            match self.assignment() {
                Ok(a) => {
                    let boxed = Box::new(a);
                    proof {
                        crate::ast::lemma_expr_views_push(before, boxed);
                    }
                    list.push(boxed);
                },
                Err(e) => {
                    return Err(e);
                },
            }
            match &self.tokens[self.current].typ {
                TokenType::Comma => {
                    self.advance();
                },
                _ => {
                    more = false;
                },
            }
        }
        let paren = match self.consume(Required::RightParen, "Expect ')' after arguments.") {
            Ok(token) => token,
            Err(e) => {
                return Err(e);
            },
        };
        Ok(Expr::Call { callee: Box::new(callee), paren, arguments: list })
    }

    /// Parses a call: a primary expression and the argument lists after it.
    #[verifier::loop_isolation(false)]
    fn call(&mut self) -> (r: Result<Expr, ParseError>)
        requires
            old(self).wf(),
        ensures
            parsed(*old(self), *final(self), r, call(token_views(old(self).tokens@), old(self).current as int)),
        decreases remaining(token_views(old(self).tokens@), old(self).current as int), 2nat,
    {
        let ghost ts = token_views(self.tokens@);
        let mut expr = match self.primary() {
            Ok(e) => e,
            Err(e) => {
                return Err(e);
            },
        };
        let ghost total = call_rest(ts, self.current as int, expr@);
        loop
            invariant
                token_views(self.tokens@) == ts,
                self.tokens == old(self).tokens,
                self.wf(),
                self.current > old(self).current,
                remaining(ts, self.current as int) < remaining(ts, old(self).current as int),
                total == call_rest(ts, self.current as int, expr@),
            decreases self.tokens@.len() - self.current,
        {
            match &self.tokens[self.current].typ {
                TokenType::LeftParen => {},
                _ => {
                    return Ok(expr);
                },
            }
            self.advance();
            expr = match self.finish_call(expr) {
                Ok(e) => e,
                Err(e) => {
                    return Err(e);
                },
            };
        }
    }

    /// Parses a unary expression.
    pub fn unary(&mut self) -> (r: Result<Expr, ParseError>)
        requires
            old(self).wf(),
        ensures
            parsed(*old(self), *final(self), r, unary(token_views(old(self).tokens@), old(self).current as int)),
        decreases remaining(token_views(old(self).tokens@), old(self).current as int), 3nat,
    {
        let negates = match &self.tokens[self.current].typ {
            TokenType::Bang => true,
            TokenType::Minus => true,
            _ => false,
        };
        if negates {
            let operator = self.peek();
            self.advance();
            let right = match self.unary() {
                Ok(e) => e,
                Err(e) => {
                    return Err(e);
                },
            };
            return Ok(Expr::Unary { operator, right: Box::new(right) });
        }
        self.call()
    }

    fn at_operator(&self, level: u8) -> (b: bool)
        requires
            self.wf(),
        ensures
            b == operator_of(level as nat, token_views(self.tokens@)[self.current as int].typ),
    {
        let typ = &self.tokens[self.current].typ;
        if level == 0 {
            match typ {
                TokenType::Star => true,
                TokenType::Slash => true,
                _ => false,
            }
        } else if level == 1 {
            match typ {
                TokenType::Minus => true,
                TokenType::Plus => true,
                _ => false,
            }
        } else if level == 2 {
            match typ {
                TokenType::Greater => true,
                TokenType::GreaterEqual => true,
                TokenType::Less => true,
                TokenType::LessEqual => true,
                _ => false,
            }
        } else if level == 3 {
            match typ {
                TokenType::BangEqual => true,
                TokenType::EqualEqual => true,
                _ => false,
            }
        } else if level == 4 {
            match typ {
                TokenType::And => true,
                _ => false,
            }
        } else if level == 5 {
            match typ {
                TokenType::Or => true,
                _ => false,
            }
        } else {
            false
        }
    }

    /// Parses an expression of a binary level.
    #[verifier::loop_isolation(false)]
    fn binary(&mut self, level: u8) -> (r: Result<Expr, ParseError>)
        requires
            old(self).wf(),
            level <= 5,
        ensures
            parsed(
                *old(self),
                *final(self),
                r,
                binary(token_views(old(self).tokens@), old(self).current as int, level as nat),
            ),
        decreases remaining(token_views(old(self).tokens@), old(self).current as int), 5 + 2 * level,
    {
        let ghost ts = token_views(self.tokens@);
        let first = if level == 0 {
            self.unary()
        } else {
            self.binary(level - 1)
        };
        let mut expr = match first {
            Ok(e) => e,
            Err(e) => {
                return Err(e);
            },
        };
        let ghost total = binary_rest(ts, self.current as int, expr@, level as nat);
        while self.at_operator(level)
            invariant
                token_views(self.tokens@) == ts,
                self.tokens == old(self).tokens,
                self.wf(),
                level <= 5,
                self.current > old(self).current,
                remaining(ts, self.current as int) < remaining(ts, old(self).current as int),
                total == binary_rest(ts, self.current as int, expr@, level as nat),
            decreases self.tokens@.len() - self.current,
        {
            let operator = self.peek();
            self.advance();
            let second = if level == 0 {
                self.unary()
            } else {
                self.binary(level - 1)
            };
            let right = match second {
                Ok(e) => e,
                Err(e) => {
                    return Err(e);
                },
            };
            expr = if level >= 4 {
                Expr::Logical { left: Box::new(expr), operator, right: Box::new(right) }
            } else {
                Expr::Binary { left: Box::new(expr), operator, right: Box::new(right) }
            };
        }
        Ok(expr)
    }

    /// Parses an expression: an assignment, or an `or` expression.
    fn assignment(&mut self) -> (r: Result<Expr, ParseError>)
        requires
            old(self).wf(),
        ensures
            parsed(
                *old(self),
                *final(self),
                r,
                assignment(token_views(old(self).tokens@), old(self).current as int),
            ),
        decreases remaining(token_views(old(self).tokens@), old(self).current as int), 16nat,
    {
        let expr = match self.binary(5) {
            Ok(e) => e,
            Err(e) => {
                return Err(e);
            },
        };
        match &self.tokens[self.current].typ {
            TokenType::Equal => {},
            _ => {
                return Ok(expr);
            },
        }
        let equals = self.error("Invalid assignment target.");
        self.advance();
        let value = match self.assignment() {
            Ok(e) => e,
            Err(e) => {
                return Err(e);
            },
        };
        match expr {
            Expr::Variable { name } => Ok(Expr::Assign { name, value: Box::new(value) }),
            _ => Err(equals),
        }
    }

    /// Parses an expression.
    pub fn expression(&mut self) -> (r: Result<Expr, ParseError>)
        requires
            old(self).wf(),
        ensures
            parsed(
                *old(self),
                *final(self),
                r,
                assignment(token_views(old(self).tokens@), old(self).current as int),
            ),
    {
        self.assignment()
    }

    /// Parses an equality: comparisons joined by `==` and `!=`.
    pub fn equality(&mut self) -> (r: Result<Expr, ParseError>)
        requires
            old(self).wf(),
        ensures
            parsed(
                *old(self),
                *final(self),
                r,
                binary(token_views(old(self).tokens@), old(self).current as int, 3),
            ),
    {
        self.binary(3)
    }

    /// Parses a comparison: terms joined by `<`, `<=`, `>` and `>=`.
    pub fn comparison(&mut self) -> (r: Result<Expr, ParseError>)
        requires
            old(self).wf(),
        ensures
            parsed(
                *old(self),
                *final(self),
                r,
                binary(token_views(old(self).tokens@), old(self).current as int, 2),
            ),
    {
        self.binary(2)
    }

    /// Parses a term: factors joined by `+` and `-`.
    pub fn term(&mut self) -> (r: Result<Expr, ParseError>)
        requires
            old(self).wf(),
        ensures
            parsed(
                *old(self),
                *final(self),
                r,
                binary(token_views(old(self).tokens@), old(self).current as int, 1),
            ),
    {
        self.binary(1)
    }

    /// Parses a factor: unary expressions joined by `*` and `/`.
    pub fn factor(&mut self) -> (r: Result<Expr, ParseError>)
        requires
            old(self).wf(),
        ensures
            parsed(
                *old(self),
                *final(self),
                r,
                binary(token_views(old(self).tokens@), old(self).current as int, 0),
            ),
    {
        self.binary(0)
    }
}

/// An expression and the semicolon that must follow it.
pub open spec fn terminated(ts: Seq<TokenView>, pos: int, message: &'static str) -> (
    Result<ExprView, ParseError>,
    int,
)
    decreases remaining(ts, pos), 20nat,
{
    if !within(ts, pos) {
        (Err(error_at(ts, pos, "Expect expression.")), pos)
    } else {
        let (value, q) = assignment(ts, pos);
        let p = past(q, pos);
        match value {
            Err(e) => (Err(e), p),
            Ok(v) => match expect(ts, p, Required::Semicolon, message) {
                (Err(e), _) => (Err(e), p),
                (Ok(_), _) => (Ok(v), p + 1),
            },
        }
    }
}

/// A variable declaration after its `let`: a name, an initializer after
/// `=` if there is one (null otherwise), and a semicolon.
pub open spec fn var_declaration(ts: Seq<TokenView>, pos: int) -> (
    Result<StmtView, ParseError>,
    int,
)
    decreases remaining(ts, pos), 21nat,
{
    match expect(ts, pos, Required::Identifier, "Expect variable name.") {
        (Err(e), _) => (Err(e), pos),
        (Ok(name), _) => {
            let stop1 = pos + 1;
            let (init, q) = if within(ts, stop1) && ts[stop1].typ is Equal {
                assignment(ts, stop1 + 1)
            } else {
                (Ok(ExprView::Literal { value: ValueView::Null }), stop1)
            };
            let stop2 = past(q, stop1);
            match init {
                Err(e) => (Err(e), stop2),
                Ok(initializer) => match expect(
                    ts,
                    stop2,
                    Required::Semicolon,
                    "Expect ';' after variable declaration.",
                ) {
                    (Err(e), _) => (Err(e), stop2),
                    (Ok(_), _) => (Ok(StmtView::VariableDecl { name, initializer }), stop2 + 1),
                },
            }
        },
    }
}

/// A `return` statement after its keyword: a value if there is one (null
/// otherwise), and a semicolon.
pub open spec fn return_statement(ts: Seq<TokenView>, pos: int, keyword: TokenView) -> (
    Result<StmtView, ParseError>,
    int,
)
    decreases remaining(ts, pos), 21nat,
{
    if !within(ts, pos) {
        (Err(error_at(ts, pos, "Expect expression.")), pos)
    } else {
        let (found, q) = if ts[pos].typ is Semicolon {
            (Ok(ExprView::Literal { value: ValueView::Null }), pos)
        } else {
            assignment(ts, pos)
        };
        let p = past(q, pos);
        match found {
            Err(e) => (Err(e), p),
            Ok(value) => match expect(
                ts,
                p,
                Required::Semicolon,
                "Expect ';' after return statement.",
            ) {
                (Err(e), _) => (Err(e), p),
                (Ok(_), _) => (Ok(StmtView::Return { keyword, value }), p + 1),
            },
        }
    }
}

/// The parameters of a function from `pos` on, after those in `found`:
/// names with commas between them.
pub open spec fn params_rest(ts: Seq<TokenView>, pos: int, found: Seq<TokenView>) -> (
    Result<Seq<TokenView>, ParseError>,
    int,
)
    decreases remaining(ts, pos), 19nat,
{
    match expect(ts, pos, Required::Identifier, "Expect parameter name.") {
        (Err(e), _) => (Err(e), pos),
        (Ok(name), _) => if within(ts, pos + 1) && ts[pos + 1].typ is Comma {
            params_rest(ts, pos + 2, found.push(name))
        } else {
            (Ok(found.push(name)), pos + 1)
        },
    }
}

/// The head of a function after its `fn`, up to the brace that opens the
/// body: the name and the parameters between round brackets.
pub open spec fn function_head(ts: Seq<TokenView>, pos: int) -> (
    Result<(TokenView, Seq<TokenView>), ParseError>,
    int,
) {
    match expect(ts, pos, Required::Identifier, "Expect function name.") {
        (Err(e), _) => (Err(e), pos),
        (Ok(name), _) => match expect(
            ts,
            pos + 1,
            Required::LeftParen,
            "Expect '(' after function name.",
        ) {
            (Err(e), _) => (Err(e), pos + 1),
            (Ok(_), _) => {
                let stop2 = pos + 2;
                let (list, q) = if within(ts, stop2) && ts[stop2].typ is RightParen {
                    (Ok(Seq::<TokenView>::empty()), stop2)
                } else {
                    params_rest(ts, stop2, Seq::empty())
                };
                let stop3 = past(q, stop2);
                match list {
                    Err(e) => (Err(e), stop3),
                    Ok(params) => match expect(
                        ts,
                        stop3,
                        Required::RightParen,
                        "Expect ')' after parameters.",
                    ) {
                        (Err(e), _) => (Err(e), stop3),
                        (Ok(_), _) => match expect(
                            ts,
                            stop3 + 1,
                            Required::LeftBrace,
                            "Expect '{' before function body.",
                        ) {
                            (Err(e), _) => (Err(e), stop3 + 1),
                            (Ok(_), _) => (Ok((name, params)), stop3 + 2),
                        },
                    },
                }
            },
        }
    }
}

/// A function declaration after its `fn`: the head and the body, a block.
pub open spec fn function(ts: Seq<TokenView>, pos: int) -> (Result<StmtView, ParseError>, int)
    decreases remaining(ts, pos), 22nat,
{
    if !within(ts, pos) {
        (Err(error_at(ts, pos, "Expect function name.")), pos)
    } else {
        match function_head(ts, pos) {
            (Err(e), p) => (Err(e), p),
            (Ok((name, params)), q) => {
                let p = past(q, pos + 1);
                let (body, q2) = block_rest(ts, p, Seq::empty());
                let stop2 = past(q2, p);
                match body {
                    Err(e) => (Err(e), stop2),
                    Ok(statements) => (
                        Ok(
                            StmtView::FunctionDecl {
                                name,
                                params,
                                body: Box::new(StmtView::Block { statements }),
                            },
                        ),
                        stop2,
                    ),
                }
            },
        }
    }
}

/// The statements of a block from `pos` on, after those in `found`, up to
/// the closing brace.
pub open spec fn block_rest(ts: Seq<TokenView>, pos: int, found: Seq<StmtView>) -> (
    Result<Seq<StmtView>, ParseError>,
    int,
)
    decreases remaining(ts, pos), 27nat,
{
    if within(ts, pos) && !(ts[pos].typ is RightBrace) && !(ts[pos].typ is EOF) {
        let (s, q) = declaration(ts, pos);
        match s {
            Err(e) => (Err(e), past(q, pos)),
            Ok(statement) => block_rest(ts, past(q, pos + 1), found.push(statement)),
        }
    } else {
        match expect(ts, pos, Required::RightBrace, "Expect '}' after block.") {
            (Err(e), _) => (Err(e), pos),
            (Ok(_), _) => (Ok(found), pos + 1),
        }
    }
}

/// A condition between round brackets, after a keyword.
pub open spec fn condition(ts: Seq<TokenView>, pos: int, message: &'static str) -> (
    Result<ExprView, ParseError>,
    int,
)
    decreases remaining(ts, pos), 20nat,
{
    match expect(ts, pos, Required::LeftParen, message) {
        (Err(e), _) => (Err(e), pos),
        (Ok(_), _) => {
            let (found, q) = assignment(ts, pos + 1);
            let p = past(q, pos + 1);
            match found {
                Err(e) => (Err(e), p),
                Ok(c) => match expect(ts, p, Required::RightParen, "Expect ')' after condition.") {
                    (Err(e), _) => (Err(e), p),
                    (Ok(_), _) => (Ok(c), p + 1),
                },
            }
        },
    }
}

/// An `if` statement after its keyword: a condition, a statement, and
/// after `else` another.
pub open spec fn if_statement(ts: Seq<TokenView>, pos: int) -> (Result<StmtView, ParseError>, int)
    decreases remaining(ts, pos), 24nat,
{
    if !within(ts, pos) {
        (Err(error_at(ts, pos, "Expect '(' after 'if'.")), pos)
    } else {
        match condition(ts, pos, "Expect '(' after 'if'.") {
            (Err(e), q) => (Err(e), past(q, pos)),
            (Ok(c), q) => {
                let p = past(q, pos + 1);
                let (first, q2) = statement(ts, p);
                let stop2 = past(q2, p);
                match first {
                    Err(e) => (Err(e), stop2),
                    Ok(then_branch) => if within(ts, stop2) && ts[stop2].typ is Else {
                        let (second, q3) = statement(ts, stop2 + 1);
                        let stop3 = past(q3, stop2 + 1);
                        match second {
                            Err(e) => (Err(e), stop3),
                            Ok(else_branch) => (
                                Ok(
                                    StmtView::If {
                                        condition: c,
                                        then_branch: Box::new(then_branch),
                                        else_branch: Some(Box::new(else_branch)),
                                    },
                                ),
                                stop3,
                            ),
                        }
                    } else {
                        (
                            Ok(
                                StmtView::If {
                                    condition: c,
                                    then_branch: Box::new(then_branch),
                                    else_branch: None,
                                },
                            ),
                            stop2,
                        )
                    },
                }
            },
        }
    }
}

/// A `while` statement after its keyword: a condition and a statement.
pub open spec fn while_statement(ts: Seq<TokenView>, pos: int) -> (
    Result<StmtView, ParseError>,
    int,
)
    decreases remaining(ts, pos), 24nat,
{
    if !within(ts, pos) {
        (Err(error_at(ts, pos, "Expect '(' after 'while'.")), pos)
    } else {
        match condition(ts, pos, "Expect '(' after 'while'.") {
            (Err(e), q) => (Err(e), past(q, pos)),
            (Ok(c), q) => {
                let p = past(q, pos + 1);
                let (found, q2) = statement(ts, p);
                let stop2 = past(q2, p);
                match found {
                    Err(e) => (Err(e), stop2),
                    Ok(body) => (Ok(StmtView::While { condition: c, body: Box::new(body) }), stop2),
                }
            },
        }
    }
}

/// The three clauses of a `for` between its round brackets, after the
/// keyword: an initializer (a declaration, an expression statement or a
/// lone semicolon), a condition if there is one and a semicolon, and an
/// increment if there is one.
pub open spec fn for_clauses(ts: Seq<TokenView>, pos: int) -> (
    Result<(Option<StmtView>, Option<ExprView>, Option<ExprView>), ParseError>,
    int,
)
    decreases remaining(ts, pos), 23nat,
{
    match expect(ts, pos, Required::LeftParen, "Expect '(' after 'for'.") {
        (Err(e), _) => (Err(e), pos),
        (Ok(_), _) => {
            let stop1 = pos + 1;
            let (first, q2) = if within(ts, stop1) && ts[stop1].typ is Semicolon {
                (Ok(None::<StmtView>), stop1 + 1)
            } else if within(ts, stop1) && ts[stop1].typ is Let {
                match var_declaration(ts, stop1 + 1) {
                    (Ok(s), q) => (Ok(Some(s)), q),
                    (Err(e), q) => (Err(e), q),
                }
            } else {
                match terminated(ts, stop1, "Expect ';' after value.") {
                    (Ok(e), q) => (Ok(Some(StmtView::Expression { expression: e })), q),
                    (Err(e), q) => (Err(e), q),
                }
            };
            let stop2 = past(q2, stop1);
            match first {
                Err(e) => (Err(e), stop2),
                Ok(initializer) => {
                    let (second, q3) = if within(ts, stop2) && ts[stop2].typ is Semicolon {
                        (Ok(None::<ExprView>), stop2)
                    } else {
                        match assignment(ts, stop2) {
                            (Ok(e), q) => (Ok(Some(e)), q),
                            (Err(e), q) => (Err(e), q),
                        }
                    };
                    let stop3 = past(q3, stop2);
                    match second {
                        Err(e) => (Err(e), stop3),
                        Ok(test) => match expect(
                            ts,
                            stop3,
                            Required::Semicolon,
                            "Expect ';' after loop condition.",
                        ) {
                            (Err(e), _) => (Err(e), stop3),
                            (Ok(_), _) => {
                                let stop4 = stop3 + 1;
                                let (third, q5) = if within(ts, stop4) && ts[stop4].typ is RightParen {
                                    (Ok(None::<ExprView>), stop4)
                                } else {
                                    match assignment(ts, stop4) {
                                        (Ok(e), q) => (Ok(Some(e)), q),
                                        (Err(e), q) => (Err(e), q),
                                    }
                                };
                                let stop5 = past(q5, stop4);
                                match third {
                                    Err(e) => (Err(e), stop5),
                                    Ok(increment) => match expect(
                                        ts,
                                        stop5,
                                        Required::RightParen,
                                        "Expect ')' after for loop.",
                                    ) {
                                        (Err(e), _) => (Err(e), stop5),
                                        (Ok(_), _) => (
                                            Ok((initializer, test, increment)),
                                            stop5 + 1,
                                        ),
                                    },
                                }
                            },
                        },
                    }
                },
            }
        },
    }
}

/// What a `for` stands for: a `while` on the condition (on `true` without
/// one) whose body is the body followed by the increment, in a block, and
/// all of it after the initializer, in a block.
pub open spec fn desugared(
    initializer: Option<StmtView>,
    test: Option<ExprView>,
    increment: Option<ExprView>,
    body: StmtView,
) -> StmtView {
    let round = match increment {
        Some(i) => StmtView::Block {
            statements: Seq::empty().push(body).push(StmtView::Expression { expression: i }),
        },
        None => body,
    };
    let condition = match test {
        Some(c) => c,
        None => ExprView::Literal { value: ValueView::Boolean(true) },
    };
    let repeated = StmtView::While { condition, body: Box::new(round) };
    match initializer {
        Some(i) => StmtView::Block { statements: Seq::empty().push(i).push(repeated) },
        None => repeated,
    }
}

/// A `for` statement after its keyword.
pub open spec fn for_statement(ts: Seq<TokenView>, pos: int) -> (
    Result<StmtView, ParseError>,
    int,
)
    decreases remaining(ts, pos), 24nat,
{
    if !within(ts, pos) {
        (Err(error_at(ts, pos, "Expect '(' after 'for'.")), pos)
    } else {
        match for_clauses(ts, pos) {
            (Err(e), q) => (Err(e), past(q, pos)),
            (Ok((initializer, test, increment)), q) => {
                let p = past(q, pos + 1);
                let (found, q2) = statement(ts, p);
                let stop2 = past(q2, p);
                match found {
                    Err(e) => (Err(e), stop2),
                    Ok(body) => (Ok(desugared(initializer, test, increment, body)), stop2),
                }
            },
        }
    }
}

/// A statement at `pos`.
pub open spec fn statement(ts: Seq<TokenView>, pos: int) -> (Result<StmtView, ParseError>, int)
    decreases remaining(ts, pos), 25nat,
{
    if !within(ts, pos) {
        (Err(error_at(ts, pos, "Expect expression.")), pos)
    } else {
        match ts[pos].typ {
            TokenTypeView::Print => match terminated(ts, pos + 1, "Expect ';' after value.") {
                (Ok(e), q) => (Ok(StmtView::Print { expression: e }), q),
                (Err(e), q) => (Err(e), q),
            },
            TokenTypeView::LeftBrace => match block_rest(ts, pos + 1, Seq::empty()) {
                (Ok(statements), q) => (Ok(StmtView::Block { statements }), q),
                (Err(e), q) => (Err(e), q),
            },
            TokenTypeView::If => if_statement(ts, pos + 1),
            TokenTypeView::While => while_statement(ts, pos + 1),
            TokenTypeView::For => for_statement(ts, pos + 1),
            TokenTypeView::Return => return_statement(ts, pos + 1, ts[pos]),
            _ => match terminated(ts, pos, "Expect ';' after value.") {
                (Ok(e), q) => (Ok(StmtView::Expression { expression: e }), q),
                (Err(e), q) => (Err(e), q),
            },
        }
    }
}

/// A declaration at `pos`: a variable, a function, or a statement.
pub open spec fn declaration(ts: Seq<TokenView>, pos: int) -> (Result<StmtView, ParseError>, int)
    decreases remaining(ts, pos), 26nat,
{
    if !within(ts, pos) {
        (Err(error_at(ts, pos, "Expect expression.")), pos)
    } else {
        match ts[pos].typ {
            TokenTypeView::Let => var_declaration(ts, pos + 1),
            TokenTypeView::Fn => function(ts, pos + 1),
            _ => statement(ts, pos),
        }
    }
}

/// Whether a token kind starts a declaration or a statement that has a
/// keyword of its own.
pub open spec fn opens_statement(typ: TokenTypeView) -> bool {
    typ is Fn || typ is Let || typ is For || typ is If || typ is While || typ is Print
        || typ is Return
}

/// Where parsing takes up again from `pos`, which is behind the token an
/// error was raised at: at the end token, behind a semicolon, or at a
/// keyword that opens a statement, whichever comes first.
pub open spec fn boundary(ts: Seq<TokenView>, pos: int) -> int
    decreases remaining(ts, pos),
{
    if !within(ts, pos) || ts[pos].typ is EOF {
        pos
    } else if pos >= 1 && ts[pos - 1].typ is Semicolon {
        pos
    } else if opens_statement(ts[pos].typ) {
        pos
    } else {
        boundary(ts, pos + 1)
    }
}

/// Where parsing takes up again after an error raised at `pos`: the token
/// there is passed over, then the next boundary is sought.
pub open spec fn synchronised(ts: Seq<TokenView>, pos: int) -> int {
    if within(ts, pos) && !(ts[pos].typ is EOF) {
        boundary(ts, pos + 1)
    } else {
        pos
    }
}

/// What parsing a whole program yields: the statements that parsed, and
/// the errors of those that did not.
pub struct Program {
    pub statements: Seq<StmtView>,
    pub errors: Seq<ParseError>,
}

/// The program from `pos` on: declarations up to the end token. After an
/// error parsing takes up again at the next boundary.
pub open spec fn program(ts: Seq<TokenView>, pos: int) -> Program
    decreases remaining(ts, pos),
{
    if !within(ts, pos) || ts[pos].typ is EOF {
        Program { statements: Seq::empty(), errors: Seq::empty() }
    } else {
        let (found, q) = declaration(ts, pos);
        match found {
            Ok(s) => {
                let rest = program(ts, past(q, pos + 1));
                Program { statements: seq![s] + rest.statements, errors: rest.errors }
            },
            Err(e) => {
                let rest = program(ts, past(synchronised(ts, past(q, pos)), pos + 1));
                Program { statements: rest.statements, errors: seq![e] + rest.errors }
            },
        }
    }
}

/// The view of the outcome of parsing a statement.
pub open spec fn stmt_result(r: Result<Stmt, ParseError>) -> Result<StmtView, ParseError> {
    match r {
        Ok(s) => Ok(s@),
        Err(e) => Err(e),
    }
}

/// The view of the outcome of parsing a list of statements.
pub open spec fn list_result(r: Result<Vec<Stmt>, ParseError>) -> Result<
    Seq<StmtView>,
    ParseError,
> {
    match r {
        Ok(list) => Ok(stmt_views(list@, list@.len())),
        Err(e) => Err(e),
    }
}

/// The view of the outcome of parsing the clauses of a `for`.
pub open spec fn clauses_result(
    r: Result<(Option<Stmt>, Option<Expr>, Option<Expr>), ParseError>,
) -> Result<(Option<StmtView>, Option<ExprView>, Option<ExprView>), ParseError> {
    match r {
        Ok((initializer, test, increment)) => Ok(
            (
                match initializer {
                    Some(s) => Some(s@),
                    None => None,
                },
                match test {
                    Some(e) => Some(e@),
                    None => None,
                },
                match increment {
                    Some(e) => Some(e@),
                    None => None,
                },
            ),
        ),
        Err(e) => Err(e),
    }
}

/// Whether the parser went from `before` to `after` as the grammar says,
/// with a statement as the outcome.
pub open spec fn parsed_statement(
    before: Parser,
    after: Parser,
    r: Result<Stmt, ParseError>,
    expected: (Result<StmtView, ParseError>, int),
) -> bool {
    &&& after.tokens == before.tokens
    &&& after.wf()
    &&& after.current >= before.current
    &&& r is Ok ==> after.current > before.current
    &&& stmt_result(r) == expected.0
    &&& after.current == expected.1
}

/// The statement that prints an expression.
pub open spec fn as_print(found: (Result<ExprView, ParseError>, int)) -> (
    Result<StmtView, ParseError>,
    int,
) {
    match found {
        (Ok(e), q) => (Ok(StmtView::Print { expression: e }), q),
        (Err(e), q) => (Err(e), q),
    }
}

/// The statement that evaluates an expression.
pub open spec fn as_statement(found: (Result<ExprView, ParseError>, int)) -> (
    Result<StmtView, ParseError>,
    int,
) {
    match found {
        (Ok(e), q) => (Ok(StmtView::Expression { expression: e }), q),
        (Err(e), q) => (Err(e), q),
    }
}

impl Parser {
    /// Parses an expression and the semicolon after it.
    fn terminated(&mut self, message: &'static str) -> (r: Result<Expr, ParseError>)
        requires
            old(self).wf(),
        ensures
            parsed(
                *old(self),
                *final(self),
                r,
                terminated(token_views(old(self).tokens@), old(self).current as int, message),
            ),
        decreases remaining(token_views(old(self).tokens@), old(self).current as int), 20nat,
    {
        let value = match self.assignment() {
            Ok(e) => e,
            Err(e) => {
                return Err(e);
            },
        };
        match self.consume(Required::Semicolon, message) {
            Ok(_) => Ok(value),
            Err(e) => Err(e),
        }
    }

    /// Parses a `print` statement after its keyword.
    fn print_statement(&mut self) -> (r: Result<Stmt, ParseError>)
        requires
            old(self).wf(),
        ensures
            parsed_statement(
                *old(self),
                *final(self),
                r,
                as_print(
                    terminated(
                        token_views(old(self).tokens@),
                        old(self).current as int,
                        "Expect ';' after value.",
                    ),
                ),
            ),
        decreases remaining(token_views(old(self).tokens@), old(self).current as int), 21nat,
    {
        match self.terminated("Expect ';' after value.") {
            Ok(value) => Ok(Stmt::Print { expression: Box::new(value) }),
            Err(e) => Err(e),
        }
    }

    /// Parses an expression statement.
    fn expression_statement(&mut self) -> (r: Result<Stmt, ParseError>)
        requires
            old(self).wf(),
        ensures
            parsed_statement(
                *old(self),
                *final(self),
                r,
                as_statement(
                    terminated(
                        token_views(old(self).tokens@),
                        old(self).current as int,
                        "Expect ';' after value.",
                    ),
                ),
            ),
        decreases remaining(token_views(old(self).tokens@), old(self).current as int), 21nat,
    {
        match self.terminated("Expect ';' after value.") {
            Ok(value) => Ok(Stmt::Expression { expression: Box::new(value) }),
            Err(e) => Err(e),
        }
    }

    /// Parses a variable declaration after its `let`.
    fn var_declaration(&mut self) -> (r: Result<Stmt, ParseError>)
        requires
            old(self).wf(),
        ensures
            parsed_statement(
                *old(self),
                *final(self),
                r,
                var_declaration(token_views(old(self).tokens@), old(self).current as int),
            ),
        decreases remaining(token_views(old(self).tokens@), old(self).current as int), 21nat,
    {
        let name = match self.consume(Required::Identifier, "Expect variable name.") {
            Ok(token) => token,
            Err(e) => {
                return Err(e);
            },
        };
        let follows = match &self.tokens[self.current].typ {
            TokenType::Equal => true,
            _ => false,
        };
        let initializer = if follows {
            self.advance();
            match self.assignment() {
                Ok(e) => e,
                Err(e) => {
                    return Err(e);
                },
            }
        } else {
            let literal = Value::Null;
            assert(literal@ == ValueView::Null);
            let absent = Expr::Literal { value: literal };
            assert(absent@ == ExprView::Literal { value: ValueView::Null });
            absent
        };
        match self.consume(Required::Semicolon, "Expect ';' after variable declaration.") {
            Ok(_) => Ok(Stmt::VariableDecl { name, initializer: Box::new(initializer) }),
            Err(e) => Err(e),
        }
    }

    /// Parses a `return` statement after its keyword.
    fn return_statement(&mut self) -> (r: Result<Stmt, ParseError>)
        requires
            old(self).wf(),
            old(self).current >= 1,
        ensures
            parsed_statement(
                *old(self),
                *final(self),
                r,
                return_statement(
                    token_views(old(self).tokens@),
                    old(self).current as int,
                    token_views(old(self).tokens@)[old(self).current - 1],
                ),
            ),
        decreases remaining(token_views(old(self).tokens@), old(self).current as int), 21nat,
    {
        let keyword = self.previous();
        let ends = match &self.tokens[self.current].typ {
            TokenType::Semicolon => true,
            _ => false,
        };
        let value = if ends {
            let literal = Value::Null;
            assert(literal@ == ValueView::Null);
            let absent = Expr::Literal { value: literal };
            assert(absent@ == ExprView::Literal { value: ValueView::Null });
            absent
        } else {
            match self.assignment() {
                Ok(e) => e,
                Err(e) => {
                    return Err(e);
                },
            }
        };
        match self.consume(Required::Semicolon, "Expect ';' after return statement.") {
            Ok(_) => Ok(Stmt::Return { keyword, value: Box::new(value) }),
            Err(e) => Err(e),
        }
    }

    /// Parses the head of a function after its `fn`.
    #[verifier::loop_isolation(false)]
    fn function_head(&mut self) -> (r: Result<(Rc<Token>, Vec<Rc<Token>>), ParseError>)
        requires
            old(self).wf(),
        ensures
            final(self).tokens == old(self).tokens,
            final(self).wf(),
            final(self).current >= old(self).current,
            r is Ok ==> final(self).current > old(self).current,
            final(self).current == function_head(token_views(old(self).tokens@), old(self).current as int).1,
            match r {
                Ok((name, params)) => function_head(
                    token_views(old(self).tokens@),
                    old(self).current as int,
                ).0 == Ok::<(TokenView, Seq<TokenView>), ParseError>(
                    (name@, token_views(params@)),
                ),
                Err(e) => function_head(
                    token_views(old(self).tokens@),
                    old(self).current as int,
                ).0 == Err::<(TokenView, Seq<TokenView>), ParseError>(e),
            },
    {
        let ghost ts = token_views(self.tokens@);
        let name = match self.consume(Required::Identifier, "Expect function name.") {
            Ok(token) => token,
            Err(e) => {
                return Err(e);
            },
        };
        match self.consume(Required::LeftParen, "Expect '(' after function name.") {
            Ok(_) => {},
            Err(e) => {
                return Err(e);
            },
        }
        let mut params: Vec<Rc<Token>> = Vec::new();
        assert(token_views(params@) =~= Seq::<TokenView>::empty());
        let mut more = !self.check(&Required::RightParen);
        let ghost total = if more {
            params_rest(ts, self.current as int, Seq::empty())
        } else {
            (Ok(Seq::<TokenView>::empty()), self.current as int)
        };
        while more
            invariant
                token_views(self.tokens@) == ts,
                self.tokens == old(self).tokens,
                self.wf(),
                self.current >= old(self).current + 2,
                more ==> total == params_rest(ts, self.current as int, token_views(params@)),
                !more ==> total == (
                    Ok::<Seq<TokenView>, ParseError>(token_views(params@)),
                    self.current as int,
                ),
            decreases self.tokens@.len() - self.current, if more { 1nat } else { 0nat },
        {
            match self.consume(Required::Identifier, "Expect parameter name.") {
                Ok(token) => {
                    let ghost before = token_views(params@);
                    params.push(token);
                    assert(token_views(params@) =~= before.push(token@));
                },
                Err(e) => {
                    return Err(e);
                },
            }
            match &self.tokens[self.current].typ {
                TokenType::Comma => {
                    self.advance();
                },
                _ => {
                    more = false;
                },
            }
        }
        match self.consume(Required::RightParen, "Expect ')' after parameters.") {
            Ok(_) => {},
            Err(e) => {
                return Err(e);
            },
        }
        match self.consume(Required::LeftBrace, "Expect '{' before function body.") {
            Ok(_) => {},
            Err(e) => {
                return Err(e);
            },
        }
        Ok((name, params))
    }

    /// Parses a function declaration after its `fn`.
    fn function(&mut self) -> (r: Result<Stmt, ParseError>)
        requires
            old(self).wf(),
        ensures
            parsed_statement(
                *old(self),
                *final(self),
                r,
                function(token_views(old(self).tokens@), old(self).current as int),
            ),
        decreases remaining(token_views(old(self).tokens@), old(self).current as int), 22nat,
    {
        let (name, params) = match self.function_head() {
            Ok(head) => head,
            Err(e) => {
                return Err(e);
            },
        };
        let statements = match self.block() {
            Ok(list) => list,
            Err(e) => {
                return Err(e);
            },
        };
        let body = Stmt::Block { statements };
        assert(body@ == StmtView::Block { statements: stmt_views(statements@, statements@.len()) });
        let declared = Stmt::FunctionDecl { name, params, body: Rc::new(body) };
        assert(declared@ == StmtView::FunctionDecl {
            name: name@,
            params: token_views(params@),
            body: Box::new(body@),
        });
        Ok(declared)
    }

    /// Parses the statements of a block after its opening brace, and the
    /// closing brace.
    #[verifier::loop_isolation(false)]
    fn block(&mut self) -> (r: Result<Vec<Stmt>, ParseError>)
        requires
            old(self).wf(),
        ensures
            final(self).tokens == old(self).tokens,
            final(self).wf(),
            final(self).current >= old(self).current,
            r is Ok ==> final(self).current > old(self).current,
            list_result(r) == block_rest(
                token_views(old(self).tokens@),
                old(self).current as int,
                Seq::empty(),
            ).0,
            final(self).current == block_rest(
                token_views(old(self).tokens@),
                old(self).current as int,
                Seq::empty(),
            ).1,
        decreases remaining(token_views(old(self).tokens@), old(self).current as int), 27nat,
    {
        let ghost ts = token_views(self.tokens@);
        let ghost total = block_rest(ts, self.current as int, Seq::empty());
        let mut statements: Vec<Stmt> = Vec::new();
        while !self.check(&Required::RightBrace) && !self.is_at_end()
            invariant
                token_views(self.tokens@) == ts,
                self.tokens == old(self).tokens,
                self.wf(),
                self.current >= old(self).current,
                total == block_rest(
                    ts,
                    self.current as int,
                    stmt_views(statements@, statements@.len()),
                ),
            decreases self.tokens@.len() - self.current,
        {
            let ghost before = statements@;
            match self.declaration() {
                Ok(s) => {
                    proof {
                        crate::ast::lemma_stmt_views_push(before, s);
                    }
                    statements.push(s);
                },
                Err(e) => {
                    return Err(e);
                },
            }
        }
        match self.consume(Required::RightBrace, "Expect '}' after block.") {
            Ok(_) => Ok(statements),
            Err(e) => Err(e),
        }
    }

    /// Parses a condition between round brackets.
    fn condition(&mut self, message: &'static str) -> (r: Result<Expr, ParseError>)
        requires
            old(self).wf(),
        ensures
            parsed(
                *old(self),
                *final(self),
                r,
                condition(token_views(old(self).tokens@), old(self).current as int, message),
            ),
        decreases remaining(token_views(old(self).tokens@), old(self).current as int), 20nat,
    {
        match self.consume(Required::LeftParen, message) {
            Ok(_) => {},
            Err(e) => {
                return Err(e);
            },
        }
        let found = match self.assignment() {
            Ok(e) => e,
            Err(e) => {
                return Err(e);
            },
        };
        match self.consume(Required::RightParen, "Expect ')' after condition.") {
            Ok(_) => Ok(found),
            Err(e) => Err(e),
        }
    }

    /// Parses an `if` statement after its keyword.
    fn if_statement(&mut self) -> (r: Result<Stmt, ParseError>)
        requires
            old(self).wf(),
        ensures
            parsed_statement(
                *old(self),
                *final(self),
                r,
                if_statement(token_views(old(self).tokens@), old(self).current as int),
            ),
        decreases remaining(token_views(old(self).tokens@), old(self).current as int), 24nat,
    {
        let condition = match self.condition("Expect '(' after 'if'.") {
            Ok(e) => e,
            Err(e) => {
                return Err(e);
            },
        };
        let then_branch = match self.statement() {
            Ok(s) => s,
            Err(e) => {
                return Err(e);
            },
        };
        match &self.tokens[self.current].typ {
            TokenType::Else => {},
            _ => {
                return Ok(
                    Stmt::If {
                        condition: Box::new(condition),
                        then_branch: Box::new(then_branch),
                        else_branch: None,
                    },
                );
            },
        }
        self.advance();
        let else_branch = match self.statement() {
            Ok(s) => s,
            Err(e) => {
                return Err(e);
            },
        };
        Ok(
            Stmt::If {
                condition: Box::new(condition),
                then_branch: Box::new(then_branch),
                else_branch: Some(Box::new(else_branch)),
            },
        )
    }

    /// Parses a `while` statement after its keyword.
    fn while_statement(&mut self) -> (r: Result<Stmt, ParseError>)
        requires
            old(self).wf(),
        ensures
            parsed_statement(
                *old(self),
                *final(self),
                r,
                while_statement(token_views(old(self).tokens@), old(self).current as int),
            ),
        decreases remaining(token_views(old(self).tokens@), old(self).current as int), 24nat,
    {
        let condition = match self.condition("Expect '(' after 'while'.") {
            Ok(e) => e,
            Err(e) => {
                return Err(e);
            },
        };
        let body = match self.statement() {
            Ok(s) => s,
            Err(e) => {
                return Err(e);
            },
        };
        Ok(Stmt::While { condition: Box::new(condition), body: Box::new(body) })
    }

    /// Parses the clauses of a `for` after its keyword.
    fn for_clauses(&mut self) -> (r: Result<(Option<Stmt>, Option<Expr>, Option<Expr>), ParseError>)
        requires
            old(self).wf(),
        ensures
            final(self).tokens == old(self).tokens,
            final(self).wf(),
            final(self).current >= old(self).current,
            r is Ok ==> final(self).current > old(self).current,
            clauses_result(r) == for_clauses(token_views(old(self).tokens@), old(self).current as int).0,
            final(self).current == for_clauses(token_views(old(self).tokens@), old(self).current as int).1,
        decreases remaining(token_views(old(self).tokens@), old(self).current as int), 23nat,
    {
        match self.consume(Required::LeftParen, "Expect '(' after 'for'.") {
            Ok(_) => {},
            Err(e) => {
                return Err(e);
            },
        }
        let kind: u8 = match &self.tokens[self.current].typ {
            TokenType::Semicolon => 0,
            TokenType::Let => 1,
            _ => 2,
        };
        let initializer = if kind == 0 {
            self.advance();
            None
        } else if kind == 1 {
            self.advance();
            match self.var_declaration() {
                Ok(s) => Some(s),
                Err(e) => {
                    return Err(e);
                },
            }
        } else {
            match self.expression_statement() {
                Ok(s) => Some(s),
                Err(e) => {
                    return Err(e);
                },
            }
        };
        let test = if self.check(&Required::Semicolon) {
            None
        } else {
            match self.assignment() {
                Ok(e) => Some(e),
                Err(e) => {
                    return Err(e);
                },
            }
        };
        match self.consume(Required::Semicolon, "Expect ';' after loop condition.") {
            Ok(_) => {},
            Err(e) => {
                return Err(e);
            },
        }
        let increment = if self.check(&Required::RightParen) {
            None
        } else {
            match self.assignment() {
                Ok(e) => Some(e),
                Err(e) => {
                    return Err(e);
                },
            }
        };
        match self.consume(Required::RightParen, "Expect ')' after for loop.") {
            Ok(_) => {},
            Err(e) => {
                return Err(e);
            },
        }
        Ok((initializer, test, increment))
    }

    /// Parses a `for` statement after its keyword, into the `while` it
    /// stands for.
    fn for_statement(&mut self) -> (r: Result<Stmt, ParseError>)
        requires
            old(self).wf(),
        ensures
            parsed_statement(
                *old(self),
                *final(self),
                r,
                for_statement(token_views(old(self).tokens@), old(self).current as int),
            ),
        decreases remaining(token_views(old(self).tokens@), old(self).current as int), 24nat,
    {
        let (initializer, test, increment) = match self.for_clauses() {
            Ok(clauses) => clauses,
            Err(e) => {
                return Err(e);
            },
        };
        let body = match self.statement() {
            Ok(s) => s,
            Err(e) => {
                return Err(e);
            },
        };
        let ghost body_view = body@;
        let ghost clauses = clauses_result(Ok((initializer, test, increment)))->Ok_0;
        let round = match increment {
            Some(i) => {
                let step = Stmt::Expression { expression: Box::new(i) };
                assert(step@ == StmtView::Expression { expression: i@ });
                let mut statements: Vec<Stmt> = Vec::new();
                statements.push(body);
                statements.push(step);
                proof {
                    reveal_with_fuel(stmt_views, 3);
                    assert(stmt_views(statements@, 2) =~= Seq::empty().push(body_view).push(
                        step@,
                    ));
                }
                let block = Stmt::Block { statements };
                assert(block@ == StmtView::Block {
                    statements: stmt_views(statements@, statements@.len()),
                });
                block
            },
            None => body,
        };
        let ghost round_view = round@;
        let condition = match test {
            Some(c) => c,
            None => {
                let literal = Value::Boolean(true);
                assert(literal@ == ValueView::Boolean(true));
                let always = Expr::Literal { value: literal };
                assert(always@ == ExprView::Literal { value: ValueView::Boolean(true) });
                always
            },
        };
        let ghost condition_view = condition@;
        let repeated = Stmt::While { condition: Box::new(condition), body: Box::new(round) };
        assert(repeated@ == StmtView::While {
            condition: condition_view,
            body: Box::new(round_view),
        });
        let ghost repeated_view = repeated@;
        let whole = match initializer {
            Some(i) => {
                let ghost first = i@;
                let mut statements: Vec<Stmt> = Vec::new();
                statements.push(i);
                statements.push(repeated);
                proof {
                    reveal_with_fuel(stmt_views, 3);
                    assert(stmt_views(statements@, 2) =~= Seq::empty().push(first).push(
                        repeated_view,
                    ));
                }
                let block = Stmt::Block { statements };
                assert(block@ == StmtView::Block {
                    statements: stmt_views(statements@, statements@.len()),
                });
                block
            },
            None => repeated,
        };
        assert(whole@ == desugared(clauses.0, clauses.1, clauses.2, body_view));
        Ok(whole)
    }

    /// Parses a statement.
    pub fn statement(&mut self) -> (r: Result<Stmt, ParseError>)
        requires
            old(self).wf(),
        ensures
            parsed_statement(
                *old(self),
                *final(self),
                r,
                statement(token_views(old(self).tokens@), old(self).current as int),
            ),
        decreases remaining(token_views(old(self).tokens@), old(self).current as int), 25nat,
    {
        let kind: u8 = match &self.tokens[self.current].typ {
            TokenType::Print => 0,
            TokenType::LeftBrace => 1,
            TokenType::If => 2,
            TokenType::While => 3,
            TokenType::For => 4,
            TokenType::Return => 5,
            _ => 6,
        };
        if kind == 0 {
            self.advance();
            self.print_statement()
        } else if kind == 1 {
            self.advance();
            match self.block() {
                Ok(statements) => Ok(Stmt::Block { statements }),
                Err(e) => Err(e),
            }
        } else if kind == 2 {
            self.advance();
            self.if_statement()
        } else if kind == 3 {
            self.advance();
            self.while_statement()
        } else if kind == 4 {
            self.advance();
            self.for_statement()
        } else if kind == 5 {
            self.advance();
            self.return_statement()
        } else {
            self.expression_statement()
        }
    }

    /// Parses a declaration: a variable, a function, or a statement.
    pub fn declaration(&mut self) -> (r: Result<Stmt, ParseError>)
        requires
            old(self).wf(),
        ensures
            parsed_statement(
                *old(self),
                *final(self),
                r,
                declaration(token_views(old(self).tokens@), old(self).current as int),
            ),
        decreases remaining(token_views(old(self).tokens@), old(self).current as int), 26nat,
    {
        let kind: u8 = match &self.tokens[self.current].typ {
            TokenType::Let => 0,
            TokenType::Fn => 1,
            _ => 2,
        };
        if kind == 0 {
            self.advance();
            self.var_declaration()
        } else if kind == 1 {
            self.advance();
            self.function()
        } else {
            self.statement()
        }
    }

    fn at_boundary(&self) -> (b: bool)
        requires
            self.wf(),
        ensures
            b == opens_statement(token_views(self.tokens@)[self.current as int].typ),
    {
        match &self.tokens[self.current].typ {
            TokenType::Fn => true,
            TokenType::Let => true,
            TokenType::For => true,
            TokenType::If => true,
            TokenType::While => true,
            TokenType::Print => true,
            TokenType::Return => true,
            _ => false,
        }
    }

    fn after_semicolon(&self) -> (b: bool)
        requires
            self.wf(),
        ensures
            b == (self.current >= 1 && token_views(self.tokens@)[self.current - 1].typ
                is Semicolon),
    {
        if self.current == 0 {
            return false;
        }
        match &self.tokens[self.current - 1].typ {
            TokenType::Semicolon => true,
            _ => false,
        }
    }

    /// Passes over tokens, after an error, to where a statement may begin.
    fn synchronise(&mut self)
        requires
            old(self).wf(),
        ensures
            final(self).tokens == old(self).tokens,
            final(self).wf(),
            final(self).current >= old(self).current,
            !(token_views(old(self).tokens@)[old(self).current as int].typ is EOF)
                ==> final(self).current
                > old(self).current,
            final(self).current == synchronised(token_views(old(self).tokens@), old(self).current as int),
    {
        let ghost ts = token_views(self.tokens@);
        self.advance();
        let ghost from = self.current as int;
        while !self.is_at_end() && !self.after_semicolon() && !self.at_boundary()
            invariant
                token_views(self.tokens@) == ts,
                self.tokens == old(self).tokens,
                self.wf(),
                self.current >= from,
                boundary(ts, self.current as int) == boundary(ts, from),
            decreases self.tokens@.len() - self.current,
        {
            self.advance();
        }
    }

    /// Parses the whole program. Returns the statements that parsed and
    /// the errors of those that did not.
    pub fn parse(&mut self) -> (r: (Vec<Stmt>, Vec<ParseError>))
        requires
            old(self).wf(),
        ensures
            final(self).tokens == old(self).tokens,
            final(self).wf(),
            stmt_views(r.0@, r.0@.len()) == program(
                token_views(old(self).tokens@),
                old(self).current as int,
            ).statements,
            r.1@ == program(token_views(old(self).tokens@), old(self).current as int).errors,
    {
        let ghost ts = token_views(self.tokens@);
        let ghost total = program(ts, self.current as int);
        let mut statements: Vec<Stmt> = Vec::new();
        let mut errors: Vec<ParseError> = Vec::new();
        assert(stmt_views(statements@, 0) + total.statements =~= total.statements);
        assert(errors@ + total.errors =~= total.errors);
        while !self.is_at_end()
            invariant
                token_views(self.tokens@) == ts,
                self.tokens == old(self).tokens,
                self.wf(),
                stmt_views(statements@, statements@.len()) + program(
                    ts,
                    self.current as int,
                ).statements == total.statements,
                errors@ + program(ts, self.current as int).errors == total.errors,
            decreases self.tokens@.len() - self.current,
        {
            let ghost before = statements@;
            let ghost failed = errors@;
            let ghost pos = self.current as int;
            match self.declaration() {
                Ok(s) => {
                    proof {
                        crate::ast::lemma_stmt_views_push(before, s);
                        let rest = program(ts, self.current as int);
                        assert(stmt_views(before, before.len()).push(s@) + rest.statements
                            =~= stmt_views(before, before.len()) + (seq![s@] + rest.statements));
                    }
                    statements.push(s);
                },
                Err(e) => {
                    self.synchronise();
                    proof {
                        let rest = program(ts, self.current as int);
                        assert(failed.push(e) + rest.errors =~= failed + (seq![e] + rest.errors));
                    }
                    errors.push(e);
                },
            }
        }
        proof {
            assert(stmt_views(statements@, statements@.len()) + Seq::<StmtView>::empty()
                =~= stmt_views(statements@, statements@.len()));
            assert(errors@ + Seq::<ParseError>::empty() =~= errors@);
        }
        (statements, errors)
    }
}

} // verus!
