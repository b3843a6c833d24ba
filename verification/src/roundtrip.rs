//! Printing an expression and parsing the print again.
//!
//! The prefix form of an expression is source text of the language only for
//! an atom: `true`, `false`, `null`, or a variable. Of these the print
//! parses back to the same tree.

use vstd::prelude::*;
use crate::ast::expr_text;
use crate::ast::ExprView;
use crate::ast::ValueView;
use crate::number::NumberView;
use crate::parser::assignment;
use crate::parser::binary;
use crate::parser::binary_rest;
use crate::parser::call;
use crate::parser::call_rest;
use crate::parser::primary;
use crate::parser::unary;
use crate::scanner::end_token;
use crate::scanner::identifier_lexeme;
use crate::scanner::is_alpha;
use crate::scanner::is_alpha_numeric;
use crate::scanner::keyword;
use crate::scanner::lexeme_at;
use crate::scanner::scan;
use crate::scanner::skip;
use crate::scanner::CharClass;
use crate::scanner::Scan;
use crate::scanner::TokenTypeView;
use crate::scanner::TokenView;

verus! {

/// A word: a letter or an underscore, then letters, digits and underscores.
pub open spec fn word(w: Seq<char>) -> bool {
    &&& w.len() > 0
    &&& is_alpha(w[0])
    &&& forall|i: int| 0 <= i < w.len() ==> is_alpha_numeric(#[trigger] w[i])
}

/// Whether two expressions have the same shape: the same kinds of node in
/// the same places, with equal literal values, equal names and operators
/// of the same kind. The lines of the tokens do not count.
pub open spec fn same_shape(a: ExprView, b: ExprView) -> bool
    decreases a,
{
    match (a, b) {
        (ExprView::Literal { value: x }, ExprView::Literal { value: y }) => x == y,
        (ExprView::Variable { name: x }, ExprView::Variable { name: y }) => x.lexeme == y.lexeme,
        (ExprView::Grouping { expression: x }, ExprView::Grouping { expression: y }) => same_shape(
            *x,
            *y,
        ),
        (
            ExprView::Unary { operator: o1, right: r1 },
            ExprView::Unary { operator: o2, right: r2 },
        ) => o1.typ == o2.typ && same_shape(*r1, *r2),
        (
            ExprView::Binary { left: l1, operator: o1, right: r1 },
            ExprView::Binary { left: l2, operator: o2, right: r2 },
        ) => o1.typ == o2.typ && same_shape(*l1, *l2) && same_shape(*r1, *r2),
        (
            ExprView::Logical { left: l1, operator: o1, right: r1 },
            ExprView::Logical { left: l2, operator: o2, right: r2 },
        ) => o1.typ == o2.typ && same_shape(*l1, *l2) && same_shape(*r1, *r2),
        (
            ExprView::Assign { name: n1, value: v1 },
            ExprView::Assign { name: n2, value: v2 },
        ) => n1.lexeme == n2.lexeme && same_shape(*v1, *v2),
        (
            ExprView::Call { callee: c1, paren: _, arguments: a1 },
            ExprView::Call { callee: c2, paren: _, arguments: a2 },
        ) => same_shape(*c1, *c2) && a1.len() == a2.len() && forall|i: int|
            0 <= i < a1.len() ==> same_shape(#[trigger] a1[i], a2[i]),
        _ => false,
    }
}

/// The expressions whose prefix form is their own source text: the
/// literals `true`, `false` and `null`, and a variable whose name is a
/// word that is not reserved.
pub open spec fn atom(e: ExprView) -> bool {
    match e {
        ExprView::Literal { value } => value is Boolean || value is Null,
        ExprView::Variable { name } => word(name.lexeme) && keyword(name.lexeme) is Identifier,
        _ => false,
    }
}

proof fn lemma_skip_word(w: Seq<char>, pos: int)
    requires
        0 <= pos <= w.len(),
        forall|i: int| pos <= i < w.len() ==> is_alpha_numeric(#[trigger] w[i]),
    ensures
        skip(w, pos, CharClass::AlphaNumeric) == w.len(),
    decreases w.len() - pos,
{
    if pos < w.len() {
        lemma_skip_word(w, pos + 1);
    }
}

/// A text that is one word scans to one token, of the kind of the word,
/// and the end token.
pub proof fn lemma_word_scans(
    w: Seq<char>,
    line: int,
    read: spec_fn(Seq<char>) -> NumberView,
)
    requires
        word(w),
    ensures
        scan(w, 0, line, read) == (Scan {
            tokens: seq![
                TokenView { lexeme: w, line: line as u32, typ: keyword(w) },
                end_token(line),
            ],
            errors: Seq::empty(),
            line,
        }),
{
    lemma_skip_word(w, 0);
    let step = lexeme_at(w, 0, line, read);
    assert(step == identifier_lexeme(w, 0, line));
    assert(w.subrange(0, w.len() as int) =~= w);
    let rest = scan(w, w.len() as int, line, read);
    assert(rest.tokens =~= seq![end_token(line)]);
    let whole = scan(w, 0, line, read);
    assert(whole.tokens =~= seq![
        TokenView { lexeme: w, line: line as u32, typ: keyword(w) },
        end_token(line),
    ]);
    assert(whole.errors =~= Seq::<Seq<char>>::empty());
}

/// The atom that a token stands for.
pub open spec fn atom_of(token: TokenView) -> ExprView {
    match token.typ {
        TokenTypeView::True => ExprView::Literal { value: ValueView::Boolean(true) },
        TokenTypeView::False => ExprView::Literal { value: ValueView::Boolean(false) },
        TokenTypeView::Null => ExprView::Literal { value: ValueView::Null },
        _ => ExprView::Variable { name: token },
    }
}

/// Whether a token list is one atom and the end token.
pub open spec fn lone_atom(ts: Seq<TokenView>) -> bool {
    &&& ts.len() == 2
    &&& ts[1].typ is EOF
    &&& (ts[0].typ is True || ts[0].typ is False || ts[0].typ is Null || ts[0].typ is Identifier)
}

proof fn lemma_atom_at_level(ts: Seq<TokenView>, level: nat)
    requires
        lone_atom(ts),
        level <= 5,
    ensures
        binary(ts, 0, level) == (Ok::<ExprView, crate::parser::ParseError>(atom_of(ts[0])), 1int),
    decreases level,
{
    assert(primary(ts, 0) == (Ok::<ExprView, crate::parser::ParseError>(atom_of(ts[0])), 1int));
    assert(call_rest(ts, 1, atom_of(ts[0])).1 == 1);
    assert(call(ts, 0) == (Ok::<ExprView, crate::parser::ParseError>(atom_of(ts[0])), 1int));
    assert(unary(ts, 0) == (Ok::<ExprView, crate::parser::ParseError>(atom_of(ts[0])), 1int));
    if level > 0 {
        lemma_atom_at_level(ts, (level - 1) as nat);
    }
    assert(binary_rest(ts, 1, atom_of(ts[0]), level) == (
        Ok::<ExprView, crate::parser::ParseError>(atom_of(ts[0])),
        1int,
    ));
}

/// One atom and the end token parse to that atom.
pub proof fn lemma_atom_parses(ts: Seq<TokenView>)
    requires
        lone_atom(ts),
    ensures
        assignment(ts, 0) == (Ok::<ExprView, crate::parser::ParseError>(atom_of(ts[0])), 1int),
{
    lemma_atom_at_level(ts, 5);
}

/// The kinds of the reserved words `true`, `false` and `null`.
pub proof fn lemma_literal_words()
    ensures
        word("true"@),
        word("false"@),
        word("null"@),
        keyword("true"@) is True,
        keyword("false"@) is False,
        keyword("null"@) is Null,
{
    reveal_strlit("and");
    reveal_strlit("else");
    reveal_strlit("false");
    reveal_strlit("for");
    reveal_strlit("fn");
    reveal_strlit("if");
    reveal_strlit("null");
    reveal_strlit("or");
    reveal_strlit("print");
    reveal_strlit("return");
    reveal_strlit("true");
    reveal_strlit("let");
    reveal_strlit("while");
    assert("true"@[0] == 't' && "true"@[3] == 'e');
    assert("false"@[0] == 'f' && "false"@[4] == 'e');
    assert("null"@[0] == 'n' && "null"@[3] == 'l');
    assert("true"@ != "null"@) by {
        assert("true"@[0] != "null"@[0]);
    }
    assert("false"@ != "else"@) by {
        assert("false"@.len() != "else"@.len());
    }
}

/// Print, scan and parse give an atom back. When the prefix form of an
/// atom is scanned, on any line and with any reader of numbers, and the
/// tokens are parsed as an expression, the parser yields an expression of
/// the same shape as the atom.
pub proof fn lemma_atom_round_trip(
    e: ExprView,
    line: int,
    read: spec_fn(Seq<char>) -> NumberView,
)
    requires
        atom(e),
    ensures
        assignment(scan(expr_text(e), 0, line, read).tokens, 0).0 matches Ok(again) && same_shape(
            again,
            e,
        ),
{
    lemma_literal_words();
    let text = expr_text(e);
    assert(word(text) && match e {
        ExprView::Literal { value } => match value {
            ValueView::Boolean(b) => if b {
                keyword(text) is True
            } else {
                keyword(text) is False
            },
            _ => keyword(text) is Null,
        },
        _ => keyword(text) is Identifier,
    });
    lemma_word_scans(text, line, read);
    let ts = scan(text, 0, line, read).tokens;
    assert(lone_atom(ts));
    lemma_atom_parses(ts);
}

} // verus!
