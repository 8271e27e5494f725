use vstd::prelude::*;
use crate::ast::{
    Argument, Assignment, Block, Expression, FunctionDecl, Ident, IdentOrType, IdentPattern,
    IdentifierPath, If, LambdaArrowKind, LambdaDecl, Literal, LiteralKind, Module, Operand,
    Operator, Pattern, PatternKind, PrimaryExpr, Program, RangeExpr, SecondaryExpr, Statement,
    StructCtor, StructField, TopLevel, UnaryExpr,
};
use crate::ast::{
    view_expressions, view_arguments, view_fields, view_operand, view_path, view_primary, view_secondaries, view_statements,
    view_unary, SpecExpression, SpecLiteral, SpecOperand, SpecPattern, SpecPrimary, SpecSecondary,
    SpecSegment, SpecStatement, SpecUnary,
};
use crate::do_expr::{
    do_expression_at, valid_block, valid_expr, valid_exprs, valid_fields, valid_operand,
    valid_secondaries, valid_secondary, valid_statement, valid_unary,
};
use crate::lexer::{lex, Keyword, SourceSpan, Token, TokenKind};
use crate::lexer::{all_digits, keyword_word, plain_line, lemma_if_then_words};

verus! {

/// Why parsing stopped.
#[derive(Debug)]
pub enum ParseError {
    /// The input does not start with what was tried; another alternative may fit.
    Fail,
    /// The input is malformed at the given place.
    HardError(String, SourceSpan),
}

/// Where parsing stands: the indentation of the enclosing block, and whether
/// an ungrouped argument list is being read (which leaves a trailing `?` and
/// continuation lines to the call that owns the list).
#[derive(Clone, Copy, Debug)]
pub struct Ctx {
    pub indent: usize,
    pub inside_args: bool,
}

/// How deeply constructs may nest; far beyond what any input reaches.
pub const PARSE_FUEL: u64 = 0xffff_ffff_ffff_ffff;

/// A successful parse consumed at least one token and stayed within the input.
pub open spec fn advanced<T>(r: Result<(usize, T), ParseError>, pos: usize, len: int) -> bool {
    r matches Ok((p, _)) ==> pos < p && p <= len
}

/// The token at `p` ends an expression: a closing bracket, a comma, a
/// semicolon, `then`, `else`, or the end of the last line.
pub open spec fn closes_at(tokens: Seq<Token>, p: int) -> bool {
    &&& 0 <= p < tokens.len()
    &&& match tokens[p].kind {
        TokenKind::CloseParen | TokenKind::CloseBracket | TokenKind::Comma | TokenKind::Semicolon => true,
        TokenKind::Keyword(k) => k == Keyword::Then || k == Keyword::Else,
        TokenKind::Eol => p + 1 == tokens.len(),
        _ => false,
    }
}

/// Whether the token at `p` is an operator written as an infix one (not
/// stuck to what follows it only).
pub open spec fn infix_token(tokens: Seq<Token>, p: int) -> bool {
    &&& 0 <= p < tokens.len()
    &&& tokens[p].kind == TokenKind::Operator
    &&& !(tokens[p].space_before && !tokens[p].space_after)
}

/// A token at `p` that ends a primary expression inside a block indented
/// `indent`: one that ends an expression there, or an infix operator.
pub open spec fn ends_primary_in(tokens: Seq<Token>, p: int, indent: int) -> bool {
    closes_in(tokens, p, indent) || infix_token(tokens, p)
}

/// A number literal at `p`, followed by a token that ends an expression.
pub open spec fn closed_number_at(tokens: Seq<Token>, p: int) -> bool {
    &&& 0 <= p
    &&& p + 1 < tokens.len()
    &&& tokens[p].kind == TokenKind::Number
    &&& closes_at(tokens, p + 1)
}

/// A token at `p` that ends an expression inside a block indented `indent`:
/// one that `closes_at`, or an end of line followed by a line that is not
/// indented deeper than `indent`.
pub open spec fn closes_in(tokens: Seq<Token>, p: int, indent: int) -> bool {
    ||| closes_at(tokens, p)
    ||| {
        &&& 0 <= p
        &&& p + 1 < tokens.len()
        &&& tokens[p].kind == TokenKind::Eol
        &&& tokens[p + 1].first_on_line
        &&& !blank_kind(tokens[p + 1].kind)
        &&& tokens[p + 1].indent <= indent
    }
}

/// Whether the token at `p` is a number or a name.
pub open spec fn atom_at(tokens: Seq<Token>, p: int) -> bool {
    kind_is(tokens, p, TokenKind::Number) || kind_is(tokens, p, TokenKind::Ident)
}

/// Whether the tokens at `p` are `loop` at the end of a line and one line
/// `break` indented deeper than `indent`, after which the expression ends
/// inside a block indented `indent`.
pub open spec fn loop_break_in(tokens: Seq<Token>, p: int, indent: int) -> bool {
    &&& kind_is(tokens, p, TokenKind::Keyword(Keyword::Loop))
    &&& kind_is(tokens, p + 1, TokenKind::Eol)
    &&& kind_is(tokens, p + 2, TokenKind::Keyword(Keyword::Break))
    &&& tokens[p + 2].first_on_line
    &&& tokens[p + 2].indent > indent
    &&& kind_is(tokens, p + 3, TokenKind::Eol)
    &&& closes_in(tokens, p + 3, indent)
}

/// The operand of a loop whose body is `break`.
pub open spec fn loop_break_operand() -> SpecOperand {
    SpecOperand::Loop(seq![SpecStatement::Break])
}

/// Whether the tokens at `p` are a lambda `-> return n` (a number `n`)
/// written on one line, followed by a token that ends an expression inside a
/// block indented `indent`.
pub open spec fn lambda_return_in(tokens: Seq<Token>, p: int, indent: int) -> bool {
    &&& kind_is(tokens, p, TokenKind::Arrow)
    &&& kind_is(tokens, p + 1, TokenKind::Keyword(Keyword::Return))
    &&& kind_is(tokens, p + 2, TokenKind::Number)
    &&& closes_in(tokens, p + 3, indent)
}

/// The operand `-> return n` at `p` stands for.
pub open spec fn lambda_return_operand(tokens: Seq<Token>, p: int) -> SpecOperand {
    SpecOperand::Lambda {
        parameters: seq![],
        body: seq![SpecStatement::Return(Some(simple_expression(tokens, p + 2)))],
        arrow_kind: LambdaArrowKind::Normal,
    }
}

/// Whether the tokens at `p` are `if n then return m` (numbers `n`, `m`),
/// followed by a token that ends an expression inside a block indented
/// `indent` and by no `else`, on that line or the next.
pub open spec fn if_return_in(tokens: Seq<Token>, p: int, indent: int) -> bool {
    &&& kind_is(tokens, p, TokenKind::Keyword(Keyword::If))
    &&& kind_is(tokens, p + 1, TokenKind::Number)
    &&& kind_is(tokens, p + 2, TokenKind::Keyword(Keyword::Then))
    &&& kind_is(tokens, p + 3, TokenKind::Keyword(Keyword::Return))
    &&& kind_is(tokens, p + 4, TokenKind::Number)
    &&& closes_in(tokens, p + 5, indent)
    &&& !kind_is(tokens, p + 5, TokenKind::Keyword(Keyword::Else))
    &&& !kind_is(tokens, p + 6, TokenKind::Keyword(Keyword::Else))
}

/// The operand `if n then return m` at `p` stands for.
pub open spec fn if_return_operand(tokens: Seq<Token>, p: int) -> SpecOperand {
    SpecOperand::If {
        cond: Box::new(simple_expression(tokens, p + 1)),
        then_branch: seq![SpecStatement::Return(Some(simple_expression(tokens, p + 4)))],
        else_: None,
    }
}

/// The expression `if n then return m` at `p` stands for.
pub open spec fn if_return_expression(tokens: Seq<Token>, p: int) -> SpecExpression {
    crate::do_expr::spec_expr(if_return_operand(tokens, p))
}

/// Whether the tokens at `p` are a name called without arguments whose
/// result is propagated (`name!?`), followed by a token that ends an
/// expression inside a block indented `indent`.
pub open spec fn propagated_call_in(tokens: Seq<Token>, p: int, indent: int) -> bool {
    kind_is(tokens, p, TokenKind::Ident) && propagated_at(tokens, p + 1, indent)
}

/// The primary expression `name!?` at `p` stands for.
pub open spec fn propagated_call_primary(tokens: Seq<Token>, p: int) -> SpecPrimary {
    SpecPrimary {
        operand: atom_operand(tokens[p]),
        secondaries: Some(seq![SpecSecondary::Arguments(seq![]), SpecSecondary::Interogation]),
    }
}

/// The expression `name!?` at `p` stands for.
pub open spec fn propagated_call_expression(tokens: Seq<Token>, p: int) -> SpecExpression {
    SpecExpression::Unary(SpecUnary::Primary(propagated_call_primary(tokens, p)))
}

/// Whether the tokens at `p` are `!` then `?` (a call without arguments whose
/// result is propagated), followed by a token that ends an expression inside
/// a block indented `indent`.
pub open spec fn propagated_at(tokens: Seq<Token>, p: int, indent: int) -> bool {
    &&& kind_is(tokens, p, TokenKind::Bang)
    &&& kind_is(tokens, p + 1, TokenKind::Question)
    &&& closes_in(tokens, p + 2, indent)
}

/// A number or name at `p`, alone before a token that ends an expression
/// inside a block indented `indent` and is no `,`.
pub open spec fn lone_atom_in(tokens: Seq<Token>, p: int, indent: int) -> bool {
    &&& atom_at(tokens, p)
    &&& closes_in(tokens, p + 1, indent)
    &&& !kind_is(tokens, p + 1, TokenKind::Comma)
}

/// Whether the tokens at `p` are a name called with one number or name,
/// written after it with a space (`f x`).
pub open spec fn call_with_atom_at(tokens: Seq<Token>, p: int) -> bool {
    &&& kind_is(tokens, p, TokenKind::Ident)
    &&& atom_at(tokens, p + 1)
    &&& tokens[p + 1].space_before
}

/// The parsing budget that a simple value at `p` takes beyond that of a
/// number: a call with an argument parses its argument list.
pub open spec fn value_fuel(tokens: Seq<Token>, p: int) -> int {
    if call_with_atom_at(tokens, p) {
        8
    } else {
        0
    }
}

/// The pattern that a name or `_` written alone stands for.
pub open spec fn simple_pattern(t: Token) -> SpecPattern {
    if t.kind == TokenKind::Underscore {
        SpecPattern::Wildcard
    } else {
        SpecPattern::Ident { name: t.text@, mut_: false }
    }
}

/// Whether the tokens at `p` are a name or `_`, then `=`.
pub open spec fn assignment_head_at(tokens: Seq<Token>, p: int) -> bool {
    &&& (kind_is(tokens, p, TokenKind::Ident) || kind_is(tokens, p, TokenKind::Underscore))
    &&& kind_is(tokens, p + 1, TokenKind::Assign)
}

/// The number of tokens of a simple value at `p`: a number or a name, with
/// the `!` of a call without arguments, or the one number or name a name is
/// called with, where one follows.
pub open spec fn value_len(tokens: Seq<Token>, p: int) -> int {
    if kind_is(tokens, p + 1, TokenKind::Bang) || call_with_atom_at(tokens, p) {
        2
    } else {
        1
    }
}

/// A simple value at `p`, followed by a token that ends an expression inside
/// a block indented `indent` (no `,` after a call with an argument).
pub open spec fn closed_value_in(tokens: Seq<Token>, p: int, indent: int) -> bool {
    &&& 0 <= p
    &&& p + value_len(tokens, p) < tokens.len()
    &&& (tokens[p].kind == TokenKind::Number || tokens[p].kind == TokenKind::Ident)
    &&& closes_in(tokens, p + value_len(tokens, p), indent)
    &&& call_with_atom_at(tokens, p) ==> !kind_is(tokens, p + 2, TokenKind::Comma)
}

/// A simple value at `p` that a primary expression ends after: followed by
/// a token that ends an expression or by an infix operator (a call with an
/// argument only by the former).
pub open spec fn primary_value_in(tokens: Seq<Token>, p: int, indent: int) -> bool {
    &&& 0 <= p
    &&& p + value_len(tokens, p) < tokens.len()
    &&& (tokens[p].kind == TokenKind::Number || tokens[p].kind == TokenKind::Ident)
    &&& if call_with_atom_at(tokens, p) {
        closes_in(tokens, p + 2, indent) && !kind_is(tokens, p + 2, TokenKind::Comma)
    } else {
        ends_primary_in(tokens, p + value_len(tokens, p), indent)
    }
}

/// Whether the tokens at `p` are a simple value (not a call with an
/// argument), an infix operator, and a number or name.
pub open spec fn binop_shape_at(tokens: Seq<Token>, p: int) -> bool {
    &&& !call_with_atom_at(tokens, p)
    &&& infix_token(tokens, p + value_len(tokens, p))
    &&& atom_at(tokens, p + value_len(tokens, p) + 1)
}

/// Where the right operand of a simple operation at `p` starts.
pub open spec fn right_operand_at(tokens: Seq<Token>, p: int) -> int {
    p + value_len(tokens, p) + 1
}

/// A simple expression at `p` followed by a token that ends an expression
/// inside a block indented `indent`: a simple value, or two joined by an
/// infix operator (`v op w`).
pub open spec fn closed_expr_in(tokens: Seq<Token>, p: int, indent: int) -> bool {
    if binop_shape_at(tokens, p) {
        &&& 0 <= p
        &&& (tokens[p].kind == TokenKind::Number || tokens[p].kind == TokenKind::Ident)
        &&& closed_value_in(tokens, right_operand_at(tokens, p), indent)
    } else {
        closed_value_in(tokens, p, indent)
    }
}

/// The number of tokens of the simple expression at `p`.
pub open spec fn expr_len(tokens: Seq<Token>, p: int) -> int {
    if binop_shape_at(tokens, p) {
        right_operand_at(tokens, p) + value_len(tokens, right_operand_at(tokens, p)) - p
    } else {
        value_len(tokens, p)
    }
}

/// The parsing budget that the simple expression at `p` takes beyond that of
/// a number.
pub open spec fn expr_fuel(tokens: Seq<Token>, p: int) -> int {
    if binop_shape_at(tokens, p) {
        2 + value_fuel(tokens, right_operand_at(tokens, p))
    } else {
        value_fuel(tokens, p)
    }
}

/// The expression that the simple expression at `p` stands for.
pub open spec fn simple_expression(tokens: Seq<Token>, p: int) -> SpecExpression {
    if binop_shape_at(tokens, p) {
        SpecExpression::Binop(
            SpecUnary::Primary(value_primary(tokens, p)),
            tokens[p + value_len(tokens, p)].text@,
            Box::new(value_expression(tokens, right_operand_at(tokens, p))),
        )
    } else {
        value_expression(tokens, p)
    }
}

/// The primary expression a simple value at `p` stands for.
pub open spec fn value_primary(tokens: Seq<Token>, p: int) -> SpecPrimary {
    SpecPrimary {
        operand: atom_operand(tokens[p]),
        secondaries: if kind_is(tokens, p + 1, TokenKind::Bang) {
            Some(seq![SpecSecondary::Arguments(seq![])])
        } else if call_with_atom_at(tokens, p) {
            Some(
                seq![
                    SpecSecondary::Arguments(
                        seq![crate::do_expr::spec_expr(atom_operand(tokens[p + 1]))],
                    ),
                ],
            )
        } else {
            None
        },
    }
}

/// The expression a simple value at `p` stands for.
pub open spec fn value_expression(tokens: Seq<Token>, p: int) -> SpecExpression {
    SpecExpression::Unary(SpecUnary::Primary(value_primary(tokens, p)))
}

/// The operand a number or name token stands for.
pub open spec fn atom_operand(t: Token) -> SpecOperand {
    if t.kind == TokenKind::Number {
        number_operand(t)
    } else {
        SpecOperand::Ident(seq![SpecSegment::Ident(t.text@)])
    }
}

/// The operand a number token stands for.
pub open spec fn number_operand(t: Token) -> SpecOperand {
    SpecOperand::Literal(SpecLiteral::Number(t.text@))
}

/// The expression a number token stands for.
pub open spec fn number_expression(t: Token) -> SpecExpression {
    crate::do_expr::spec_expr(number_operand(t))
}

/// The operand `it` that sections and receiver shorthands apply to.
pub open spec fn it_operand() -> SpecOperand {
    SpecOperand::Ident(seq![SpecSegment::Ident("it"@)])
}

/// The lambda `it -> body` of a section or a receiver shorthand.
pub open spec fn it_lambda(body: SpecExpression, arrow_kind: LambdaArrowKind) -> SpecOperand {
    SpecOperand::Lambda {
        parameters: seq![SpecPattern::Ident { name: "it"@, mut_: false }],
        body: seq![SpecStatement::Expression(body)],
        arrow_kind,
    }
}

/// Whether the token at `p` has kind `k`.
pub open spec fn kind_is(tokens: Seq<Token>, p: int, k: TokenKind) -> bool {
    0 <= p < tokens.len() && tokens[p].kind == k
}

/// The place of the token at `pos`; past the last token, the empty place
/// after it.
pub open spec fn span_at(tokens: Seq<Token>, pos: int) -> SourceSpan {
    if 0 <= pos < tokens.len() {
        tokens[pos].span
    } else if tokens.len() > 0 {
        SourceSpan { start: tokens.last().span.end, end: tokens.last().span.end }
    } else {
        SourceSpan { start: 0, end: 0 }
    }
}

/// The place of the token at `pos`.
pub fn span_of(tokens: &Vec<Token>, pos: usize) -> (r: SourceSpan)
    ensures
        r == span_at(tokens@, pos as int),
{
    if pos < tokens.len() {
        tokens[pos].span
    } else if tokens.len() > 0 {
        let end = tokens[tokens.len() - 1].span.end;
        SourceSpan { start: end, end }
    } else {
        SourceSpan { start: 0, end: 0 }
    }
}

/// A hard error with the given message, at the token at `pos`.
pub fn hard<T>(tokens: &Vec<Token>, pos: usize, message: &str) -> (r: Result<T, ParseError>)
    ensures
        r matches Err(ParseError::HardError(m, s)) && m@ == message@ && s == span_at(tokens@, pos as int),
{
    Err(ParseError::HardError(message.to_owned(), span_of(tokens, pos)))
}

/// A hard error in source text that could not be split into tokens; it is
/// placed at the start of the source.
pub fn hard_in_source<T>(message: &str) -> (r: Result<T, ParseError>)
    ensures
        r matches Err(ParseError::HardError(m, s)) && m@ == message@ && s == (SourceSpan { start: 0, end: 0 }),
{
    Err(ParseError::HardError(message.to_owned(), SourceSpan { start: 0, end: 0 }))
}

/// The error for input nested beyond the parsing budget, at the token at `pos`.
pub fn too_deep<T>(tokens: &Vec<Token>, pos: usize) -> (r: Result<T, ParseError>)
    ensures
        r matches Err(ParseError::HardError(m, _)) && m@ == "Expression nesting is too deep"@,
{
    hard(tokens, pos, "Expression nesting is too deep")
}

pub fn kind_at(tokens: &Vec<Token>, pos: usize) -> (r: Option<TokenKind>)
    ensures
        pos < tokens.len() ==> r == Some(tokens@[pos as int].kind),
        pos >= tokens.len() ==> r is None,
{
    if pos < tokens.len() {
        Some(tokens[pos].kind)
    } else {
        None
    }
}

pub fn is_kind(tokens: &Vec<Token>, pos: usize, kind: TokenKind) -> (r: bool)
    ensures
        r == (pos < tokens.len() && tokens@[pos as int].kind == kind),
{
    pos < tokens.len() && tokens[pos].kind == kind
}

/// Skips ends of lines and comment lines.
pub fn skip_blank(tokens: &Vec<Token>, pos: usize) -> (r: usize)
    requires
        pos <= tokens.len(),
    ensures
        pos <= r <= tokens.len(),
        forall|k: int|
            pos <= k < r ==> (#[trigger] tokens@[k]).kind == TokenKind::Eol || tokens@[k].kind
                == TokenKind::Comment,
        r < tokens.len() ==> tokens@[r as int].kind != TokenKind::Eol && tokens@[r as int].kind
            != TokenKind::Comment,
{
    let mut p = pos;
    while p < tokens.len() && (tokens[p].kind == TokenKind::Eol || tokens[p].kind
        == TokenKind::Comment)
        invariant
            pos <= p <= tokens.len(),
            forall|k: int|
                pos <= k < p ==> (#[trigger] tokens@[k]).kind == TokenKind::Eol || tokens@[k].kind
                    == TokenKind::Comment,
        decreases tokens.len() - p,
    {
        p = p + 1;
    }
    p
}

/// Whether a token is an end of line or a comment line.
pub open spec fn blank_kind(k: TokenKind) -> bool {
    k == TokenKind::Eol || k == TokenKind::Comment
}

/// The end of line at `pos` is followed, after blank lines, by the token at
/// `q`, which starts a line indented deeper than the enclosing block, and
/// `pos` is not inside an ungrouped argument list.
pub open spec fn continues_at(tokens: Seq<Token>, pos: int, ctx: Ctx, q: int) -> bool {
    &&& !ctx.inside_args
    &&& 0 <= pos < q < tokens.len()
    &&& tokens[pos].kind == TokenKind::Eol
    &&& forall|k: int| pos < k < q ==> blank_kind(#[trigger] tokens[k].kind)
    &&& !blank_kind(tokens[q].kind)
    &&& tokens[q].first_on_line
    &&& tokens[q].indent > ctx.indent
}

/// At an end of line, the first token of the next line that continues the
/// current expression: one indented deeper than the enclosing block, outside
/// an ungrouped argument list.
fn continuation(tokens: &Vec<Token>, pos: usize, ctx: Ctx) -> (r: Option<usize>)
    requires
        pos <= tokens.len(),
    ensures
        r matches Some(q) ==> pos < q < tokens.len() && continues_at(tokens@, pos as int, ctx, q as int),
        r is None ==> forall|q: int| !continues_at(tokens@, pos as int, ctx, q),
{
    if ctx.inside_args || !is_kind(tokens, pos, TokenKind::Eol) {
        return None;
    }
    let q = skip_blank(tokens, pos + 1);
    if q < tokens.len() && tokens[q].first_on_line && tokens[q].indent > ctx.indent {
        Some(q)
    } else {
        assert forall|x: int| !continues_at(tokens@, pos as int, ctx, x) by {
            if continues_at(tokens@, pos as int, ctx, x) {
                if x < q {
                    assert(blank_kind(tokens@[x].kind));
                } else if x > q {
                    assert(blank_kind(tokens@[q as int].kind));
                }
            }
        }
        None
    }
}

/// An operator written like a prefix (a space before it, none after).
fn prefix_looking(t: &Token) -> (r: bool)
    ensures
        r == (t.space_before && !t.space_after),
{
    t.space_before && !t.space_after
}

/// An operator used between two operands.
fn infix_at(tokens: &Vec<Token>, pos: usize) -> (r: bool)
    ensures
        r ==> pos < tokens.len(),
        r == (pos < tokens.len() && tokens@[pos as int].kind == TokenKind::Operator && !(
        tokens@[pos as int].space_before && !tokens@[pos as int].space_after)),
{
    pos < tokens.len() && tokens[pos].kind == TokenKind::Operator && !prefix_looking(&tokens[pos])
}

fn is_arrow(k: TokenKind) -> (r: bool)
    ensures
        r == (k == TokenKind::Arrow || k == TokenKind::BangArrow),
{
    k == TokenKind::Arrow || k == TokenKind::BangArrow
}

fn is_name(k: TokenKind) -> (r: bool)
    ensures
        r == (k == TokenKind::Ident || k == TokenKind::Underscore),
{
    k == TokenKind::Ident || k == TokenKind::Underscore
}

/// Whether a token of kind `k` can begin an expression.
pub open spec fn begins_expression(k: TokenKind) -> bool {
    match k {
        TokenKind::Ident | TokenKind::Underscore | TokenKind::TypeName | TokenKind::Number
        | TokenKind::Str | TokenKind::OpenParen | TokenKind::OpenBracket | TokenKind::Arrow
        | TokenKind::BangArrow | TokenKind::DotDot | TokenKind::DotDotEq | TokenKind::Operator => true,
        TokenKind::Keyword(k) => k == Keyword::True || k == Keyword::False || k == Keyword::If || k
            == Keyword::Do || k == Keyword::Loop,
        _ => false,
    }
}

/// Whether the token `t` begins a juxtaposed argument of a call: it follows
/// a space and begins an expression, an operator only if written as a
/// prefix, and never an arrow or a range.
pub open spec fn begins_argument(t: Token) -> bool {
    &&& t.space_before
    &&& match t.kind {
        TokenKind::Operator => t.space_before && !t.space_after,
        TokenKind::Arrow | TokenKind::BangArrow | TokenKind::DotDot | TokenKind::DotDotEq => false,
        _ => begins_expression(t.kind),
    }
}

/// Whether the token can begin an expression.
fn starts_expression(tokens: &Vec<Token>, pos: usize) -> (r: bool)
    ensures
        r ==> pos < tokens.len(),
        r == (pos < tokens.len() && begins_expression(tokens@[pos as int].kind)),
{
    if pos >= tokens.len() {
        return false;
    }
    match tokens[pos].kind {
        TokenKind::Ident | TokenKind::Underscore | TokenKind::TypeName | TokenKind::Number
        | TokenKind::Str | TokenKind::OpenParen | TokenKind::OpenBracket | TokenKind::Arrow
        | TokenKind::BangArrow | TokenKind::DotDot | TokenKind::DotDotEq | TokenKind::Operator => {
            true
        },
        TokenKind::Keyword(k) => match k {
            Keyword::True | Keyword::False | Keyword::If | Keyword::Do | Keyword::Loop => true,
            _ => false,
        },
        _ => false,
    }
}

/// Whether the token begins a juxtaposed argument of a call.
fn starts_argument(tokens: &Vec<Token>, pos: usize) -> (r: bool)
    ensures
        r ==> pos < tokens.len(),
        r == (pos < tokens.len() && begins_argument(tokens@[pos as int])),
{
    if pos >= tokens.len() || !tokens[pos].space_before {
        return false;
    }
    match tokens[pos].kind {
        TokenKind::Operator => prefix_looking(&tokens[pos]),
        TokenKind::Arrow | TokenKind::BangArrow | TokenKind::DotDot | TokenKind::DotDotEq => false,
        _ => starts_expression(tokens, pos),
    }
}

fn ident_of(t: &Token) -> (r: Ident)
    ensures
        r.name@ == t.text@,
        r.span == t.span,
{
    Ident { name: t.text.clone(), span: t.span }
}

/// A lambda whose body is valid is a valid operand and expression.
proof fn lemma_valid_lambda(l: LambdaDecl)
    requires
        valid_block(view_statements(l.body.statements@)),
    ensures
        valid_operand(view_operand(Operand::LambdaDecl(l))),
        valid_expr(crate::do_expr::spec_expr(view_operand(Operand::LambdaDecl(l)))),
{
    let o = view_operand(Operand::LambdaDecl(l));
    assert(valid_operand(o));
    let u = SpecUnary::Primary(crate::ast::SpecPrimary { operand: o, secondaries: None });
    assert(valid_unary(u));
    assert(valid_expr(crate::ast::SpecExpression::Unary(u)));
}

/// A block of one valid statement is valid.
proof fn lemma_valid_single(st: Statement)
    requires
        valid_statement(st@),
    ensures
        valid_block(view_statements(seq![st])),
{
    assert(view_statements(seq![st])[0] == st@);
}

/// A vector of one element.
fn single<T>(x: T) -> (r: Vec<T>)
    ensures
        r@ == seq![x],
{
    let mut v: Vec<T> = Vec::new();
    v.push(x);
    assert(v@ =~= seq![x]);
    v
}

fn path_operand(name: &str, span: SourceSpan) -> (r: Operand)
    ensures
        r is Ident,
        view_operand(r) == SpecOperand::Ident(seq![SpecSegment::Ident(name@)]),
{
    let path = IdentifierPath { path: single(IdentOrType::Ident(Ident { name: name.to_owned(), span })) };
    assert(view_path(path) =~= seq![SpecSegment::Ident(name@)]);
    Operand::Ident(path)
}

/// A pattern: `_`, a name, `mut name`, or a parenthesized list of patterns.
pub(crate) fn parse_pattern(tokens: &Vec<Token>, pos: usize, fuel: u64) -> (r: Result<
    (usize, Pattern),
    ParseError,
>)
    requires
        pos <= tokens.len(),
    ensures
        advanced(r, pos, tokens.len() as int),
        fuel > 0 && kind_is(tokens@, pos as int, TokenKind::Underscore) ==> (r matches Ok((p, pat))
            && p == pos + 1 && pat@ == SpecPattern::Wildcard),
        fuel > 0 && kind_is(tokens@, pos as int, TokenKind::Ident) ==> (r matches Ok((p, pat)) && p
            == pos + 1 && pat@ == (SpecPattern::Ident { name: tokens@[pos as int].text@, mut_: false })),
        fuel > 0 && kind_is(tokens@, pos as int, TokenKind::Keyword(Keyword::Mut)) && kind_is(
            tokens@,
            pos + 1,
            TokenKind::Ident,
        ) ==> (r matches Ok((p, pat)) && p == pos + 2 && pat@ == (SpecPattern::Ident {
            name: tokens@[pos + 1].text@,
            mut_: true,
        })),
        fuel > 0 && !kind_is(tokens@, pos as int, TokenKind::Underscore) && !kind_is(
            tokens@,
            pos as int,
            TokenKind::Ident,
        ) && !kind_is(tokens@, pos as int, TokenKind::Keyword(Keyword::Mut)) && !kind_is(
            tokens@,
            pos as int,
            TokenKind::OpenParen,
        ) ==> (r matches Err(ParseError::Fail)),
        forall|k: int|
            fuel > 1 && #[trigger] flat_tuple_at(tokens@, pos as int, k) ==> (r matches Ok((q, pat)) && q == pos + 2
                * k + 1 && pat@ is Tuple),
    decreases fuel,
{
    if fuel == 0 {
        return too_deep(tokens, pos);
    }
    match kind_at(tokens, pos) {
        Some(TokenKind::Underscore) => Ok((pos + 1, Pattern { kind: PatternKind::Wildcard })),
        Some(TokenKind::Ident) => Ok(
            (
                pos + 1,
                Pattern {
                    kind: PatternKind::Ident(
                        IdentPattern { name: ident_of(&tokens[pos]), mut_: false },
                    ),
                },
            ),
        ),
        Some(TokenKind::Keyword(Keyword::Mut)) => {
            if is_kind(tokens, pos + 1, TokenKind::Ident) {
                Ok(
                    (
                        pos + 2,
                        Pattern {
                            kind: PatternKind::Ident(
                                IdentPattern { name: ident_of(&tokens[pos + 1]), mut_: true },
                            ),
                        },
                    ),
                )
            } else {
                Err(ParseError::Fail)
            }
        },
        Some(TokenKind::OpenParen) => {
            let ghost shaped = fuel > 1 && exists|k: int| flat_tuple_at(tokens@, pos as int, k);
            let ghost k = choose|k: int| flat_tuple_at(tokens@, pos as int, k);
            proof {
                if shaped {
                    assert forall|k2: int| #[trigger] flat_tuple_at(tokens@, pos as int, k2) implies k2 == k by {
                        if k2 < k {
                            assert(kind_is(tokens@, pos + 2 + 2 * (k2 - 1), TokenKind::Comma));
                        } else if k < k2 {
                            assert(kind_is(tokens@, pos + 2 + 2 * (k - 1), TokenKind::Comma));
                        }
                    }
                }
            }
            let mut items: Vec<Pattern> = Vec::new();
            let mut p = pos + 1;
            let ghost mut count: int = 0;
            loop
                invariant_except_break
                    shaped ==> 0 <= count <= k - 1 && p == pos + 1 + 2 * count,
                invariant
                    fuel > 0,
                    pos < p <= tokens.len(),
                    kind_is(tokens@, pos as int, TokenKind::OpenParen),
                    shaped == (fuel > 1 && exists|k: int| flat_tuple_at(tokens@, pos as int, k)),
                    shaped ==> forall|k2: int| #[trigger] flat_tuple_at(tokens@, pos as int, k2) ==> k2 == k,
                    shaped ==> flat_tuple_at(tokens@, pos as int, k),
                ensures
                    pos < p <= tokens.len(),
                    shaped ==> p == pos + 2 * k,
                decreases tokens.len() - p,
            {
                proof {
                    if shaped {
                        assert(name_token_at(tokens@, pos + 1 + 2 * count));
                    }
                }
                let (q, item) = parse_pattern(tokens, p, fuel - 1)?;
                items.push(item);
                p = q;
                proof {
                    if shaped && count < k - 1 {
                        assert(kind_is(tokens@, pos + 2 + 2 * count, TokenKind::Comma));
                    }
                }
                if is_kind(tokens, p, TokenKind::Comma) {
                    p = p + 1;
                    proof {
                        count = count + 1;
                    }
                } else {
                    break ;
                }
            }
            if is_kind(tokens, p, TokenKind::CloseParen) {
                Ok((p + 1, Pattern { kind: PatternKind::Tuple(items) }))
            } else {
                Err(ParseError::Fail)
            }
        },
        _ => Err(ParseError::Fail),
    }
}

/// Whether the token at `p` is a name or `_`.
pub open spec fn name_token_at(tokens: Seq<Token>, p: int) -> bool {
    kind_is(tokens, p, TokenKind::Ident) || kind_is(tokens, p, TokenKind::Underscore)
}

/// Whether the tokens at `p` are a parenthesised list of `k` names or `_`
/// separated by commas.
pub open spec fn flat_tuple_at(tokens: Seq<Token>, p: int, k: int) -> bool {
    &&& k >= 1
    &&& kind_is(tokens, p, TokenKind::OpenParen)
    &&& forall|i: int| 0 <= i < k ==> #[trigger] name_token_at(tokens, p + 1 + 2 * i)
    &&& forall|i: int| 0 <= i < k - 1 ==> #[trigger] kind_is(tokens, p + 2 + 2 * i, TokenKind::Comma)
    &&& kind_is(tokens, p + 2 * k, TokenKind::CloseParen)
}

/// A lambda: parameters (several only where `multi`), an arrow, and a body
/// that is the rest of the line or an indented block.
pub(crate) fn parse_lambda(tokens: &Vec<Token>, pos: usize, ctx: Ctx, multi: bool, fuel: u64) -> (r:
    Result<(usize, LambdaDecl), ParseError>)
    requires
        pos <= tokens.len(),
    ensures
        advanced(r, pos, tokens.len() as int),
        r matches Ok((_, l)) ==> valid_block(view_statements(l.body.statements@)),
        fuel > 6 && kind_is(tokens@, pos as int, TokenKind::Arrow) && closed_number_at(tokens@, pos + 1)
            ==> (r matches Ok((p, l)) && p == pos + 2 && l.parameters@.len() == 0 && l.arrow_kind
            == LambdaArrowKind::Normal && view_statements(l.body.statements@) == seq![
            SpecStatement::Expression(number_expression(tokens@[pos + 1])),
        ]),
        fuel > 1 && kind_is(tokens@, pos as int, TokenKind::Number) ==> (r matches Err(ParseError::Fail)),
        fuel > 7 && lambda_return_in(tokens@, pos as int, ctx.indent as int) ==> (r matches Ok((p, l)) && p == pos + 3
            && view_operand(Operand::LambdaDecl(l)) == lambda_return_operand(tokens@, pos as int)),
    decreases fuel,
{
    if fuel == 0 {
        return too_deep(tokens, pos);
    }
    let mut parameters: Vec<Pattern> = Vec::new();
    let mut p = pos;
    if !(p < tokens.len() && is_arrow(tokens[p].kind)) {
        loop
            invariant
                fuel > 0,
                pos <= p <= tokens.len(),
                !kind_is(tokens@, pos as int, TokenKind::Arrow),
                fuel > 1 && kind_is(tokens@, pos as int, TokenKind::Number) ==> p == pos,
            ensures
                !(fuel > 1 && kind_is(tokens@, pos as int, TokenKind::Number)),
                !kind_is(tokens@, pos as int, TokenKind::Arrow),
            decreases tokens.len() - p,
        {
            let (q, param) = parse_pattern(tokens, p, fuel - 1)?;
            parameters.push(param);
            p = q;
            if multi && is_kind(tokens, p, TokenKind::Comma) {
                p = p + 1;
            } else {
                break ;
            }
        }
    }
    if !(p < tokens.len() && is_arrow(tokens[p].kind)) {
        return Err(ParseError::Fail);
    }
    let arrow_kind = if tokens[p].kind == TokenKind::BangArrow {
        LambdaArrowKind::Unit
    } else {
        LambdaArrowKind::Normal
    };
    p = p + 1;
    let body_ctx = Ctx { indent: ctx.indent, inside_args: false };
    if p >= tokens.len() {
        return hard(tokens, pos, "Expected a lambda body");
    }
    if tokens[p].kind == TokenKind::Eol {
        let q = skip_blank(tokens, p + 1);
        if q < tokens.len() && tokens[q].first_on_line && tokens[q].indent > ctx.indent {
            let (r, body) = parse_block(tokens, q, tokens[q].indent, fuel - 1)?;
            return Ok((r, LambdaDecl { parameters, body, arrow_kind, span: span_of(tokens, pos) }));
        }
        return hard(tokens, pos, "Expected a lambda body");
    }
    let (r, statement) = match parse_statement(tokens, p, body_ctx, fuel - 1) {
        Ok(x) => x,
        Err(ParseError::Fail) => {
            return hard(tokens, pos, "Expected a lambda body");
        },
        Err(e) => {
            return Err(e);
        },
    };
    let ghost no_params = parameters@.len() == 0;
    let lambda = LambdaDecl {
        parameters,
        body: Block { statements: single(statement) },
        arrow_kind,
        span: span_of(tokens, pos),
    };
    proof {
        if no_params {
            assert(crate::ast::view_patterns(lambda.parameters@) =~= seq![]);
        }
        if fuel > 7 && lambda_return_in(tokens@, pos as int, ctx.indent as int) {
            assert(no_params);
            assert(lambda.arrow_kind == LambdaArrowKind::Normal);
            assert(r == pos + 3);
            assert(view_statements(lambda.body.statements@) == seq![
                SpecStatement::Return(Some(simple_expression(tokens@, pos + 2))),
            ]);
        }
    }
    Ok((r, lambda))
}

/// Statements on successive lines at the block's indentation.
pub(crate) fn parse_block(tokens: &Vec<Token>, pos: usize, indent: usize, fuel: u64) -> (r: Result<
    (usize, Block),
    ParseError,
>)
    requires
        pos <= tokens.len(),
    ensures
        advanced(r, pos, tokens.len() as int),
        r matches Ok((_, b)) ==> valid_block(b@),
        fuel > 6 && closed_number_at(tokens@, pos as int) ==> (r matches Ok((p, b)) && p == pos + 1
            && b@ == seq![SpecStatement::Expression(number_expression(tokens@[pos as int]))]),
        fuel > 1 && kind_is(tokens@, pos as int, TokenKind::Keyword(Keyword::Break)) && kind_is(
            tokens@,
            pos + 1,
            TokenKind::Eol,
        ) && (pos + 2 == tokens.len() || (pos + 2 < tokens.len() && !blank_kind(tokens@[pos + 2].kind)
            && tokens@[pos + 2].indent < indent)) ==> (r matches Ok((p, b)) && p == pos + 1 && b@ == seq![
            SpecStatement::Break,
        ]),
    decreases fuel,
{
    if fuel == 0 {
        return too_deep(tokens, pos);
    }
    let ctx = Ctx { indent, inside_args: false };
    let (mut p, first) = match parse_statement(tokens, pos, ctx, fuel - 1) {
        Ok(x) => x,
        Err(ParseError::Fail) => {
            return hard(tokens, pos, "Expected a statement");
        },
        Err(e) => {
            return Err(e);
        },
    };
    let mut statements: Vec<Statement> = single(first);
    let ghost simple = fuel > 6 && closed_number_at(tokens@, pos as int);
    let ghost lone_break = fuel > 1 && kind_is(tokens@, pos as int, TokenKind::Keyword(Keyword::Break)) && kind_is(
        tokens@,
        pos + 1,
        TokenKind::Eol,
    ) && (pos + 2 == tokens.len() || (pos + 2 < tokens.len() && !blank_kind(tokens@[pos + 2].kind)
        && tokens@[pos + 2].indent < indent));
    loop
        invariant
            fuel > 0,
            pos < p <= tokens.len(),
            simple == (fuel > 6 && closed_number_at(tokens@, pos as int)),
            simple ==> p == pos + 1 && statements@.len() == 1 && statements@[0]@
                == SpecStatement::Expression(number_expression(tokens@[pos as int])),
            lone_break ==> p == pos + 1 && statements@.len() == 1 && statements@[0]@ == SpecStatement::Break,
            lone_break == (fuel > 1 && kind_is(tokens@, pos as int, TokenKind::Keyword(Keyword::Break)) && kind_is(
                tokens@,
                pos + 1,
                TokenKind::Eol,
            ) && (pos + 2 == tokens.len() || (pos + 2 < tokens.len() && !blank_kind(tokens@[pos + 2].kind)
                && tokens@[pos + 2].indent < indent))),
            forall|j: int| 0 <= j < statements@.len() ==> valid_statement(#[trigger] statements@[j]@),
        decreases tokens.len() - p,
    {
        if !is_kind(tokens, p, TokenKind::Eol) {
            break ;
        }
        let q = skip_blank(tokens, p + 1);
        if !(q < tokens.len() && tokens[q].first_on_line && tokens[q].indent == indent) {
            break ;
        }
        let (r, statement) = match parse_statement(tokens, q, ctx, fuel - 1) {
            Ok(x) => x,
            Err(ParseError::Fail) => {
                return hard(tokens, pos, "Expected a statement");
            },
            Err(e) => {
                return Err(e);
            },
        };
        statements.push(statement);
        p = r;
    }
    assert forall|j: int| 0 <= j < view_statements(statements@).len() implies valid_statement(
        #[trigger] view_statements(statements@)[j],
    ) by {
        assert(view_statements(statements@)[j] == statements@[j]@);
    }
    proof {
        if simple {
            assert(view_statements(statements@) =~= seq![
                SpecStatement::Expression(number_expression(tokens@[pos as int])),
            ]);
        }
        if lone_break {
            assert(view_statements(statements@) =~= seq![SpecStatement::Break]);
        }
    }
    Ok((p, Block { statements }))
}

/// Whether an assignment starts at `pos`: `name =`, `_ =` or `mut name =`.
pub open spec fn assignment_at(tokens: Seq<Token>, pos: int) -> bool {
    let kind_is = |i: int, k: TokenKind| 0 <= i < tokens.len() && tokens[i].kind == k;
    ||| (kind_is(pos, TokenKind::Ident) || kind_is(pos, TokenKind::Underscore)) && kind_is(
        pos + 1,
        TokenKind::Assign,
    )
    ||| kind_is(pos, TokenKind::Keyword(Keyword::Mut)) && kind_is(pos + 1, TokenKind::Ident)
        && kind_is(pos + 2, TokenKind::Assign)
}

/// Whether an assignment starts here: `name =`, `_ =` or `mut name =`.
fn assignment_ahead(tokens: &Vec<Token>, pos: usize) -> (r: bool)
    ensures
        r == assignment_at(tokens@, pos as int),
{
    if pos < tokens.len() && is_name(tokens[pos].kind) {
        is_kind(tokens, pos + 1, TokenKind::Assign)
    } else if is_kind(tokens, pos, TokenKind::Keyword(Keyword::Mut)) {
        is_kind(tokens, pos + 1, TokenKind::Ident) && is_kind(tokens, pos + 2, TokenKind::Assign)
    } else {
        false
    }
}

/// A statement: `return`, `break`, `continue`, an assignment, or an expression.
pub(crate) fn parse_statement(tokens: &Vec<Token>, pos: usize, ctx: Ctx, fuel: u64) -> (r: Result<
    (usize, Statement),
    ParseError,
>)
    requires
        pos <= tokens.len(),
    ensures
        advanced(r, pos, tokens.len() as int),
        r matches Ok((_, st)) ==> valid_statement(st@),
        fuel > 5 + expr_fuel(tokens@, pos as int) && closed_expr_in(tokens@, pos as int, ctx.indent as int) ==> (r matches Ok((p, st)) && p == pos + expr_len(tokens@, pos as int)
            && st@ == SpecStatement::Expression(simple_expression(tokens@, pos as int))),
        fuel > 5 + expr_fuel(tokens@, pos + 2) && assignment_head_at(tokens@, pos as int) && closed_expr_in(
            tokens@,
            pos + 2,
            ctx.indent as int,
        ) ==> (r matches Ok((p, st)) && p == pos + 2 + expr_len(tokens@, pos + 2) && st@
            == SpecStatement::Assignment(simple_pattern(tokens@[pos as int]), simple_expression(tokens@, pos + 2))),
        fuel > 5 && assignment_head_at(tokens@, pos as int) && propagated_call_in(tokens@, pos + 2, ctx.indent as int) ==> (
        r matches Ok((p, st)) && p == pos + 5 && st@ == SpecStatement::Assignment(
            simple_pattern(tokens@[pos as int]),
            propagated_call_expression(tokens@, pos + 2),
        )),
        fuel > 0 && kind_is(tokens@, pos as int, TokenKind::Keyword(Keyword::Break)) ==> (r matches Ok((p, st)) && p == pos + 1 && st@ == SpecStatement::Break),
        fuel > 0 && kind_is(tokens@, pos as int, TokenKind::Keyword(Keyword::Continue)) ==> (r matches Ok((p, st)) && p == pos + 1 && st@ == SpecStatement::Continue),
        fuel > 0 && kind_is(tokens@, pos as int, TokenKind::Keyword(Keyword::Return)) && !(pos + 1
            < tokens.len() && begins_expression(tokens@[pos + 1].kind)) ==> (r matches Ok((p, st)) && p
            == pos + 1 && st@ == SpecStatement::Return(None)),
        fuel > 5 + expr_fuel(tokens@, pos + 1) && kind_is(tokens@, pos as int, TokenKind::Keyword(Keyword::Return))
            && closed_expr_in(tokens@, pos + 1, ctx.indent as int) ==> (r matches Ok((p, st)) && p == pos + 1
            + expr_len(tokens@, pos + 1) && st@ == SpecStatement::Return(Some(simple_expression(tokens@, pos + 1)))),
        fuel > 14 && if_return_in(tokens@, pos as int, ctx.indent as int) ==> (r matches Ok((p, st)) && p == pos + 5
            && st@ == SpecStatement::Expression(if_return_expression(tokens@, pos as int))),
        fuel > 13 && assignment_head_at(tokens@, pos as int) && lambda_return_in(tokens@, pos + 2, ctx.indent as int)
            ==> (r matches Ok((p, st)) && p == pos + 5 && st@ == SpecStatement::Assignment(
            simple_pattern(tokens@[pos as int]),
            crate::do_expr::spec_expr(lambda_return_operand(tokens@, pos + 2)),
        )),
        fuel > 7 && assignment_head_at(tokens@, pos as int) && loop_break_in(tokens@, pos + 2, ctx.indent as int)
            ==> (r matches Ok((p, st)) && p == pos + 5 && st@ == SpecStatement::Assignment(
            simple_pattern(tokens@[pos as int]),
            crate::do_expr::spec_expr(loop_break_operand()),
        )),
    decreases fuel,
{
    if fuel == 0 {
        return too_deep(tokens, pos);
    }
    let ctx = Ctx { indent: ctx.indent, inside_args: false };
    match kind_at(tokens, pos) {
        Some(TokenKind::Keyword(Keyword::Return)) => {
            if starts_expression(tokens, pos + 1) {
                let (p, value) = parse_expression(tokens, pos + 1, ctx, fuel - 1)?;
                Ok((p, Statement::Return(Some(value))))
            } else {
                Ok((pos + 1, Statement::Return(None)))
            }
        },
        Some(TokenKind::Keyword(Keyword::Break)) => Ok((pos + 1, Statement::Break)),
        Some(TokenKind::Keyword(Keyword::Continue)) => Ok((pos + 1, Statement::Continue)),
        _ => {
            if assignment_ahead(tokens, pos) {
                let (p, pattern) = parse_pattern(tokens, pos, fuel - 1)?;
                if !is_kind(tokens, p, TokenKind::Assign) {
                    return hard(tokens, pos, "Expected '='");
                }
                let (q, value) = match parse_expression(tokens, p + 1, ctx, fuel - 1) {
                    Ok(x) => x,
                    Err(ParseError::Fail) => {
                        return hard(tokens, pos, "Expected a value after '='");
                    },
                    Err(e) => {
                        return Err(e);
                    },
                };
                Ok((q, Statement::Assignment(Assignment { pattern, value })))
            } else {
                let (p, e) = parse_expression(tokens, pos, ctx, fuel - 1)?;
                Ok((p, Statement::Expression(e)))
            }
        },
    }
}

/// An expression: a range, or infix operations, possibly cast with `as`.
pub(crate) fn parse_expression(tokens: &Vec<Token>, pos: usize, ctx: Ctx, fuel: u64) -> (r: Result<
    (usize, Expression),
    ParseError,
>)
    requires
        pos <= tokens.len(),
    ensures
        advanced(r, pos, tokens.len() as int),
        r matches Ok((_, e)) ==> valid_expr(e@),
        fuel > 4 + expr_fuel(tokens@, pos as int) && closed_expr_in(tokens@, pos as int, ctx.indent as int) ==> (r matches Ok((p, e)) && p == pos + expr_len(tokens@, pos as int)
            && e@ == simple_expression(tokens@, pos as int)),
        fuel > 4 && !ctx.inside_args && propagated_call_in(tokens@, pos as int, ctx.indent as int) ==> (r matches Ok((p, e))
            && p == pos + 3 && e@ == propagated_call_expression(tokens@, pos as int)),
        fuel > 13 && if_return_in(tokens@, pos as int, ctx.indent as int) ==> (r matches Ok((p, e)) && p == pos + 5
            && e@ == if_return_expression(tokens@, pos as int)),
        fuel > 12 && lambda_return_in(tokens@, pos as int, ctx.indent as int) ==> (r matches Ok((p, e)) && p == pos + 3
            && e@ == crate::do_expr::spec_expr(lambda_return_operand(tokens@, pos as int))),
        fuel > 6 && loop_break_in(tokens@, pos as int, ctx.indent as int) ==> (r matches Ok((p, e)) && p == pos + 3
            && e@ == crate::do_expr::spec_expr(loop_break_operand())),
    decreases fuel,
{
    if fuel == 0 {
        return too_deep(tokens, pos);
    }
    if is_kind(tokens, pos, TokenKind::DotDot) || is_kind(tokens, pos, TokenKind::DotDotEq) {
        let inclusive = tokens[pos].kind == TokenKind::DotDotEq;
        let (p, end) = parse_range_end(tokens, pos + 1, ctx, inclusive, fuel - 1)?;
        return Ok((p, Expression::Range(RangeExpr { start: None, end, inclusive })));
    }
    let (mut p, mut e) = parse_binop(tokens, pos, ctx, fuel - 1)?;
    if is_kind(tokens, p, TokenKind::DotDot) || is_kind(tokens, p, TokenKind::DotDotEq) {
        let inclusive = tokens[p].kind == TokenKind::DotDotEq;
        let (q, end) = parse_range_end(tokens, p + 1, ctx, inclusive, fuel - 1)?;
        p = q;
        e = Expression::Range(RangeExpr { start: Some(Box::new(e)), end, inclusive });
    }
    while is_kind(tokens, p, TokenKind::Keyword(Keyword::As)) && is_kind(
        tokens,
        p + 1,
        TokenKind::TypeName,
    )
        invariant
            fuel > 0,
            pos < p <= tokens.len(),
            valid_expr(e@),
            fuel > 4 + expr_fuel(tokens@, pos as int) && closed_expr_in(tokens@, pos as int, ctx.indent as int) ==> p == pos + expr_len(tokens@, pos as int) && e@
                == simple_expression(tokens@, pos as int),
            fuel > 4 && !ctx.inside_args && propagated_call_in(tokens@, pos as int, ctx.indent as int) ==> p == pos + 3 && e@
                == propagated_call_expression(tokens@, pos as int),
            fuel > 13 && if_return_in(tokens@, pos as int, ctx.indent as int) ==> p == pos + 5 && e@
                == if_return_expression(tokens@, pos as int),
            fuel > 12 && lambda_return_in(tokens@, pos as int, ctx.indent as int) ==> p == pos + 3 && e@
                == crate::do_expr::spec_expr(lambda_return_operand(tokens@, pos as int)),
            fuel > 6 && loop_break_in(tokens@, pos as int, ctx.indent as int) ==> p == pos + 3 && e@
                == crate::do_expr::spec_expr(loop_break_operand()),
        decreases tokens.len() - p,
    {
        e = Expression::CastExpr(Box::new(e), ident_of(&tokens[p + 1]));
        p = p + 2;
    }
    Ok((p, e))
}

fn parse_range_end(tokens: &Vec<Token>, pos: usize, ctx: Ctx, inclusive: bool, fuel: u64) -> (r:
    Result<(usize, Option<Box<Expression>>), ParseError>)
    requires
        0 < pos <= tokens.len(),
    ensures
        r matches Ok((p, _)) ==> pos <= p <= tokens.len(),
        r matches Ok((_, end)) ==> (end matches Some(x) ==> valid_expr((*x)@)),
        fuel > 4 && closed_number_at(tokens@, pos as int) ==> (r matches Ok((p, Some(x))) && p == pos
            + 1 && (*x)@ == number_expression(tokens@[pos as int])),
        fuel > 0 && closes_at(tokens@, pos as int) ==> if inclusive {
            r matches Err(ParseError::HardError(_, _))
        } else {
            r matches Ok((p, None)) && p == pos
        },
    decreases fuel,
{
    if fuel == 0 {
        return too_deep(tokens, pos);
    }
    if starts_expression(tokens, pos) && !is_kind(tokens, pos, TokenKind::DotDot) && !is_kind(
        tokens,
        pos,
        TokenKind::DotDotEq,
    ) {
        let (p, end) = parse_binop(tokens, pos, ctx, fuel - 1)?;
        Ok((p, Some(Box::new(end))))
    } else if inclusive {
        hard(tokens, pos, "An inclusive range requires an end")
    } else {
        Ok((pos, None))
    }
}

/// Operands joined by infix operators (right-nested); an operator may begin a
/// continuation line.
pub(crate) fn parse_binop(tokens: &Vec<Token>, pos: usize, ctx: Ctx, fuel: u64) -> (r: Result<
    (usize, Expression),
    ParseError,
>)
    requires
        pos <= tokens.len(),
    ensures
        advanced(r, pos, tokens.len() as int),
        r matches Ok((_, e)) ==> valid_expr(e@),
        fuel > 3 + expr_fuel(tokens@, pos as int) && closed_expr_in(tokens@, pos as int, ctx.indent as int) ==> (r matches Ok((p, e)) && p == pos + expr_len(tokens@, pos as int)
            && e@ == simple_expression(tokens@, pos as int)),
        fuel > 3 && !ctx.inside_args && propagated_call_in(tokens@, pos as int, ctx.indent as int) ==> (r matches Ok((p, e))
            && p == pos + 3 && e@ == propagated_call_expression(tokens@, pos as int)),
        fuel > 12 && if_return_in(tokens@, pos as int, ctx.indent as int) ==> (r matches Ok((p, e)) && p == pos + 5
            && e@ == if_return_expression(tokens@, pos as int)),
        fuel > 11 && lambda_return_in(tokens@, pos as int, ctx.indent as int) ==> (r matches Ok((p, e)) && p == pos + 3
            && e@ == crate::do_expr::spec_expr(lambda_return_operand(tokens@, pos as int))),
        fuel > 5 && loop_break_in(tokens@, pos as int, ctx.indent as int) ==> (r matches Ok((p, e)) && p == pos + 3
            && e@ == crate::do_expr::spec_expr(loop_break_operand())),
    decreases fuel,
{
    if fuel == 0 {
        return too_deep(tokens, pos);
    }
    let (p, left) = parse_unary(tokens, pos, ctx, fuel - 1)?;
    let op_pos = if infix_at(tokens, p) {
        Some(p)
    } else {
        match continuation(tokens, p, ctx) {
            Some(q) => if infix_at(tokens, q) {
                Some(q)
            } else {
                None
            },
            None => None,
        }
    };
    match op_pos {
        Some(o) => {
            let op = Operator { value: tokens[o].text.clone() };
            let (q, right) = match parse_binop(tokens, o + 1, ctx, fuel - 1) {
                Ok(x) => x,
                Err(ParseError::Fail) => {
                    return hard(tokens, pos, "Expected an operand after the operator");
                },
                Err(e) => {
                    return Err(e);
                },
            };
            Ok((q, Expression::BinopExpr(left, op, Box::new(right))))
        },
        None => Ok((p, Expression::UnaryExpr(left))),
    }
}

/// Prefix operators (`-`, `&`, `&mut`, ...) before a primary expression.
pub(crate) fn parse_unary(tokens: &Vec<Token>, pos: usize, ctx: Ctx, fuel: u64) -> (r: Result<
    (usize, UnaryExpr),
    ParseError,
>)
    requires
        pos <= tokens.len(),
    ensures
        advanced(r, pos, tokens.len() as int),
        r matches Ok((_, u)) ==> valid_unary(view_unary(u)),
        fuel > 2 + value_fuel(tokens@, pos as int) && primary_value_in(tokens@, pos as int, ctx.indent as int) ==> (r matches Ok((p, u)) && p == pos + value_len(tokens@, pos as int)
            && view_unary(u) == SpecUnary::Primary(
            value_primary(tokens@, pos as int),
        )),
        fuel > 2 && !ctx.inside_args && propagated_call_in(tokens@, pos as int, ctx.indent as int) ==> (r matches Ok((p, u))
            && p == pos + 3 && view_unary(u) == SpecUnary::Primary(propagated_call_primary(tokens@, pos as int))),
        fuel > 11 && if_return_in(tokens@, pos as int, ctx.indent as int) ==> (r matches Ok((p, u)) && p == pos + 5
            && view_unary(u) == SpecUnary::Primary(
            SpecPrimary { operand: if_return_operand(tokens@, pos as int), secondaries: None },
        )),
        fuel > 10 && lambda_return_in(tokens@, pos as int, ctx.indent as int) ==> (r matches Ok((p, u)) && p == pos + 3
            && view_unary(u) == SpecUnary::Primary(
            SpecPrimary { operand: lambda_return_operand(tokens@, pos as int), secondaries: None },
        )),
        fuel > 4 && loop_break_in(tokens@, pos as int, ctx.indent as int) ==> (r matches Ok((p, u)) && p == pos + 3
            && view_unary(u) == SpecUnary::Primary(SpecPrimary { operand: loop_break_operand(), secondaries: None })),
    decreases fuel,
{
    if fuel == 0 {
        return too_deep(tokens, pos);
    }
    if is_kind(tokens, pos, TokenKind::Operator) {
        let mut value = tokens[pos].text.clone();
        let mut p = pos + 1;
        if is_kind(tokens, p, TokenKind::Keyword(Keyword::Mut)) {
            value.append("mut ");
            p = p + 1;
        }
        let (q, inner) = match parse_unary(tokens, p, ctx, fuel - 1) {
            Ok(x) => x,
            Err(ParseError::Fail) => {
                return hard(tokens, pos, "Expected an operand after the prefix operator");
            },
            Err(e) => {
                return Err(e);
            },
        };
        return Ok((q, UnaryExpr::UnaryExpr(Operator { value }, Box::new(inner))));
    }
    let (p, primary) = parse_primary(tokens, pos, ctx, fuel - 1)?;
    Ok((p, UnaryExpr::PrimaryExpr(primary)))
}

/// An operand followed by its calls, members, indexing and propagations.
pub(crate) fn parse_primary(tokens: &Vec<Token>, pos: usize, ctx: Ctx, fuel: u64) -> (r: Result<
    (usize, PrimaryExpr),
    ParseError,
>)
    requires
        pos <= tokens.len(),
    ensures
        advanced(r, pos, tokens.len() as int),
        r matches Ok((_, pr)) ==> valid_unary(SpecUnary::Primary(view_primary(pr))),
        fuel > 1 + value_fuel(tokens@, pos as int) && primary_value_in(tokens@, pos as int, ctx.indent as int) ==> (r matches Ok((p, pr)) && p == pos + value_len(tokens@, pos as int)
            && view_primary(pr) == value_primary(tokens@, pos as int)),
        fuel > 1 && !ctx.inside_args && propagated_call_in(tokens@, pos as int, ctx.indent as int) ==> (r matches Ok((p, pr))
            && p == pos + 3 && view_primary(pr) == propagated_call_primary(tokens@, pos as int)),
        fuel > 10 && if_return_in(tokens@, pos as int, ctx.indent as int) ==> (r matches Ok((p, pr)) && p == pos + 5
            && view_primary(pr) == SpecPrimary { operand: if_return_operand(tokens@, pos as int), secondaries: None }),
        fuel > 9 && lambda_return_in(tokens@, pos as int, ctx.indent as int) ==> (r matches Ok((p, pr)) && p == pos + 3
            && view_primary(pr) == SpecPrimary { operand: lambda_return_operand(tokens@, pos as int), secondaries: None }),
        fuel > 3 && loop_break_in(tokens@, pos as int, ctx.indent as int) ==> (r matches Ok((p, pr)) && p == pos + 3
            && view_primary(pr) == SpecPrimary { operand: loop_break_operand(), secondaries: None }),
    decreases fuel,
{
    if fuel == 0 {
        return too_deep(tokens, pos);
    }
    let (p, operand) = parse_operand(tokens, pos, ctx, fuel - 1)?;
    let (q, secondaries) = parse_secondaries(tokens, p, ctx, fuel - 1)?;
    proof {
        if fuel > 1 + value_fuel(tokens@, pos as int) && primary_value_in(tokens@, pos as int, ctx.indent as int) {
            assert(p == pos + 1);
            if kind_is(tokens@, pos + 1, TokenKind::Bang) {
                assert(view_secondaries(secondaries@) == seq![SpecSecondary::Arguments(seq![])]);
                assert(secondaries@.len() == 1);
            } else if call_with_atom_at(tokens@, pos as int) {
                assert(lone_atom_in(tokens@, pos + 1, ctx.indent as int));
                assert(tokens@[p as int].space_before);
                assert(fuel - 1 > 7);
                assert(view_secondaries(secondaries@).len() == 1);
                assert(secondaries@.len() == 1);
            } else {
                assert(ends_primary_in(tokens@, pos + 1, ctx.indent as int));
                assert(secondaries@.len() == 0);
            }
        }
    }
    Ok(
        (
            q,
            PrimaryExpr {
                operand,
                secondaries: if secondaries.len() == 0 {
                    None
                } else {
                    Some(secondaries)
                },
            },
        ),
    )
}

/// What follows an operand: `.member` (also on a deeper continuation line),
/// `!` (a call without arguments), `?` (left to the owning call inside an
/// ungrouped argument list), `[index]`, and juxtaposed arguments.
pub(crate) fn parse_secondaries(tokens: &Vec<Token>, pos: usize, ctx: Ctx, fuel: u64) -> (r: Result<
    (usize, Vec<SecondaryExpr>),
    ParseError,
>)
    requires
        pos <= tokens.len(),
    ensures
        r matches Ok((p, _)) ==> pos <= p <= tokens.len(),
        r matches Ok((_, ss)) ==> valid_secondaries(view_secondaries(ss@)),
        fuel > 0 && ends_primary_in(tokens@, pos as int, ctx.indent as int) ==> (r matches Ok((p, ss)) && p == pos && ss@.len()
            == 0),
        fuel > 0 && kind_is(tokens@, pos as int, TokenKind::Dot) && kind_is(
            tokens@,
            pos + 1,
            TokenKind::Ident,
        ) && closes_at(tokens@, pos + 2) ==> (r matches Ok((p, ss)) && p == pos + 2
            && view_secondaries(ss@) == seq![SpecSecondary::Dot(tokens@[pos + 1].text@)]),
        fuel > 0 && kind_is(tokens@, pos as int, TokenKind::Bang) && ends_primary_in(tokens@, pos + 1, ctx.indent as int)
            ==> (r matches Ok((p, ss)) && p == pos + 1 && view_secondaries(ss@) == seq![
            SpecSecondary::Arguments(seq![]),
        ]),
        fuel > 7 && pos < tokens.len() && tokens@[pos as int].space_before && lone_atom_in(
            tokens@,
            pos as int,
            ctx.indent as int,
        ) ==> (r matches Ok((p, ss)) && p == pos + 1 && view_secondaries(ss@) == seq![
            SpecSecondary::Arguments(seq![crate::do_expr::spec_expr(atom_operand(tokens@[pos as int]))]),
        ]),
        fuel > 0 && !ctx.inside_args && propagated_at(tokens@, pos as int, ctx.indent as int) ==> (r matches Ok((p, ss))
            && p == pos + 2 && view_secondaries(ss@) == seq![
            SpecSecondary::Arguments(seq![]),
            SpecSecondary::Interogation,
        ]),
    decreases fuel,
{
    if fuel == 0 {
        return too_deep(tokens, pos);
    }
    let ghost propagated = !ctx.inside_args && propagated_at(tokens@, pos as int, ctx.indent as int);
    let ghost banged = kind_is(tokens@, pos as int, TokenKind::Bang) && ends_primary_in(
        tokens@,
        pos + 1,
        ctx.indent as int,
    );
    let ghost called = fuel > 7 && pos < tokens.len() && tokens@[pos as int].space_before && lone_atom_in(
        tokens@,
        pos as int,
        ctx.indent as int,
    );
    let mut secondaries: Vec<SecondaryExpr> = Vec::new();
    let mut p = pos;
    let ghost closed = ends_primary_in(tokens@, pos as int, ctx.indent as int);
    let ghost member = kind_is(tokens@, pos as int, TokenKind::Dot) && kind_is(
        tokens@,
        pos + 1,
        TokenKind::Ident,
    ) && closes_at(tokens@, pos + 2);
    while p < tokens.len()
        invariant
            closed == ends_primary_in(tokens@, pos as int, ctx.indent as int),
            member == (kind_is(tokens@, pos as int, TokenKind::Dot) && kind_is(
                tokens@,
                pos + 1,
                TokenKind::Ident,
            ) && closes_at(tokens@, pos + 2)),
            closed ==> p == pos && secondaries@.len() == 0,
            member ==> (p == pos && secondaries@.len() == 0) || (p == pos + 2
                && view_secondaries(secondaries@) == seq![SpecSecondary::Dot(tokens@[pos + 1].text@)]),
            banged == (kind_is(tokens@, pos as int, TokenKind::Bang) && ends_primary_in(
                tokens@,
                pos + 1,
                ctx.indent as int,
            )),
            banged ==> (p == pos && secondaries@.len() == 0) || (p == pos + 1 && view_secondaries(
                secondaries@,
            ) == seq![SpecSecondary::Arguments(seq![])]),
            called == (fuel > 7 && pos < tokens.len() && tokens@[pos as int].space_before && lone_atom_in(
                tokens@,
                pos as int,
                ctx.indent as int,
            )),
            called ==> (p == pos && secondaries@.len() == 0) || (p == pos + 1 && view_secondaries(
                secondaries@,
            ) == seq![SpecSecondary::Arguments(seq![crate::do_expr::spec_expr(atom_operand(tokens@[pos as int]))])]),
            propagated == (!ctx.inside_args && propagated_at(tokens@, pos as int, ctx.indent as int)),
            propagated ==> (p == pos && secondaries@.len() == 0) || (p == pos + 1 && view_secondaries(
                secondaries@,
            ) == seq![SpecSecondary::Arguments(seq![])]) || (p == pos + 2 && view_secondaries(secondaries@) == seq![
                SpecSecondary::Arguments(seq![]),
                SpecSecondary::Interogation,
            ]),
            forall|m: int|
                0 <= m < secondaries@.len() ==> valid_secondary(
                    crate::ast::view_secondary(#[trigger] secondaries@[m]),
                ),
            fuel > 0,
            pos <= p <= tokens.len(),
        ensures
            member ==> p == pos + 2 && view_secondaries(secondaries@) == seq![
                SpecSecondary::Dot(tokens@[pos + 1].text@),
            ],
            banged ==> p == pos + 1 && view_secondaries(secondaries@) == seq![
                SpecSecondary::Arguments(seq![]),
            ],
            called ==> p == pos + 1 && view_secondaries(secondaries@) == seq![
                SpecSecondary::Arguments(seq![crate::do_expr::spec_expr(atom_operand(tokens@[pos as int]))]),
            ],
            propagated ==> p == pos + 2 && view_secondaries(secondaries@) == seq![
                SpecSecondary::Arguments(seq![]),
                SpecSecondary::Interogation,
            ],
            closed == ends_primary_in(tokens@, pos as int, ctx.indent as int),
            member == (kind_is(tokens@, pos as int, TokenKind::Dot) && kind_is(
                tokens@,
                pos + 1,
                TokenKind::Ident,
            ) && closes_at(tokens@, pos + 2)),
            closed ==> p == pos && secondaries@.len() == 0,
            forall|m: int|
                0 <= m < secondaries@.len() ==> valid_secondary(
                    crate::ast::view_secondary(#[trigger] secondaries@[m]),
                ),
            fuel > 0,
            pos <= p <= tokens.len(),
        decreases tokens.len() - p,
    {
        let k = tokens[p].kind;
        if k == TokenKind::Dot {
            if p + 1 < tokens.len() && (tokens[p + 1].kind == TokenKind::Ident || tokens[p
                + 1].kind == TokenKind::TypeName || tokens[p + 1].kind == TokenKind::Number) {
                let ghost at = p;
                secondaries.push(SecondaryExpr::Dot(ident_of(&tokens[p + 1])));
                proof {
                    if member && at == pos {
                        assert(view_secondaries(secondaries@) =~= seq![
                            SpecSecondary::Dot(tokens@[pos + 1].text@),
                        ]);
                    }
                }
                p = p + 2;
            } else {
                return hard(tokens, pos, "Expected a member after '.'");
            }
        } else if k == TokenKind::Eol {
            match continuation(tokens, p, ctx) {
                Some(q) => {
                    if tokens[q].kind == TokenKind::Dot {
                        p = q;
                    } else {
                        break ;
                    }
                },
                None => {
                    break ;
                },
            }
        } else if k == TokenKind::Bang {
            let ghost at = p;
            let no_args: Vec<Argument> = Vec::new();
            assert(view_arguments(no_args@) =~= seq![]);
            secondaries.push(SecondaryExpr::Arguments(no_args));
            proof {
                if (banged || propagated) && at == pos {
                    assert(view_secondaries(secondaries@) =~= seq![SpecSecondary::Arguments(seq![])]);
                }
            }
            p = p + 1;
        } else if k == TokenKind::Question {
            if ctx.inside_args {
                break ;
            }
            let ghost at = p;
            let ghost before = view_secondaries(secondaries@);
            secondaries.push(SecondaryExpr::Interogation);
            proof {
                if propagated && at == pos + 1 {
                    assert(view_secondaries(secondaries@) =~= before.push(SpecSecondary::Interogation));
                }
            }
            p = p + 1;
        } else if k == TokenKind::OpenBracket && !tokens[p].space_before {
            let inner = Ctx { indent: ctx.indent, inside_args: false };
            let (q, index) = match parse_expression(tokens, p + 1, inner, fuel - 1) {
                Ok(x) => x,
                Err(ParseError::Fail) => {
                    return hard(tokens, pos, "Expected an index");
                },
                Err(e) => {
                    return Err(e);
                },
            };
            if !is_kind(tokens, q, TokenKind::CloseBracket) {
                return hard(tokens, pos, "Expected ']'");
            }
            secondaries.push(SecondaryExpr::Index(Box::new(index)));
            p = q + 1;
        } else if starts_argument(tokens, p) {
            let ghost at = p;
            let (q, args) = parse_arguments(tokens, p, ctx, fuel - 1)?;
            let ghost args_view = view_arguments(args@);
            secondaries.push(SecondaryExpr::Arguments(args));
            proof {
                if called && at == pos {
                    assert(view_secondaries(secondaries@) =~= seq![SpecSecondary::Arguments(args_view)]);
                }
            }
            p = q;
        } else {
            break ;
        }
    }
    assert forall|m: int| 0 <= m < view_secondaries(secondaries@).len() implies valid_secondary(
        #[trigger] view_secondaries(secondaries@)[m],
    ) by {
        assert(view_secondaries(secondaries@)[m] == crate::ast::view_secondary(secondaries@[m]));
    }
    Ok((p, secondaries))
}

/// Comma-separated arguments of a juxtaposed call.
pub(crate) fn parse_arguments(tokens: &Vec<Token>, pos: usize, ctx: Ctx, fuel: u64) -> (r: Result<
    (usize, Vec<Argument>),
    ParseError,
>)
    requires
        pos <= tokens.len(),
    ensures
        advanced(r, pos, tokens.len() as int),
        r matches Ok((_, args)) ==> valid_exprs(view_arguments(args@)),
        fuel > 6 && closed_number_at(tokens@, pos as int) && !kind_is(tokens@, pos + 1, TokenKind::Comma)
            ==> (r matches Ok((p, args)) && p == pos + 1 && view_arguments(args@) == seq![
            number_expression(tokens@[pos as int]),
        ]),
        fuel > 6 && lone_atom_in(tokens@, pos as int, ctx.indent as int) ==> (r matches Ok((p, args)) && p
            == pos + 1 && view_arguments(args@) == seq![
            crate::do_expr::spec_expr(atom_operand(tokens@[pos as int])),
        ]),
    decreases fuel,
{
    if fuel == 0 {
        return too_deep(tokens, pos);
    }
    let arg_ctx = Ctx { indent: ctx.indent, inside_args: true };
    let (mut p, first) = parse_argument(tokens, pos, arg_ctx, fuel - 1)?;
    let mut args: Vec<Argument> = single(Argument { arg: first });
    let ghost simple = fuel > 6 && closed_number_at(tokens@, pos as int) && !kind_is(
        tokens@,
        pos + 1,
        TokenKind::Comma,
    );
    let ghost lone = fuel > 6 && lone_atom_in(tokens@, pos as int, ctx.indent as int);
    proof {
        if simple {
            assert(view_arguments(args@) =~= seq![number_expression(tokens@[pos as int])]);
        }
        if lone {
            assert(view_arguments(args@) =~= seq![crate::do_expr::spec_expr(atom_operand(tokens@[pos as int]))]);
        }
    }
    while is_kind(tokens, p, TokenKind::Comma)
        invariant
            fuel > 0,
            pos < p <= tokens.len(),
            simple ==> p == pos + 1 && view_arguments(args@) == seq![
                number_expression(tokens@[pos as int]),
            ],
            simple == (fuel > 6 && closed_number_at(tokens@, pos as int) && !kind_is(
                tokens@,
                pos + 1,
                TokenKind::Comma,
            )),
            lone == (fuel > 6 && lone_atom_in(tokens@, pos as int, ctx.indent as int)),
            lone ==> p == pos + 1 && view_arguments(args@) == seq![
                crate::do_expr::spec_expr(atom_operand(tokens@[pos as int])),
            ],
            forall|m: int| 0 <= m < args@.len() ==> valid_expr((#[trigger] args@[m]).arg@),
        decreases tokens.len() - p,
    {
        let (q, arg) = match parse_argument(tokens, p + 1, arg_ctx, fuel - 1) {
            Ok(x) => x,
            Err(ParseError::Fail) => {
                return hard(tokens, pos, "Expected an argument after ','");
            },
            Err(e) => {
                return Err(e);
            },
        };
        args.push(Argument { arg });
        p = q;
    }
    assert forall|m: int| 0 <= m < view_arguments(args@).len() implies valid_expr(
        #[trigger] view_arguments(args@)[m],
    ) by {
        assert(view_arguments(args@)[m] == args@[m].arg@);
    }
    Ok((p, args))
}

/// One argument: a one-parameter lambda (`x -> ...`), or an expression.
pub(crate) fn parse_argument(tokens: &Vec<Token>, pos: usize, ctx: Ctx, fuel: u64) -> (r: Result<
    (usize, Expression),
    ParseError,
>)
    requires
        pos <= tokens.len(),
    ensures
        advanced(r, pos, tokens.len() as int),
        r matches Ok((_, e)) ==> valid_expr(e@),
        fuel > 5 && closed_number_at(tokens@, pos as int) ==> (r matches Ok((p, e)) && p == pos + 1
            && e@ == number_expression(tokens@[pos as int])),
        fuel > 5 && lone_atom_in(tokens@, pos as int, ctx.indent as int) ==> (r matches Ok((p, e)) && p == pos
            + 1 && e@ == crate::do_expr::spec_expr(atom_operand(tokens@[pos as int]))),
    decreases fuel,
{
    if fuel == 0 {
        return too_deep(tokens, pos);
    }
    if pos < tokens.len() && is_name(tokens[pos].kind) && pos + 1 < tokens.len() && is_arrow(
        tokens[pos + 1].kind,
    ) {
        let (p, lambda) = parse_lambda(tokens, pos, ctx, false, fuel - 1)?;
        proof {
            lemma_valid_lambda(lambda);
        }
        return Ok((p, crate::do_expr::expr(Operand::LambdaDecl(lambda))));
    }
    parse_expression(tokens, pos, ctx, fuel - 1)
}

/// A path of names joined by `::`.
fn parse_path(tokens: &Vec<Token>, pos: usize) -> (r: (usize, IdentifierPath))
    requires
        pos < tokens.len(),
    ensures
        pos < r.0 <= tokens.len(),
        tokens@[pos as int].kind == TokenKind::Ident && !kind_is(tokens@, pos + 1, TokenKind::PathSep) ==> r.0
            == pos + 1 && view_path(r.1) == seq![SpecSegment::Ident(tokens@[pos as int].text@)],
{
    let mut path: Vec<IdentOrType> = Vec::new();
    let mut p = pos;
    let ghost single = tokens@[pos as int].kind == TokenKind::Ident && !kind_is(
        tokens@,
        pos + 1,
        TokenKind::PathSep,
    );
    loop
        invariant_except_break
            single ==> p == pos && path@.len() == 0,
        invariant
            pos <= p < tokens.len(),
            single == (tokens@[pos as int].kind == TokenKind::Ident && !kind_is(
                tokens@,
                pos + 1,
                TokenKind::PathSep,
            )),
        ensures
            single ==> p == pos && view_path(IdentifierPath { path }) == seq![
                SpecSegment::Ident(tokens@[pos as int].text@),
            ],
        decreases tokens.len() - p,
    {
        let segment = if tokens[p].kind == TokenKind::TypeName {
            IdentOrType::Type(ident_of(&tokens[p]))
        } else {
            IdentOrType::Ident(ident_of(&tokens[p]))
        };
        let ghost before = path@;
        path.push(segment);
        proof {
            if single {
                assert(view_path(IdentifierPath { path }) =~= seq![
                    SpecSegment::Ident(tokens@[pos as int].text@),
                ]);
            }
        }
        if is_kind(tokens, p + 1, TokenKind::PathSep) && p + 2 < tokens.len() && (tokens[p
            + 2].kind == TokenKind::Ident || tokens[p + 2].kind == TokenKind::TypeName) {
            p = p + 2;
        } else {
            break ;
        }
    }
    (p + 1, IdentifierPath { path })
}

/// An operand: a literal, a path, a structure literal, a group, an array, an
/// `if`, a `do` block, a `loop`, or a lambda.
pub(crate) fn parse_operand(tokens: &Vec<Token>, pos: usize, ctx: Ctx, fuel: u64) -> (r: Result<
    (usize, Operand),
    ParseError,
>)
    requires
        pos <= tokens.len(),
    ensures
        advanced(r, pos, tokens.len() as int),
        r matches Ok((_, o)) ==> valid_operand(o@),
        fuel > 0 && kind_is(tokens@, pos as int, TokenKind::Number) ==> (r matches Ok((p, o)) && p
            == pos + 1 && o@ == number_operand(tokens@[pos as int])),
        fuel > 0 && kind_is(tokens@, pos as int, TokenKind::Str) ==> (r matches Ok((p, o)) && p == pos
            + 1 && o@ == SpecOperand::Literal(SpecLiteral::String(tokens@[pos as int].text@))),
        fuel > 0 && kind_is(tokens@, pos as int, TokenKind::Keyword(Keyword::True)) ==> (r matches Ok((p, o)) && p == pos + 1 && o@ == SpecOperand::Literal(SpecLiteral::Bool(true))),
        fuel > 0 && kind_is(tokens@, pos as int, TokenKind::Ident) && !(pos + 1 < tokens.len() && (tokens@[pos
            + 1].kind == TokenKind::Arrow || tokens@[pos + 1].kind == TokenKind::BangArrow || tokens@[pos
            + 1].kind == TokenKind::PathSep)) ==> (r matches Ok((p, o)) && p == pos + 1 && o@ == atom_operand(
            tokens@[pos as int],
        )),
        fuel > 0 && kind_is(tokens@, pos as int, TokenKind::Keyword(Keyword::False)) ==> (r matches Ok((p, o)) && p == pos + 1 && o@ == SpecOperand::Literal(SpecLiteral::Bool(false))),
        fuel > 0 && pos >= tokens.len() ==> (r matches Err(ParseError::Fail)),
        fuel > 9 && if_return_in(tokens@, pos as int, ctx.indent as int) ==> (r matches Ok((p, o)) && p == pos + 5
            && o@ == if_return_operand(tokens@, pos as int)),
        fuel > 8 && lambda_return_in(tokens@, pos as int, ctx.indent as int) ==> (r matches Ok((p, o)) && p == pos + 3
            && o@ == lambda_return_operand(tokens@, pos as int)),
        fuel > 2 && loop_break_in(tokens@, pos as int, ctx.indent as int) ==> (r matches Ok((p, o)) && p == pos + 3
            && o@ == loop_break_operand()),
    decreases fuel,
{
    if fuel == 0 {
        return too_deep(tokens, pos);
    }
    if pos >= tokens.len() {
        return Err(ParseError::Fail);
    }
    let k = tokens[pos].kind;
    match k {
        TokenKind::Number => Ok(
            (
                pos + 1,
                Operand::Literal(
                    Literal { kind: LiteralKind::Number(tokens[pos].text.clone()), span: tokens[pos].span },
                ),
            ),
        ),
        TokenKind::Str => Ok(
            (
                pos + 1,
                Operand::Literal(
                    Literal { kind: LiteralKind::String(tokens[pos].text.clone()), span: tokens[pos].span },
                ),
            ),
        ),
        TokenKind::Keyword(Keyword::True) => Ok(
            (pos + 1, Operand::Literal(Literal { kind: LiteralKind::Bool(true), span: tokens[pos].span })),
        ),
        TokenKind::Keyword(Keyword::False) => Ok(
            (pos + 1, Operand::Literal(Literal { kind: LiteralKind::Bool(false), span: tokens[pos].span })),
        ),
        TokenKind::Ident | TokenKind::Underscore => {
            if pos + 1 < tokens.len() && is_arrow(tokens[pos + 1].kind) {
                let (p, lambda) = parse_lambda(tokens, pos, ctx, false, fuel - 1)?;
                return Ok((p, Operand::LambdaDecl(lambda)));
            }
            let (p, path) = parse_path(tokens, pos);
            Ok((p, Operand::Ident(path)))
        },
        TokenKind::TypeName => {
            let (p, path) = parse_path(tokens, pos);
            if is_kind(tokens, p, TokenKind::Ident) && is_kind(tokens, p + 1, TokenKind::Colon) {
                let (q, fields) = parse_fields(tokens, p, ctx, fuel - 1)?;
                return Ok((q, Operand::StructCtor(StructCtor { name: path, fields })));
            }
            Ok((p, Operand::Ident(path)))
        },
        TokenKind::OpenParen => parse_group(tokens, pos, ctx, fuel - 1),
        TokenKind::OpenBracket => parse_array(tokens, pos, ctx, fuel - 1),
        TokenKind::Keyword(Keyword::If) => {
            let (p, if_) = parse_if(tokens, pos, ctx, fuel - 1)?;
            Ok((p, Operand::If(Box::new(if_))))
        },
        TokenKind::Keyword(Keyword::Do) => do_expression_at(tokens, pos, ctx, fuel - 1),
        TokenKind::Keyword(Keyword::Loop) => {
            let p = pos + 1;
            if !is_kind(tokens, p, TokenKind::Eol) {
                return hard(tokens, pos, "Expected an indented loop body");
            }
            let q = skip_blank(tokens, p + 1);
            if !(q < tokens.len() && tokens[q].first_on_line && tokens[q].indent > ctx.indent) {
                return hard(tokens, pos, "Expected an indented loop body");
            }
            let (r, body) = parse_block(tokens, q, tokens[q].indent, fuel - 1)?;
            Ok((r, Operand::Loop(body)))
        },
        TokenKind::Arrow | TokenKind::BangArrow => {
            let (p, lambda) = parse_lambda(tokens, pos, ctx, false, fuel - 1)?;
            Ok((p, Operand::LambdaDecl(lambda)))
        },
        _ => Err(ParseError::Fail),
    }
}

/// The fields of a structure literal: `name: value` separated by commas.
fn parse_fields(tokens: &Vec<Token>, pos: usize, ctx: Ctx, fuel: u64) -> (r: Result<
    (usize, Vec<StructField>),
    ParseError,
>)
    requires
        pos <= tokens.len(),
    ensures
        advanced(r, pos, tokens.len() as int),
        r matches Ok((_, fs)) ==> valid_fields(view_fields(fs@)),
        fuel > 5 && kind_is(tokens@, pos as int, TokenKind::Ident) && kind_is(
            tokens@,
            pos + 1,
            TokenKind::Colon,
        ) && closed_number_at(tokens@, pos + 2) && !kind_is(tokens@, pos + 3, TokenKind::Comma)
            ==> (r matches Ok((p, fs)) && p == pos + 3 && view_fields(fs@) == seq![
            (tokens@[pos as int].text@, number_expression(tokens@[pos + 2])),
        ]),
    decreases fuel,
{
    if fuel == 0 {
        return too_deep(tokens, pos);
    }
    let value_ctx = Ctx { indent: ctx.indent, inside_args: false };
    let mut fields: Vec<StructField> = Vec::new();
    let mut p = pos;
    let ghost simple = fuel > 5 && kind_is(tokens@, pos as int, TokenKind::Ident) && kind_is(
        tokens@,
        pos + 1,
        TokenKind::Colon,
    ) && closed_number_at(tokens@, pos + 2) && !kind_is(tokens@, pos + 3, TokenKind::Comma);
    loop
        invariant_except_break
            simple ==> p == pos && fields@.len() == 0,
        invariant
            fuel > 0,
            pos <= p <= tokens.len(),
            (fields@.len() == 0 && p == pos) || (fields@.len() > 0 && p > pos),
            forall|m: int| 0 <= m < fields@.len() ==> valid_expr((#[trigger] fields@[m]).value@),
            simple == (fuel > 5 && kind_is(tokens@, pos as int, TokenKind::Ident) && kind_is(
                tokens@,
                pos + 1,
                TokenKind::Colon,
            ) && closed_number_at(tokens@, pos + 2) && !kind_is(tokens@, pos + 3, TokenKind::Comma)),
        ensures
            pos < p <= tokens.len(),
            forall|m: int| 0 <= m < fields@.len() ==> valid_expr((#[trigger] fields@[m]).value@),
            simple ==> p == pos + 3 && view_fields(fields@) == seq![
                (tokens@[pos as int].text@, number_expression(tokens@[pos + 2])),
            ],
        decreases tokens.len() - p,
    {
        if !(is_kind(tokens, p, TokenKind::Ident) && is_kind(tokens, p + 1, TokenKind::Colon)) {
            if fields.len() == 0 {
                return Err(ParseError::Fail);
            }
            return hard(tokens, pos, "Expected a field");
        }
        let name = ident_of(&tokens[p]);
        let (q, value) = match parse_expression(tokens, p + 2, value_ctx, fuel - 1) {
            Ok(x) => x,
            Err(ParseError::Fail) => {
                return hard(tokens, pos, "Expected a field value");
            },
            Err(e) => {
                return Err(e);
            },
        };
        fields.push(StructField { name, value });
        proof {
            if simple {
                assert(view_fields(fields@) =~= seq![
                    (tokens@[pos as int].text@, number_expression(tokens@[pos + 2])),
                ]);
            }
        }
        p = q;
        if is_kind(tokens, p, TokenKind::Comma) {
            p = p + 1;
        } else {
            break ;
        }
    }
    assert forall|m: int| 0 <= m < view_fields(fields@).len() implies valid_expr(
        (#[trigger] view_fields(fields@)[m]).1,
    ) by {
        assert(view_fields(fields@)[m].1 == fields@[m].value@);
    }
    Ok((p, fields))
}

/// The name that an operator section or a receiver shorthand binds.
fn section_parameter(span: SourceSpan) -> (r: Pattern)
    ensures
        r@ == (SpecPattern::Ident { name: "it"@, mut_: false }),
{
    Pattern {
        kind: PatternKind::Ident(IdentPattern { name: Ident { name: "it".to_owned(), span }, mut_: false }),
    }
}

/// An operator section `(op rhs)` at `p`, the token after `(`: a lambda of
/// one parameter `it` computing `it op rhs`.
fn parse_section(tokens: &Vec<Token>, p: usize, ctx: Ctx, fuel: u64) -> (r: Result<
    (usize, Operand),
    ParseError,
>)
    requires
        p < tokens.len(),
    ensures
        advanced(r, p, tokens.len() as int),
        r matches Ok((_, o)) ==> valid_operand(o@),
        fuel > 5 && closed_number_at(tokens@, p + 1) && kind_is(tokens@, p + 2, TokenKind::CloseParen)
            ==> (r matches Ok((q, o)) && q == p + 3 && o@ == it_lambda(
            SpecExpression::Binop(
                SpecUnary::Primary(SpecPrimary { operand: it_operand(), secondaries: None }),
                tokens@[p as int].text@,
                Box::new(number_expression(tokens@[p + 1])),
            ),
            LambdaArrowKind::Normal,
        )),
    decreases fuel,
{
    if fuel == 0 {
        return too_deep(tokens, p);
    }
    let op = Operator { value: tokens[p].text.clone() };
    let (q, rhs) = match parse_expression(tokens, p + 1, ctx, fuel - 1) {
        Ok(x) => x,
        Err(ParseError::Fail) => {
            return hard(tokens, p, "Expected an operand in the operator section");
        },
        Err(e) => {
            return Err(e);
        },
    };
    if !is_kind(tokens, q, TokenKind::CloseParen) {
        return hard(tokens, p, "Expected ')'");
    }
    let it = path_operand("it", span_of(tokens, p));
    assert(valid_operand(view_operand(it)));
    let primary = PrimaryExpr { operand: it, secondaries: None };
    assert(view_primary(primary).operand == view_operand(it));
    assert(valid_unary(SpecUnary::Primary(view_primary(primary))));
    let left = UnaryExpr::PrimaryExpr(primary);
    assert(valid_unary(view_unary(left)));
    let param = Expression::BinopExpr(left, op, Box::new(rhs));
    let statement = Statement::Expression(param);
    assert(valid_statement(statement@));
    proof {
        lemma_valid_single(statement);
    }
    let lambda = LambdaDecl {
        parameters: single(section_parameter(span_of(tokens, p))),
        body: Block { statements: single(statement) },
        arrow_kind: LambdaArrowKind::Normal,
        span: span_of(tokens, p),
    };
    proof {
        lemma_valid_lambda(lambda);
        assert(crate::ast::view_patterns(lambda.parameters@) =~= seq![
            SpecPattern::Ident { name: "it"@, mut_: false },
        ]);
        assert(view_statements(lambda.body.statements@) =~= seq![statement@]);
    }
    Ok((q + 1, Operand::LambdaDecl(lambda)))
}

/// A receiver shorthand `(.member ...)` or `(!.member ...)` at `p`, the
/// token after `(`: a lambda of one parameter `it` applying the members to it.
fn parse_receiver_shorthand(tokens: &Vec<Token>, p: usize, ctx: Ctx, fuel: u64) -> (r: Result<
    (usize, Operand),
    ParseError,
>)
    requires
        p < tokens.len(),
    ensures
        advanced(r, p, tokens.len() as int),
        r matches Ok((_, o)) ==> valid_operand(o@),
        fuel > 1 && kind_is(tokens@, p as int, TokenKind::Dot) && kind_is(
            tokens@,
            p + 1,
            TokenKind::Ident,
        ) && kind_is(tokens@, p + 2, TokenKind::CloseParen) ==> (r matches Ok((q, o)) && q == p + 3
            && o@ == it_lambda(
            SpecExpression::Unary(
                SpecUnary::Primary(
                    SpecPrimary {
                        operand: it_operand(),
                        secondaries: Some(seq![SpecSecondary::Dot(tokens@[p + 1].text@)]),
                    },
                ),
            ),
            LambdaArrowKind::Normal,
        )),
    decreases fuel,
{
    if fuel == 0 {
        return too_deep(tokens, p);
    }
    let arrow_kind = if tokens[p].kind == TokenKind::Bang {
        LambdaArrowKind::Unit
    } else {
        LambdaArrowKind::Normal
    };
    let d = if tokens[p].kind == TokenKind::Bang {
        p + 1
    } else {
        p
    };
    let (q, secondaries) = parse_secondaries(tokens, d, ctx, fuel - 1)?;
    if q == d {
        return hard(tokens, p, "Expected a member after '.'");
    }
    if !is_kind(tokens, q, TokenKind::CloseParen) {
        return hard(tokens, p, "Expected ')'");
    }
    let ghost ss = view_secondaries(secondaries@);
    let it = path_operand("it", span_of(tokens, p));
    assert(valid_operand(view_operand(it)));
    let primary = PrimaryExpr { operand: it, secondaries: Some(secondaries) };
    assert(view_primary(primary).operand == view_operand(it));
    assert(view_primary(primary).secondaries == Some(ss));
    assert(valid_unary(SpecUnary::Primary(view_primary(primary))));
    let unary = UnaryExpr::PrimaryExpr(primary);
    assert(valid_unary(view_unary(unary)));
    let body = Expression::UnaryExpr(unary);
    let statement = Statement::Expression(body);
    assert(valid_statement(statement@));
    proof {
        lemma_valid_single(statement);
    }
    let lambda = LambdaDecl {
        parameters: single(section_parameter(span_of(tokens, p))),
        body: Block { statements: single(statement) },
        arrow_kind,
        span: span_of(tokens, p),
    };
    proof {
        lemma_valid_lambda(lambda);
        assert(crate::ast::view_patterns(lambda.parameters@) =~= seq![
            SpecPattern::Ident { name: "it"@, mut_: false },
        ]);
        assert(view_statements(lambda.body.statements@) =~= seq![statement@]);
    }
    Ok((q + 1, Operand::LambdaDecl(lambda)))
}

/// A parenthesized tuple or grouped expression at `p`, the token after `(`.
fn parse_tuple_or_group(tokens: &Vec<Token>, p: usize, ctx: Ctx, fuel: u64) -> (r: Result<
    (usize, Operand),
    ParseError,
>)
    requires
        0 < p <= tokens.len(),
    ensures
        advanced(r, (p - 1) as usize, tokens.len() as int),
        r matches Ok((_, o)) ==> valid_operand(o@),
        fuel > 5 && closed_number_at(tokens@, p as int) && kind_is(tokens@, p + 1, TokenKind::CloseParen)
            ==> (r matches Ok((q, o)) && q == p + 2 && o@ == SpecOperand::Expression(
            Box::new(number_expression(tokens@[p as int])),
        )),
    decreases fuel,
{
    if fuel == 0 {
        return too_deep(tokens, p);
    }
    let (mut q, first) = match parse_expression(tokens, p, ctx, fuel - 1) {
        Ok(x) => x,
        Err(ParseError::Fail) => {
            return hard(tokens, p, "Expected an expression after '('");
        },
        Err(e) => {
            return Err(e);
        },
    };
    if is_kind(tokens, q, TokenKind::Comma) {
        let mut items: Vec<Expression> = single(first);
        while is_kind(tokens, q, TokenKind::Comma)
            invariant
                fuel > 0,
                p < q <= tokens.len(),
                !(fuel > 5 && closed_number_at(tokens@, p as int) && kind_is(
                    tokens@,
                    p + 1,
                    TokenKind::CloseParen,
                )),
                forall|m: int| 0 <= m < items@.len() ==> valid_expr(#[trigger] items@[m]@),
            decreases tokens.len() - q,
        {
            let (r, item) = match parse_expression(tokens, q + 1, ctx, fuel - 1) {
                Ok(x) => x,
                Err(ParseError::Fail) => {
                    return hard(tokens, p, "Expected a tuple element");
                },
                Err(e) => {
                    return Err(e);
                },
            };
            items.push(item);
            q = r;
        }
        if !is_kind(tokens, q, TokenKind::CloseParen) {
            return hard(tokens, p, "Expected ')'");
        }
        assert forall|m: int| 0 <= m < view_expressions(items@).len() implies valid_expr(
            #[trigger] view_expressions(items@)[m],
        ) by {
            assert(view_expressions(items@)[m] == items@[m]@);
        }
        assert(crate::do_expr::valid_exprs(view_expressions(items@)));
        let o = Operand::Tuple(items);
        assert(valid_operand(o@));
        return Ok((q + 1, o));
    }
    if !is_kind(tokens, q, TokenKind::CloseParen) {
        return hard(tokens, p, "Expected ')'");
    }
    Ok((q + 1, Operand::Expression(Box::new(first))))
}

/// A parenthesized form: `()`, an operator section `(+ 2)`, a receiver
/// shorthand `(.member ...)` or `(!.member ...)`, a lambda, a tuple, or a
/// grouped expression.
pub(crate) fn parse_group(tokens: &Vec<Token>, pos: usize, ctx: Ctx, fuel: u64) -> (r: Result<
    (usize, Operand),
    ParseError,
>)
    requires
        pos < tokens.len(),
    ensures
        advanced(r, pos, tokens.len() as int),
        r matches Ok((_, o)) ==> valid_operand(o@),
        fuel > 0 && kind_is(tokens@, pos + 1, TokenKind::CloseParen) ==> (r matches Ok((q, o)) && q
            == pos + 2 && o@ == SpecOperand::Tuple(Seq::empty())),
        fuel > 6 && closed_number_at(tokens@, pos + 1) && kind_is(tokens@, pos + 2, TokenKind::CloseParen)
            ==> (r matches Ok((q, o)) && q == pos + 3 && o@ == SpecOperand::Expression(
            Box::new(number_expression(tokens@[pos + 1])),
        )),
    decreases fuel,
{
    if fuel == 0 {
        return too_deep(tokens, pos);
    }
    let inner = Ctx { indent: ctx.indent, inside_args: false };
    let p = pos + 1;
    if is_kind(tokens, p, TokenKind::CloseParen) {
        let empty: Vec<Expression> = Vec::new();
        assert(view_expressions(empty@) =~= Seq::<SpecExpression>::empty());
        return Ok((p + 1, Operand::Tuple(empty)));
    }
    if infix_at(tokens, p) {
        return parse_section(tokens, p, inner, fuel - 1);
    }
    if is_kind(tokens, p, TokenKind::Dot) || (is_kind(tokens, p, TokenKind::Bang) && is_kind(
        tokens,
        p + 1,
        TokenKind::Dot,
    )) {
        return parse_receiver_shorthand(tokens, p, inner, fuel - 1);
    }
    match parse_lambda(tokens, p, inner, true, fuel - 1) {
        Ok((q, lambda)) => {
            if !is_kind(tokens, q, TokenKind::CloseParen) {
                return hard(tokens, pos, "Expected ')'");
            }
            proof {
                lemma_valid_lambda(lambda);
            }
            return Ok(
                (q + 1, Operand::Expression(Box::new(crate::do_expr::expr(Operand::LambdaDecl(lambda))))),
            );
        },
        Err(ParseError::Fail) => {},
        Err(e) => {
            return Err(e);
        },
    }
    parse_tuple_or_group(tokens, p, inner, fuel - 1)
}

/// An array: `[]`, `[a, b, ...]`, or `[value; count]`.
pub(crate) fn parse_array(tokens: &Vec<Token>, pos: usize, ctx: Ctx, fuel: u64) -> (r: Result<
    (usize, Operand),
    ParseError,
>)
    requires
        pos < tokens.len(),
    ensures
        advanced(r, pos, tokens.len() as int),
        r matches Ok((_, o)) ==> valid_operand(o@),
        fuel > 0 && kind_is(tokens@, pos + 1, TokenKind::CloseBracket) ==> (r matches Ok((q, o)) && q
            == pos + 2 && o@ == SpecOperand::Array(Seq::empty())),
        fuel > 5 && closed_number_at(tokens@, pos + 1) && kind_is(tokens@, pos + 2, TokenKind::CloseBracket)
            ==> (r matches Ok((q, o)) && q == pos + 3 && o@ == SpecOperand::Array(
            seq![number_expression(tokens@[pos + 1])],
        )),
    decreases fuel,
{
    if fuel == 0 {
        return too_deep(tokens, pos);
    }
    let inner = Ctx { indent: ctx.indent, inside_args: false };
    let p = pos + 1;
    if is_kind(tokens, p, TokenKind::CloseBracket) {
        let empty: Vec<Expression> = Vec::new();
        assert(view_expressions(empty@) =~= Seq::<SpecExpression>::empty());
        return Ok((p + 1, Operand::Array(empty)));
    }
    let (mut q, first) = match parse_expression(tokens, p, inner, fuel - 1) {
        Ok(x) => x,
        Err(ParseError::Fail) => {
            return hard(tokens, pos, "Expected an array element");
        },
        Err(e) => {
            return Err(e);
        },
    };
    if is_kind(tokens, q, TokenKind::Semicolon) {
        let (r, count) = match parse_expression(tokens, q + 1, inner, fuel - 1) {
            Ok(x) => x,
            Err(ParseError::Fail) => {
                return hard(tokens, pos, "Expected an array length");
            },
            Err(e) => {
                return Err(e);
            },
        };
        if !is_kind(tokens, r, TokenKind::CloseBracket) {
            return hard(tokens, pos, "Expected ']'");
        }
        return Ok((r + 1, Operand::ArrayRepeat(Box::new(first), Box::new(count))));
    }
    let mut items: Vec<Expression> = single(first);
    let ghost simple = fuel > 5 && closed_number_at(tokens@, pos + 1) && kind_is(
        tokens@,
        pos + 2,
        TokenKind::CloseBracket,
    );
    proof {
        if simple {
            assert(view_expressions(items@) =~= seq![number_expression(tokens@[pos + 1])]);
        }
    }
    while is_kind(tokens, q, TokenKind::Comma)
        invariant
            fuel > 0,
            pos < q <= tokens.len(),
            forall|m: int| 0 <= m < items@.len() ==> valid_expr(#[trigger] items@[m]@),
            simple == (fuel > 5 && closed_number_at(tokens@, pos + 1) && kind_is(
                tokens@,
                pos + 2,
                TokenKind::CloseBracket,
            )),
            !kind_is(tokens@, pos + 1, TokenKind::CloseBracket),
            simple ==> q == pos + 2 && view_expressions(items@) == seq![
                number_expression(tokens@[pos + 1]),
            ],
        decreases tokens.len() - q,
    {
        let (r, item) = match parse_expression(tokens, q + 1, inner, fuel - 1) {
            Ok(x) => x,
            Err(ParseError::Fail) => {
                return hard(tokens, pos, "Expected an array element");
            },
            Err(e) => {
                return Err(e);
            },
        };
        items.push(item);
        q = r;
    }
    if !is_kind(tokens, q, TokenKind::CloseBracket) {
        return hard(tokens, pos, "Expected ']'");
    }
    assert forall|m: int| 0 <= m < view_expressions(items@).len() implies valid_expr(
        #[trigger] view_expressions(items@)[m],
    ) by {
        assert(view_expressions(items@)[m] == items@[m]@);
    }
    assert(crate::do_expr::valid_exprs(view_expressions(items@)));
    let o = Operand::Array(items);
    assert(valid_operand(o@));
    Ok((q + 1, o))
}

/// A branch of an `if`: an indented block after the end of the line, or a
/// statement on the same line.
fn parse_branch(tokens: &Vec<Token>, pos: usize, ctx: Ctx, fuel: u64) -> (r: Result<
    (usize, Block),
    ParseError,
>)
    requires
        pos <= tokens.len(),
    ensures
        advanced(r, pos, tokens.len() as int),
        r matches Ok((_, b)) ==> valid_block(b@),
        fuel > 6 && closed_number_at(tokens@, pos as int) ==> (r matches Ok((p, b)) && p == pos + 1
            && b@ == seq![SpecStatement::Expression(number_expression(tokens@[pos as int]))]),
        fuel > 7 && kind_is(tokens@, pos as int, TokenKind::Keyword(Keyword::Return)) && kind_is(
            tokens@,
            pos + 1,
            TokenKind::Number,
        ) && closes_in(tokens@, pos + 2, ctx.indent as int) ==> (r matches Ok((p, b)) && p == pos + 2 && b@
            == seq![SpecStatement::Return(Some(simple_expression(tokens@, pos + 1)))]),
    decreases fuel,
{
    if fuel == 0 {
        return too_deep(tokens, pos);
    }
    if is_kind(tokens, pos, TokenKind::Eol) {
        let q = skip_blank(tokens, pos + 1);
        if !(q < tokens.len() && tokens[q].first_on_line && tokens[q].indent > ctx.indent) {
            return hard(tokens, pos, "Expected an indented block");
        }
        return parse_block(tokens, q, tokens[q].indent, fuel - 1);
    }
    let (p, statement) = match parse_statement(tokens, pos, ctx, fuel - 1) {
        Ok(x) => x,
        Err(ParseError::Fail) => {
            return hard(tokens, pos, "Expected a statement");
        },
        Err(e) => {
            return Err(e);
        },
    };
    let b = Block { statements: single(statement) };
    assert(b@ =~= seq![statement@]);
    Ok((p, b))
}

/// `if cond then a else b` on one line, or with indented blocks and an
/// `else` line at the indentation of the enclosing block.
pub(crate) fn parse_if(tokens: &Vec<Token>, pos: usize, ctx: Ctx, fuel: u64) -> (r: Result<
    (usize, If),
    ParseError,
>)
    requires
        pos <= tokens.len(),
    ensures
        advanced(r, pos, tokens.len() as int),
        r matches Ok((_, i)) ==> valid_operand(view_operand(Operand::If(Box::new(i)))),
        fuel > 7 && kind_is(tokens@, pos as int, TokenKind::Keyword(Keyword::If)) && closed_number_at(
            tokens@,
            pos + 1,
        ) && kind_is(tokens@, pos + 2, TokenKind::Keyword(Keyword::Then)) && closed_number_at(
            tokens@,
            pos + 3,
        ) && !kind_is(tokens@, pos + 4, TokenKind::Keyword(Keyword::Else)) ==> (r matches Ok((q, i))
            && q == pos + 4 && view_operand(Operand::If(Box::new(i))) == (SpecOperand::If {
            cond: Box::new(number_expression(tokens@[pos + 1])),
            then_branch: seq![SpecStatement::Expression(number_expression(tokens@[pos + 3]))],
            else_: None,
        })),
        fuel > 0 && !kind_is(tokens@, pos as int, TokenKind::Keyword(Keyword::If)) ==> (r matches Err(
            ParseError::Fail,
        )),
        fuel > 8 && if_return_in(tokens@, pos as int, ctx.indent as int) ==> (r matches Ok((q, i)) && q == pos + 5
            && view_operand(Operand::If(Box::new(i))) == if_return_operand(tokens@, pos as int)),
    decreases fuel,
{
    if fuel == 0 {
        return too_deep(tokens, pos);
    }
    if !is_kind(tokens, pos, TokenKind::Keyword(Keyword::If)) {
        return Err(ParseError::Fail);
    }
    let inner = Ctx { indent: ctx.indent, inside_args: false };
    let (p, cond) = match parse_expression(tokens, pos + 1, inner, fuel - 1) {
        Ok(x) => x,
        Err(ParseError::Fail) => {
            return hard(tokens, pos, "Expected a condition");
        },
        Err(e) => {
            return Err(e);
        },
    };
    let branch_start = if is_kind(tokens, p, TokenKind::Keyword(Keyword::Then)) {
        p + 1
    } else if is_kind(tokens, p, TokenKind::Eol) {
        p
    } else {
        return hard(tokens, pos, "Expected 'then' or an indented block");
    };
    let (q, then_branch) = parse_branch(tokens, branch_start, inner, fuel - 1)?;
    if is_kind(tokens, q, TokenKind::Keyword(Keyword::Else)) {
        let (r, else_branch) = parse_branch(tokens, q + 1, inner, fuel - 1)?;
        return Ok(
            (r, If { cond: Box::new(cond), then_branch, else_: Some(else_branch) }),
        );
    }
    if is_kind(tokens, q, TokenKind::Eol) {
        let e = skip_blank(tokens, q + 1);
        if e < tokens.len() && tokens[e].kind == TokenKind::Keyword(Keyword::Else)
            && tokens[e].first_on_line && tokens[e].indent == ctx.indent {
            let (r, else_branch) = parse_branch(tokens, e + 1, inner, fuel - 1)?;
            return Ok(
                (r, If { cond: Box::new(cond), then_branch, else_: Some(else_branch) }),
            );
        }
    }
    Ok((q, If { cond: Box::new(cond), then_branch, else_: None }))
}

/// A top-level function declaration `name = value`, whose value is a lambda
/// or a parenthesized section or shorthand.
pub(crate) fn parse_function_decl(tokens: &Vec<Token>, pos: usize, fuel: u64) -> (r: Result<
    (usize, FunctionDecl),
    ParseError,
>)
    requires
        pos <= tokens.len(),
    ensures
        advanced(r, pos, tokens.len() as int),
        r matches Ok((_, d)) ==> valid_block(view_statements(d.lambda.body.statements@)),
        fuel > 7 && simple_declaration_at(tokens@, pos as int) ==> (r matches Ok((q, d)) && q == pos
            + 4 && declares_number(d, tokens@, pos as int)),
    decreases fuel,
{
    if fuel == 0 {
        return too_deep(tokens, pos);
    }
    if !(is_kind(tokens, pos, TokenKind::Ident) && is_kind(tokens, pos + 1, TokenKind::Assign)) {
        return hard(tokens, pos, "Expected a declaration");
    }
    let name = ident_of(&tokens[pos]);
    let ctx = Ctx { indent: 0, inside_args: false };
    let p = pos + 2;
    if is_kind(tokens, p, TokenKind::OpenParen) {
        let (q, operand) = parse_group(tokens, p, ctx, fuel - 1)?;
        return match operand {
            Operand::LambdaDecl(lambda) => Ok((q, FunctionDecl { name, lambda })),
            Operand::Expression(e) => {
                assert(valid_expr((*e)@));
                match *e {
                    Expression::UnaryExpr(
                        UnaryExpr::PrimaryExpr(PrimaryExpr { operand: Operand::LambdaDecl(lambda), secondaries: None }),
                    ) => {
                        assert(valid_operand(view_operand(Operand::LambdaDecl(lambda))));
                        Ok((q, FunctionDecl { name, lambda }))
                    },
                    _ => hard(tokens, pos, "Expected a function"),
                }
            },
            _ => hard(tokens, pos, "Expected a function"),
        };
    }
    let (q, lambda) = match parse_lambda(tokens, p, ctx, true, fuel - 1) {
        Ok(x) => x,
        Err(ParseError::Fail) => {
            return hard(tokens, pos, "Expected a function");
        },
        Err(e) => {
            return Err(e);
        },
    };
    Ok((q, FunctionDecl { name, lambda }))
}

/// `name = -> number` at `p`, the number followed by a token that ends it.
pub open spec fn simple_declaration_at(tokens: Seq<Token>, p: int) -> bool {
    &&& kind_is(tokens, p, TokenKind::Ident)
    &&& kind_is(tokens, p + 1, TokenKind::Assign)
    &&& kind_is(tokens, p + 2, TokenKind::Arrow)
    &&& closed_number_at(tokens, p + 3)
}

/// `d` is the declaration `name = -> number` written at `p`.
pub open spec fn declares_number(d: FunctionDecl, tokens: Seq<Token>, p: int) -> bool {
    &&& d.name.name@ == tokens[p].text@
    &&& d.lambda.parameters@.len() == 0
    &&& d.lambda.arrow_kind == LambdaArrowKind::Normal
    &&& view_statements(d.lambda.body.statements@) == seq![
        SpecStatement::Expression(number_expression(tokens[p + 3])),
    ]
}

/// Every declaration of the module has a body whose `do` blocks are all
/// accepted and expanded.
pub open spec fn valid_module(m: Module) -> bool {
    forall|i: int|
        0 <= i < m.top_levels@.len() ==> match #[trigger] m.top_levels@[i] {
            TopLevel::FunctionDecl(d) => valid_block(view_statements(d.lambda.body.statements@)),
        }
}

/// A module: function declarations, each on its own line at the left margin.
pub(crate) fn parse_module(tokens: &Vec<Token>) -> (r: Result<Module, ParseError>)
    ensures
        r matches Ok(m) ==> valid_module(m),
        (forall|k: int| 0 <= k < tokens@.len() ==> blank_kind(#[trigger] tokens@[k].kind)) ==> (r matches Ok(
            m,
        ) && m.top_levels@.len() == 0),
        tokens@.len() == 5 && tokens@[0].indent == 0 && simple_declaration_at(tokens@, 0) && kind_is(
            tokens@,
            4,
            TokenKind::Eol,
        ) ==> (r matches Ok(m) && m.top_levels@.len() == 1 && (m.top_levels@[0] matches TopLevel::FunctionDecl(
            d,
        ) && declares_number(d, tokens@, 0))),
{
    let mut top_levels: Vec<TopLevel> = Vec::new();
    let mut p = skip_blank(tokens, 0);
    let ghost one = tokens@.len() == 5 && tokens@[0].indent == 0 && simple_declaration_at(tokens@, 0)
        && kind_is(tokens@, 4, TokenKind::Eol);
    while p < tokens.len()
        invariant
            p <= tokens.len(),
            one == (tokens@.len() == 5 && tokens@[0].indent == 0 && simple_declaration_at(tokens@, 0)
                && kind_is(tokens@, 4, TokenKind::Eol)),
            (forall|k: int| 0 <= k < tokens@.len() ==> blank_kind(#[trigger] tokens@[k].kind)) ==> p
                == tokens.len() && top_levels@.len() == 0,
            one ==> (p == 0 && top_levels@.len() == 0) || (p == 5 && top_levels@.len() == 1 && (
            top_levels@[0] matches TopLevel::FunctionDecl(d) && declares_number(d, tokens@, 0))),
            forall|m: int|
                0 <= m < top_levels@.len() ==> match #[trigger] top_levels@[m] {
                    TopLevel::FunctionDecl(d) => valid_block(view_statements(d.lambda.body.statements@)),
                },
        decreases tokens.len() - p,
    {
        if tokens[p].indent != 0 {
            return hard(tokens, p, "Unexpected indentation");
        }
        let (q, decl) = parse_function_decl(tokens, p, PARSE_FUEL)?;
        if q < tokens.len() && tokens[q].kind != TokenKind::Eol {
            return hard(tokens, q, "Unexpected tokens after the declaration");
        }
        top_levels.push(TopLevel::FunctionDecl(decl));
        p = if q < tokens.len() {
            skip_blank(tokens, q + 1)
        } else {
            q
        };
    }
    Ok(Module { top_levels })
}

/// Lexes and parses a source file.
pub fn parse_source(source: &str) -> (r: Result<Module, ParseError>)
    ensures
        r matches Ok(m) ==> valid_module(m),
        (forall|j: int| 0 <= j < source@.len() ==> #[trigger] source@[j] == ' ' || source@[j] == '\n')
            ==> (r matches Ok(m) && m.top_levels@.len() == 0),
        forall|words: Seq<Seq<char>>|
            #[trigger] plain_line(source@, words) && declaration_words(words) ==> (r matches Ok(m)
                && m.top_levels@.len() == 1 && (m.top_levels@[0] matches TopLevel::FunctionDecl(d)
                && declares_number_words(d, words))),
{
    match lex(source) {
        Ok(tokens) => {
            proof {
                assert forall|words: Seq<Seq<char>>| #[trigger]
                    plain_line(source@, words) && declaration_words(words) implies {
                    &&& tokens@.len() == 5
                    &&& tokens@[0].indent == 0
                    &&& simple_declaration_at(tokens@, 0)
                    &&& kind_is(tokens@, 4, TokenKind::Eol)
                    &&& tokens@[0].text@ == words[0]
                    &&& tokens@[3].text@ == words[3]
                } by {
                    lemma_declaration_tokens(tokens@, words);
                }
            }
            parse_module(&tokens)
        },
        Err(_) => hard_in_source("Invalid characters in the source"),
    }
}

/// Lexes and parses a program.
pub fn parse_string(source: &str) -> (r: Result<Program, ParseError>)
    ensures
        r matches Ok(p) ==> valid_module(p.module),
        (forall|j: int| 0 <= j < source@.len() ==> #[trigger] source@[j] == ' ' || source@[j] == '\n')
            ==> (r matches Ok(p) && p.module.top_levels@.len() == 0),
        forall|words: Seq<Seq<char>>|
            #[trigger] plain_line(source@, words) && declaration_words(words) ==> (r matches Ok(p)
                && p.module.top_levels@.len() == 1 && (p.module.top_levels@[0] matches TopLevel::FunctionDecl(
                d,
            ) && declares_number_words(d, words))),
{
    let module = parse_source(source)?;
    Ok(Program { module })
}

/// The number of tokens from `pos` on that are neither ends of lines nor comments.
pub open spec fn code_count(tokens: Seq<Token>, pos: int) -> nat
    decreases tokens.len() - pos,
{
    if pos < 0 || pos >= tokens.len() {
        0
    } else {
        (if blank_kind(tokens[pos].kind) {
            0nat
        } else {
            1nat
        }) + code_count(tokens, pos + 1)
    }
}

/// The number of tokens left after `pos`, not counting ends of lines and comments.
fn unparsed(tokens: &Vec<Token>, pos: usize) -> (r: usize)
    requires
        pos <= tokens.len(),
    ensures
        r == code_count(tokens@, pos as int),
{
    let mut count: usize = 0;
    let mut p = tokens.len();
    while p > pos
        invariant
            pos <= p <= tokens.len(),
            count <= tokens.len() - p,
            count == code_count(tokens@, p as int),
        decreases p,
    {
        p = p - 1;
        if tokens[p].kind != TokenKind::Eol && tokens[p].kind != TokenKind::Comment {
            count = count + 1;
        }
    }
    count
}

/// Lexes `source` and parses one expression from its start; gives the
/// expression and how many tokens it left unparsed.
pub fn parse_expression_source(source: &str) -> (r: Result<(Expression, usize), ParseError>)
    ensures
        r matches Ok((e, _)) ==> valid_expr(e@),
        source@.len() > 0 && crate::lexer::all_digits(source@) ==> (r matches Ok((e, rest)) && rest == 0
            && e@ == crate::do_expr::spec_expr(SpecOperand::Literal(SpecLiteral::Number(source@)))),
{
    let tokens = match lex(source) {
        Ok(tokens) => tokens,
        Err(_) => {
            return hard_in_source("Invalid characters in the source");
        },
    };
    let ctx = Ctx { indent: 0, inside_args: false };
    let (p, e) = parse_expression(&tokens, 0, ctx, PARSE_FUEL)?;
    let rest = unparsed(&tokens, p);
    proof {
        if source@.len() > 0 && crate::lexer::all_digits(source@) {
            assert(code_count(tokens@, 2) == 0);
            assert(code_count(tokens@, 1) == 0);
        }
    }
    Ok((e, rest))
}

/// The expression a number written as `text` stands for.
pub open spec fn number_text_expression(text: Seq<char>) -> SpecExpression {
    crate::do_expr::spec_expr(SpecOperand::Literal(SpecLiteral::Number(text)))
}

/// The words `name = -> number`.
pub open spec fn declaration_words(words: Seq<Seq<char>>) -> bool {
    &&& words.len() == 4
    &&& crate::lexer::word_kind(words[0]) == TokenKind::Ident
    &&& words[1] == seq!['=']
    &&& words[2] == seq!['-', '>']
    &&& all_digits(words[3])
}

/// The words `if number then number`.
pub open spec fn if_then_words(words: Seq<Seq<char>>) -> bool {
    &&& words.len() == 4
    &&& words[0] == keyword_word(Keyword::If)
    &&& all_digits(words[1])
    &&& words[2] == keyword_word(Keyword::Then)
    &&& all_digits(words[3])
}

/// Lexes `source` and parses one function declaration from its start; gives
/// the declaration and how many tokens it left unparsed.
pub fn parse_function_decl_source(source: &str) -> (r: Result<(FunctionDecl, usize), ParseError>)
    ensures
        r matches Ok((d, _)) ==> valid_block(view_statements(d.lambda.body.statements@)),
        forall|words: Seq<Seq<char>>|
            #[trigger] plain_line(source@, words) && declaration_words(words) ==> (r matches Ok((
                d,
                rest,
            )) && rest == 0 && declares_number_words(d, words)),
{
    let tokens = match lex(source) {
        Ok(tokens) => tokens,
        Err(_) => {
            return hard_in_source("Invalid characters in the source");
        },
    };
    proof {
        assert forall|words: Seq<Seq<char>>| #[trigger]
            plain_line(source@, words) && declaration_words(words) implies {
            &&& simple_declaration_at(tokens@, 0)
            &&& tokens@[0].text@ == words[0]
            &&& tokens@[3].text@ == words[3]
            &&& code_count(tokens@, 4) == 0
        } by {
            lemma_declaration_tokens(tokens@, words);
            assert(code_count(tokens@, 5) == 0);
        }
    }
    let (p, decl) = parse_function_decl(&tokens, 0, PARSE_FUEL)?;
    let rest = unparsed(&tokens, p);
    Ok((decl, rest))
}

/// `d` declares, under the first of `words`, a function without parameters
/// whose body is the number that the last of them spells.
pub open spec fn declares_number_words(d: FunctionDecl, words: Seq<Seq<char>>) -> bool {
    &&& d.name.name@ == words[0]
    &&& d.lambda.parameters@.len() == 0
    &&& d.lambda.arrow_kind == LambdaArrowKind::Normal
    &&& view_statements(d.lambda.body.statements@) == seq![
        SpecStatement::Expression(number_text_expression(words[3])),
    ]
}

/// The tokens of the words `name = -> number`.
proof fn lemma_declaration_tokens(tokens: Seq<Token>, words: Seq<Seq<char>>)
    requires
        crate::lexer::lexes_words(tokens, words),
        forall|k: int| 0 <= k < words.len() ==> crate::lexer::plain_word(#[trigger] words[k]),
        declaration_words(words),
    ensures
        tokens.len() == 5,
        tokens[0].indent == 0,
        simple_declaration_at(tokens, 0),
        kind_is(tokens, 4, TokenKind::Eol),
        tokens[0].text@ == words[0],
        tokens[3].text@ == words[3],
{
    assert(tokens[0].kind == crate::lexer::word_kind(words[0]));
    assert(tokens[1].kind == crate::lexer::word_kind(words[1]));
    assert(tokens[2].kind == crate::lexer::word_kind(words[2]));
    assert(tokens[3].kind == crate::lexer::word_kind(words[3]));
    lemma_digit_word_is_number(words[3]);
}

/// A word of digits of a plain line is a number.
proof fn lemma_digit_word_is_number(w: Seq<char>)
    requires
        crate::lexer::plain_word(w),
        all_digits(w),
    ensures
        w.len() > 0,
        crate::lexer::word_kind(w) == TokenKind::Number,
{
    if w == seq!['='] {
        assert(w[0] == '=');
    }
    if w == seq!['-', '>'] {
        assert(w[0] == '-');
    }
}

/// Lexes `source` and parses one `if` expression from its start; gives it
/// and how many tokens it left unparsed.
pub fn parse_if_source(source: &str) -> (r: Result<(If, usize), ParseError>)
    ensures
        r matches Ok((i, _)) ==> valid_operand(view_operand(Operand::If(Box::new(i)))),
        forall|words: Seq<Seq<char>>|
            #[trigger] plain_line(source@, words) && if_then_words(words) ==> (r matches Ok((i, rest))
                && rest == 0 && view_operand(Operand::If(Box::new(i))) == (SpecOperand::If {
                cond: Box::new(number_text_expression(words[1])),
                then_branch: seq![SpecStatement::Expression(number_text_expression(words[3]))],
                else_: None,
            })),
{
    let tokens = match lex(source) {
        Ok(tokens) => tokens,
        Err(_) => {
            return hard_in_source("Invalid characters in the source");
        },
    };
    proof {
        lemma_if_then_words();
        assert forall|words: Seq<Seq<char>>| #[trigger]
            plain_line(source@, words) && if_then_words(words) implies {
            &&& kind_is(tokens@, 0, TokenKind::Keyword(Keyword::If))
            &&& closed_number_at(tokens@, 1)
            &&& kind_is(tokens@, 2, TokenKind::Keyword(Keyword::Then))
            &&& closed_number_at(tokens@, 3)
            &&& !kind_is(tokens@, 4, TokenKind::Keyword(Keyword::Else))
            &&& tokens@[1].text@ == words[1]
            &&& tokens@[3].text@ == words[3]
            &&& code_count(tokens@, 4) == 0
        } by {
            assert(crate::lexer::lexes_words(tokens@, words));
            assert(tokens@[0].kind == crate::lexer::word_kind(words[0]));
            assert(tokens@[1].kind == crate::lexer::word_kind(words[1]));
            assert(tokens@[2].kind == crate::lexer::word_kind(words[2]));
            assert(tokens@[3].kind == crate::lexer::word_kind(words[3]));
            assert(tokens@[1].text@ == words[1]);
            assert(tokens@[3].text@ == words[3]);
            lemma_digit_word_is_number(words[1]);
            lemma_digit_word_is_number(words[3]);
            assert(code_count(tokens@, 5) == 0);
        }
    }
    let ctx = Ctx { indent: 0, inside_args: false };
    let (p, if_) = parse_if(&tokens, 0, ctx, PARSE_FUEL)?;
    let rest = unparsed(&tokens, p);
    Ok((if_, rest))
}

} // verus!
