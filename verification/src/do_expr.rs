use vstd::prelude::*;
use crate::ast::{
    StructField, clone_do_statements, view_arguments, view_arms, view_expressions, view_fields,
    view_secondaries, view_secondary, view_unary, view_do_statements, view_path, view_statements, Argument, Block,
    DoStatement, Expression, Ident, IdentOrType, IdentifierPath, LambdaArrowKind, LambdaDecl,
    Literal, LiteralKind, Match, MatchArm, Operand, Pattern, PatternKind, PrimaryExpr,
    SecondaryExpr, SpecArm, SpecDoStatement, SpecExpression, SpecLiteral, SpecOperand,
    SpecPattern, SpecPrimary, SpecSecondary, SpecSegment, SpecStatement, SpecUnary, Statement,
    UnaryExpr,
};
use crate::lexer::{Keyword, SourceSpan, Token, TokenKind};
use crate::parser::{
    advanced, span_of, atom_operand, closed_value_in, value_expression, value_fuel, value_len, value_primary, assignment_head_at, closed_expr_in, expr_fuel, expr_len, simple_expression, simple_pattern, hard, is_kind, kind_is, parse_expression, parse_pattern, parse_statement, too_deep, Ctx,
    ParseError, PARSE_FUEL,
};

verus! {

// ---------------------------------------------------------------------------
// Control flow that would cross a generated callback boundary.
// ---------------------------------------------------------------------------

/// Whether a statement inside a `do` block (inside a loop of that block when
/// `in_loop`) holds control flow that would leave the block: `return`,
/// `break` or `continue` outside any loop, or `?`. Lambdas are not entered:
/// their control flow is their own.
pub open spec fn statement_escapes(s: SpecStatement, in_loop: bool) -> bool
    decreases s,
{
    match s {
        SpecStatement::Return(_) => true,
        SpecStatement::Break => !in_loop,
        SpecStatement::Continue => !in_loop,
        SpecStatement::Assignment(_, v) => expression_escapes(v, in_loop),
        SpecStatement::Expression(e) => expression_escapes(e, in_loop),
    }
}

pub open spec fn expression_escapes(e: SpecExpression, in_loop: bool) -> bool
    decreases e,
{
    match e {
        SpecExpression::Unary(u) => unary_escapes(u, in_loop),
        SpecExpression::Binop(l, _, r) => unary_escapes(l, in_loop) || expression_escapes(
            *r,
            in_loop,
        ),
        SpecExpression::Cast(inner, _) => expression_escapes(*inner, in_loop),
        SpecExpression::Range { start, end, .. } => (start matches Some(x) && expression_escapes(
            *x,
            in_loop,
        )) || (end matches Some(x) && expression_escapes(*x, in_loop)),
    }
}

pub open spec fn unary_escapes(u: SpecUnary, in_loop: bool) -> bool
    decreases u,
{
    match u {
        SpecUnary::Primary(p) => operand_escapes(p.operand, in_loop) || (p.secondaries matches Some(
            ss,
        ) && secondaries_escape(ss, in_loop)),
        SpecUnary::Prefix(_, inner) => unary_escapes(*inner, in_loop),
    }
}

pub open spec fn secondaries_escape(ss: Seq<SpecSecondary>, in_loop: bool) -> bool
    decreases ss,
{
    exists|i: int| 0 <= i < ss.len() && secondary_escapes(#[trigger] ss[i], in_loop)
}

pub open spec fn secondary_escapes(s: SpecSecondary, in_loop: bool) -> bool
    decreases s,
{
    match s {
        SpecSecondary::Arguments(args) => expressions_escape(args, in_loop),
        SpecSecondary::Dot(_) => false,
        SpecSecondary::Index(e) => expression_escapes(*e, in_loop),
        SpecSecondary::Interogation => true,
    }
}

pub open spec fn expressions_escape(es: Seq<SpecExpression>, in_loop: bool) -> bool
    decreases es,
{
    exists|i: int| 0 <= i < es.len() && expression_escapes(#[trigger] es[i], in_loop)
}

pub open spec fn block_escapes(ss: Seq<SpecStatement>, in_loop: bool) -> bool
    decreases ss,
{
    exists|i: int| 0 <= i < ss.len() && statement_escapes(#[trigger] ss[i], in_loop)
}

pub open spec fn arm_escapes(arm: SpecArm, in_loop: bool) -> bool
    decreases arm,
{
    (arm.condition matches Some(c) && expression_escapes(c, in_loop)) || block_escapes(
        arm.body,
        in_loop,
    )
}

pub open spec fn arms_escape(arms: Seq<SpecArm>, in_loop: bool) -> bool
    decreases arms,
{
    exists|i: int| 0 <= i < arms.len() && arm_escapes(#[trigger] arms[i], in_loop)
}

pub open spec fn fields_escape(fields: Seq<(Seq<char>, SpecExpression)>, in_loop: bool) -> bool
    decreases fields,
{
    exists|i: int| 0 <= i < fields.len() && expression_escapes(#[trigger] fields[i].1, in_loop)
}

pub open spec fn operand_escapes(o: SpecOperand, in_loop: bool) -> bool
    decreases o,
{
    match o {
        SpecOperand::Literal(_) => false,
        SpecOperand::Ident(_) => false,
        SpecOperand::Expression(e) => expression_escapes(*e, in_loop),
        SpecOperand::Tuple(es) => expressions_escape(es, in_loop),
        SpecOperand::Array(es) => expressions_escape(es, in_loop),
        SpecOperand::ArrayRepeat(v, n) => expression_escapes(*v, in_loop) || expression_escapes(
            *n,
            in_loop,
        ),
        SpecOperand::Lambda { .. } => false,
        SpecOperand::If { cond, then_branch, else_ } => expression_escapes(*cond, in_loop)
            || block_escapes(then_branch, in_loop) || (else_ matches Some(b) && block_escapes(
            b,
            in_loop,
        )),
        SpecOperand::Match { expr, arms, .. } => expression_escapes(*expr, in_loop) || arms_escape(
            arms,
            in_loop,
        ),
        SpecOperand::Loop(b) => block_escapes(b, true),
        SpecOperand::StructCtor { fields, .. } => fields_escape(fields, in_loop),
    }
}

/// Whether an entry of a `do` block holds control flow that would leave it.
pub open spec fn entry_escapes(entry: SpecDoStatement) -> bool {
    match entry {
        SpecDoStatement::Bind(_, action) => expression_escapes(action, false),
        SpecDoStatement::Statement(s) => statement_escapes(s, false),
        SpecDoStatement::Comment(_) => false,
    }
}

// ---------------------------------------------------------------------------
// Which message the check reports: that of the last offending node met, in
// the order the syntax tree is walked.
// ---------------------------------------------------------------------------

pub open spec fn return_message() -> Seq<char> {
    "Use the final expression instead of return in a do block"@
}

pub open spec fn leave_message() -> Seq<char> {
    "Control flow cannot leave a do block"@
}

pub open spec fn question_message() -> Seq<char> {
    "Use '<-' instead of '?' in a do block"@
}

/// The text of a finding, if any.
pub open spec fn message_of(r: Option<&str>) -> Option<Seq<char>> {
    match r {
        Some(m) => Some(m@),
        None => None,
    }
}

/// The later of two findings.
pub open spec fn later_message(first: Option<Seq<char>>, second: Option<Seq<char>>) -> Option<Seq<char>> {
    match second {
        Some(m) => Some(m),
        None => first,
    }
}

pub open spec fn statement_message(s: SpecStatement, in_loop: bool) -> Option<Seq<char>>
    decreases s,
{
    match s {
        SpecStatement::Return(_) => Some(return_message()),
        SpecStatement::Break => if in_loop {
            None
        } else {
            Some(leave_message())
        },
        SpecStatement::Continue => if in_loop {
            None
        } else {
            Some(leave_message())
        },
        SpecStatement::Assignment(_, v) => expression_message(v, in_loop),
        SpecStatement::Expression(e) => expression_message(e, in_loop),
    }
}

pub open spec fn expression_message(e: SpecExpression, in_loop: bool) -> Option<Seq<char>>
    decreases e,
{
    match e {
        SpecExpression::Unary(u) => unary_message(u, in_loop),
        SpecExpression::Binop(l, _, r) => later_message(unary_message(l, in_loop), expression_message(*r, in_loop)),
        SpecExpression::Cast(inner, _) => expression_message(*inner, in_loop),
        SpecExpression::Range { start, end, .. } => later_message(
            match start {
                Some(x) => expression_message(*x, in_loop),
                None => None,
            },
            match end {
                Some(x) => expression_message(*x, in_loop),
                None => None,
            },
        ),
    }
}

pub open spec fn unary_message(u: SpecUnary, in_loop: bool) -> Option<Seq<char>>
    decreases u,
{
    match u {
        SpecUnary::Primary(p) => match p.secondaries {
            Some(ss) => later_message(operand_message(p.operand, in_loop), secondaries_message(ss, in_loop)),
            None => operand_message(p.operand, in_loop),
        },
        SpecUnary::Prefix(_, inner) => unary_message(*inner, in_loop),
    }
}

pub open spec fn secondaries_message(ss: Seq<SpecSecondary>, in_loop: bool) -> Option<Seq<char>>
    decreases ss,
{
    if ss.len() == 0 {
        None
    } else {
        later_message(
            secondaries_message(ss.subrange(0, ss.len() - 1), in_loop),
            secondary_message(ss[ss.len() - 1], in_loop),
        )
    }
}

pub open spec fn secondary_message(s: SpecSecondary, in_loop: bool) -> Option<Seq<char>>
    decreases s,
{
    match s {
        SpecSecondary::Arguments(args) => expressions_message(args, in_loop),
        SpecSecondary::Dot(_) => None,
        SpecSecondary::Index(e) => expression_message(*e, in_loop),
        SpecSecondary::Interogation => Some(question_message()),
    }
}

pub open spec fn expressions_message(es: Seq<SpecExpression>, in_loop: bool) -> Option<Seq<char>>
    decreases es,
{
    if es.len() == 0 {
        None
    } else {
        later_message(
            expressions_message(es.subrange(0, es.len() - 1), in_loop),
            expression_message(es[es.len() - 1], in_loop),
        )
    }
}

pub open spec fn block_message(ss: Seq<SpecStatement>, in_loop: bool) -> Option<Seq<char>>
    decreases ss,
{
    if ss.len() == 0 {
        None
    } else {
        later_message(
            block_message(ss.subrange(0, ss.len() - 1), in_loop),
            statement_message(ss[ss.len() - 1], in_loop),
        )
    }
}

pub open spec fn arm_message(arm: SpecArm, in_loop: bool) -> Option<Seq<char>>
    decreases arm,
{
    later_message(
        match arm.condition {
            Some(c) => expression_message(c, in_loop),
            None => None,
        },
        block_message(arm.body, in_loop),
    )
}

pub open spec fn arms_message(arms: Seq<SpecArm>, in_loop: bool) -> Option<Seq<char>>
    decreases arms,
{
    if arms.len() == 0 {
        None
    } else {
        later_message(
            arms_message(arms.subrange(0, arms.len() - 1), in_loop),
            arm_message(arms[arms.len() - 1], in_loop),
        )
    }
}

pub open spec fn fields_message(fields: Seq<(Seq<char>, SpecExpression)>, in_loop: bool) -> Option<Seq<char>>
    decreases fields,
{
    if fields.len() == 0 {
        None
    } else {
        later_message(
            fields_message(fields.subrange(0, fields.len() - 1), in_loop),
            expression_message(fields[fields.len() - 1].1, in_loop),
        )
    }
}

pub open spec fn operand_message(o: SpecOperand, in_loop: bool) -> Option<Seq<char>>
    decreases o,
{
    match o {
        SpecOperand::Literal(_) => None,
        SpecOperand::Ident(_) => None,
        SpecOperand::Expression(e) => expression_message(*e, in_loop),
        SpecOperand::Tuple(es) => expressions_message(es, in_loop),
        SpecOperand::Array(es) => expressions_message(es, in_loop),
        SpecOperand::ArrayRepeat(v, n) => later_message(expression_message(*v, in_loop), expression_message(*n, in_loop)),
        SpecOperand::Lambda { .. } => None,
        SpecOperand::If { cond, then_branch, else_ } => {
            let b = later_message(expression_message(*cond, in_loop), block_message(then_branch, in_loop));
            match else_ {
                Some(e) => later_message(b, block_message(e, in_loop)),
                None => b,
            }
        },
        SpecOperand::Match { expr, arms, .. } => later_message(expression_message(*expr, in_loop), arms_message(arms, in_loop)),
        SpecOperand::Loop(b) => block_message(b, true),
        SpecOperand::StructCtor { fields, .. } => fields_message(fields, in_loop),
    }
}

/// The message with which an entry of a `do` block is refused, if any.
pub open spec fn entry_message(entry: SpecDoStatement) -> Option<Seq<char>> {
    match entry {
        SpecDoStatement::Bind(_, action) => expression_message(action, false),
        SpecDoStatement::Statement(s) => statement_message(s, false),
        SpecDoStatement::Comment(_) => None,
    }
}

// ---------------------------------------------------------------------------
// Laws of the control-flow check: control flow that leaves a `do` block from
// any part of an entry (outside lambdas) leaves it from the whole entry, and
// the entry is then refused.
// ---------------------------------------------------------------------------

/// A list of findings holds one exactly where one of its elements does.
proof fn lemma_block_message_some(ss: Seq<SpecStatement>, in_loop: bool)
    ensures
        block_message(ss, in_loop) is Some <==> exists|i: int| 0 <= i < ss.len() && (#[trigger] statement_message(ss[i], in_loop)) is Some,
    decreases ss.len(),
{
    if ss.len() > 0 {
        let n = ss.len() - 1;
        let init = ss.subrange(0, n);
        lemma_block_message_some(init, in_loop);
        assert(block_message(ss, in_loop) == later_message(block_message(init, in_loop), statement_message(ss[n], in_loop)));
        if statement_message(ss[n], in_loop) is Some {
            assert(0 <= n < ss.len() && statement_message(ss[n], in_loop) is Some);
        }
        if exists|i: int| 0 <= i < ss.len() && (#[trigger] statement_message(ss[i], in_loop)) is Some {
            let i = choose|i: int| 0 <= i < ss.len() && (#[trigger] statement_message(ss[i], in_loop)) is Some;
            if i < n {
                assert(init[i] == ss[i]);
                assert(statement_message(init[i], in_loop) is Some);
            }
        }
        if block_message(init, in_loop) is Some {
            let i = choose|i: int| 0 <= i < init.len() && (#[trigger] statement_message(init[i], in_loop)) is Some;
            assert(ss[i] == init[i]);
            assert(statement_message(ss[i], in_loop) is Some);
        }
    }
}

proof fn lemma_expressions_message_some(es: Seq<SpecExpression>, in_loop: bool)
    ensures
        expressions_message(es, in_loop) is Some <==> exists|i: int| 0 <= i < es.len() && (#[trigger] expression_message(es[i], in_loop)) is Some,
    decreases es.len(),
{
    if es.len() > 0 {
        let n = es.len() - 1;
        let init = es.subrange(0, n);
        lemma_expressions_message_some(init, in_loop);
        assert(expressions_message(es, in_loop) == later_message(expressions_message(init, in_loop), expression_message(es[n], in_loop)));
        if expression_message(es[n], in_loop) is Some {
            assert(0 <= n < es.len() && expression_message(es[n], in_loop) is Some);
        }
        if exists|i: int| 0 <= i < es.len() && (#[trigger] expression_message(es[i], in_loop)) is Some {
            let i = choose|i: int| 0 <= i < es.len() && (#[trigger] expression_message(es[i], in_loop)) is Some;
            if i < n {
                assert(init[i] == es[i]);
                assert(expression_message(init[i], in_loop) is Some);
            }
        }
        if expressions_message(init, in_loop) is Some {
            let i = choose|i: int| 0 <= i < init.len() && (#[trigger] expression_message(init[i], in_loop)) is Some;
            assert(es[i] == init[i]);
            assert(expression_message(es[i], in_loop) is Some);
        }
    }
}

proof fn lemma_secondaries_message_some(ss: Seq<SpecSecondary>, in_loop: bool)
    ensures
        secondaries_message(ss, in_loop) is Some <==> exists|i: int| 0 <= i < ss.len() && (#[trigger] secondary_message(ss[i], in_loop)) is Some,
    decreases ss.len(),
{
    if ss.len() > 0 {
        let n = ss.len() - 1;
        let init = ss.subrange(0, n);
        lemma_secondaries_message_some(init, in_loop);
        assert(secondaries_message(ss, in_loop) == later_message(secondaries_message(init, in_loop), secondary_message(ss[n], in_loop)));
        if secondary_message(ss[n], in_loop) is Some {
            assert(0 <= n < ss.len() && secondary_message(ss[n], in_loop) is Some);
        }
        if exists|i: int| 0 <= i < ss.len() && (#[trigger] secondary_message(ss[i], in_loop)) is Some {
            let i = choose|i: int| 0 <= i < ss.len() && (#[trigger] secondary_message(ss[i], in_loop)) is Some;
            if i < n {
                assert(init[i] == ss[i]);
                assert(secondary_message(init[i], in_loop) is Some);
            }
        }
        if secondaries_message(init, in_loop) is Some {
            let i = choose|i: int| 0 <= i < init.len() && (#[trigger] secondary_message(init[i], in_loop)) is Some;
            assert(ss[i] == init[i]);
            assert(secondary_message(ss[i], in_loop) is Some);
        }
    }
}

proof fn lemma_arms_message_some(arms: Seq<SpecArm>, in_loop: bool)
    ensures
        arms_message(arms, in_loop) is Some <==> exists|i: int| 0 <= i < arms.len() && (#[trigger] arm_message(arms[i], in_loop)) is Some,
    decreases arms.len(),
{
    if arms.len() > 0 {
        let n = arms.len() - 1;
        let init = arms.subrange(0, n);
        lemma_arms_message_some(init, in_loop);
        assert(arms_message(arms, in_loop) == later_message(arms_message(init, in_loop), arm_message(arms[n], in_loop)));
        if arm_message(arms[n], in_loop) is Some {
            assert(0 <= n < arms.len() && arm_message(arms[n], in_loop) is Some);
        }
        if exists|i: int| 0 <= i < arms.len() && (#[trigger] arm_message(arms[i], in_loop)) is Some {
            let i = choose|i: int| 0 <= i < arms.len() && (#[trigger] arm_message(arms[i], in_loop)) is Some;
            if i < n {
                assert(init[i] == arms[i]);
                assert(arm_message(init[i], in_loop) is Some);
            }
        }
        if arms_message(init, in_loop) is Some {
            let i = choose|i: int| 0 <= i < init.len() && (#[trigger] arm_message(init[i], in_loop)) is Some;
            assert(arms[i] == init[i]);
            assert(arm_message(arms[i], in_loop) is Some);
        }
    }
}

proof fn lemma_fields_message_some(fields: Seq<(Seq<char>, SpecExpression)>, in_loop: bool)
    ensures
        fields_message(fields, in_loop) is Some <==> exists|i: int| 0 <= i < fields.len() && (#[trigger] expression_message(fields[i].1, in_loop)) is Some,
    decreases fields.len(),
{
    if fields.len() > 0 {
        let n = fields.len() - 1;
        let init = fields.subrange(0, n);
        lemma_fields_message_some(init, in_loop);
        assert(fields_message(fields, in_loop) == later_message(fields_message(init, in_loop), expression_message(fields[n].1, in_loop)));
        if expression_message(fields[n].1, in_loop) is Some {
            assert(0 <= n < fields.len() && expression_message(fields[n].1, in_loop) is Some);
        }
        if exists|i: int| 0 <= i < fields.len() && (#[trigger] expression_message(fields[i].1, in_loop)) is Some {
            let i = choose|i: int| 0 <= i < fields.len() && (#[trigger] expression_message(fields[i].1, in_loop)) is Some;
            if i < n {
                assert(init[i] == fields[i]);
                assert(expression_message(init[i].1, in_loop) is Some);
            }
        }
        if fields_message(init, in_loop) is Some {
            let i = choose|i: int| 0 <= i < init.len() && (#[trigger] expression_message(init[i].1, in_loop)) is Some;
            assert(fields[i] == init[i]);
            assert(expression_message(fields[i].1, in_loop) is Some);
        }
    }
}

/// An `if` leaves a `do` block, and is refused, whenever its condition, its
/// `then` branch or its `else` branch does: a `return` in either branch, for
/// one, leaves the block.
pub proof fn lemma_if_escapes_through_any_part(
    cond: SpecExpression,
    then_branch: Seq<SpecStatement>,
    else_: Option<Seq<SpecStatement>>,
    in_loop: bool,
)
    ensures
        ({
            let o = SpecOperand::If { cond: Box::new(cond), then_branch, else_ };
            &&& expression_escapes(cond, in_loop) ==> operand_escapes(o, in_loop)
            &&& block_escapes(then_branch, in_loop) ==> operand_escapes(o, in_loop)
            &&& (else_ matches Some(b) ==> (block_escapes(b, in_loop) ==> operand_escapes(o, in_loop)))
            &&& expression_message(cond, in_loop) is Some ==> operand_message(o, in_loop) is Some
            &&& block_message(then_branch, in_loop) is Some ==> operand_message(o, in_loop) is Some
            &&& (else_ matches Some(b) ==> (block_message(b, in_loop) is Some ==> operand_message(o, in_loop) is Some))
            &&& (else_ matches Some(b) ==> (b.contains(SpecStatement::Return(None)) ==> operand_escapes(o, in_loop)
                && operand_message(o, in_loop) is Some))
            &&& then_branch.contains(SpecStatement::Return(None)) ==> operand_escapes(o, in_loop) && operand_message(
                o,
                in_loop,
            ) is Some
        }),
{
    lemma_block_message_some(then_branch, in_loop);
    if let Some(b) = else_ {
        lemma_block_message_some(b, in_loop);
        if b.contains(SpecStatement::Return(None)) {
            let i = choose|i: int| 0 <= i < b.len() && b[i] == SpecStatement::Return(None);
            assert(statement_escapes(b[i], in_loop));
            assert(statement_message(b[i], in_loop) is Some);
        }
    }
    if then_branch.contains(SpecStatement::Return(None)) {
        let i = choose|i: int| 0 <= i < then_branch.len() && then_branch[i] == SpecStatement::Return(None);
        assert(statement_escapes(then_branch[i], in_loop));
        assert(statement_message(then_branch[i], in_loop) is Some);
    }
}

/// Any statement that holds a `return`, or a `break` or `continue` outside a
/// loop, leaves a block from anywhere in it, and the block is refused.
pub proof fn lemma_block_escapes_through_any_statement(ss: Seq<SpecStatement>, i: int, in_loop: bool)
    requires
        0 <= i < ss.len(),
    ensures
        statement_escapes(ss[i], in_loop) ==> block_escapes(ss, in_loop),
        statement_message(ss[i], in_loop) is Some ==> block_message(ss, in_loop) is Some,
        ss[i] is Return ==> block_escapes(ss, in_loop) && block_message(ss, in_loop) is Some,
        (ss[i] is Break || ss[i] is Continue) && !in_loop ==> block_escapes(ss, in_loop) && block_message(ss, in_loop)
            is Some,
{
    lemma_block_message_some(ss, in_loop);
}

/// Control flow leaves through any operand or suffix of an expression, and
/// through every part of the other compound operands, outside lambdas; a
/// loop's own body may `break` and `continue` but not `return`.
pub proof fn lemma_operands_escape_through_their_parts(o: SpecOperand, in_loop: bool)
    ensures
        o matches SpecOperand::Expression(e) ==> (expression_escapes(*e, in_loop) ==> operand_escapes(o, in_loop)),
        o matches SpecOperand::Tuple(es) ==> (forall|i: int| 0 <= i < es.len() && #[trigger] expression_escapes(es[i], in_loop) ==> operand_escapes(o, in_loop)),
        o matches SpecOperand::Array(es) ==> (forall|i: int| 0 <= i < es.len() && #[trigger] expression_escapes(es[i], in_loop) ==> operand_escapes(o, in_loop)),
        o matches SpecOperand::ArrayRepeat(v, n) ==> (expression_escapes(*v, in_loop) || expression_escapes(*n, in_loop) ==> operand_escapes(o, in_loop)),
        o matches SpecOperand::Match { expr, arms, .. } ==> ((expression_escapes(*expr, in_loop) || exists|i: int|
            0 <= i < arms.len() && block_escapes(#[trigger] arms[i].body, in_loop)) ==> operand_escapes(o, in_loop)),
        o matches SpecOperand::Loop(b) ==> (exists|i: int| 0 <= i < b.len() && #[trigger] b[i] is Return) ==> operand_escapes(o, in_loop),
        o matches SpecOperand::StructCtor { fields, .. } ==> (forall|i: int| 0 <= i < fields.len() && #[trigger] expression_escapes(fields[i].1, in_loop) ==> operand_escapes(o, in_loop)),
        o is Lambda ==> !operand_escapes(o, in_loop) && operand_message(o, in_loop) is None,
{
    if let SpecOperand::Match { expr, arms, .. } = o {
        if exists|i: int| 0 <= i < arms.len() && block_escapes(#[trigger] arms[i].body, in_loop) {
            let i = choose|i: int| 0 <= i < arms.len() && block_escapes(#[trigger] arms[i].body, in_loop);
            assert(arm_escapes(arms[i], in_loop));
        }
    }
    if let SpecOperand::Loop(b) = o {
        if exists|i: int| 0 <= i < b.len() && #[trigger] b[i] is Return {
            let i = choose|i: int| 0 <= i < b.len() && #[trigger] b[i] is Return;
            assert(statement_escapes(b[i], true));
        }
    }
}

/// Control flow leaves through any part of an expression: either side of an
/// operator, a cast, a range bound, a prefix operand, the operand of a
/// primary expression and each of its suffixes; a `?` always leaves.
pub proof fn lemma_expressions_escape_through_their_parts(e: SpecExpression, in_loop: bool)
    ensures
        e matches SpecExpression::Binop(l, _, r) ==> (unary_escapes(l, in_loop) || expression_escapes(*r, in_loop) ==> expression_escapes(e, in_loop)),
        e matches SpecExpression::Cast(inner, _) ==> (expression_escapes(*inner, in_loop) ==> expression_escapes(e, in_loop)),
        e matches SpecExpression::Unary(SpecUnary::Primary(p)) ==> (operand_escapes(p.operand, in_loop) ==> expression_escapes(e, in_loop)),
        e matches SpecExpression::Unary(SpecUnary::Primary(p)) ==> (p.secondaries matches Some(ss) ==> (forall|i: int|
            0 <= i < ss.len() && #[trigger] secondary_escapes(ss[i], in_loop) ==> expression_escapes(e, in_loop))),
        e matches SpecExpression::Unary(SpecUnary::Primary(p)) ==> (p.secondaries matches Some(ss) ==> (ss.contains(
            SpecSecondary::Interogation) ==> expression_escapes(e, in_loop) && expression_message(e, in_loop) is Some)),
        e matches SpecExpression::Unary(SpecUnary::Prefix(_, inner)) ==> (unary_escapes(*inner, in_loop) ==> expression_escapes(e, in_loop)),
        e matches SpecExpression::Range { start: Some(x), .. } ==> (expression_escapes(*x, in_loop) ==> expression_escapes(e, in_loop)),
        e matches SpecExpression::Range { end: Some(x), .. } ==> (expression_escapes(*x, in_loop) ==> expression_escapes(e, in_loop)),
{
    if let SpecExpression::Unary(u) = e {
        assert(expression_escapes(e, in_loop) == unary_escapes(u, in_loop));
        match u {
            SpecUnary::Primary(p) => {
                assert(unary_escapes(u, in_loop) == (operand_escapes(p.operand, in_loop) || (p.secondaries matches Some(
                    ss,
                ) && secondaries_escape(ss, in_loop))));
            },
            SpecUnary::Prefix(_, inner) => {
                assert(unary_escapes(u, in_loop) == unary_escapes(*inner, in_loop));
            },
        }
    }
    if let SpecExpression::Unary(SpecUnary::Primary(p)) = e {
        if let Some(ss) = p.secondaries {
            lemma_secondaries_message_some(ss, in_loop);
            if ss.contains(SpecSecondary::Interogation) {
                let i = choose|i: int| 0 <= i < ss.len() && ss[i] == SpecSecondary::Interogation;
                assert(secondary_escapes(ss[i], in_loop));
                assert(secondary_message(ss[i], in_loop) is Some);
                assert(secondaries_escape(ss, in_loop));
                assert(secondaries_message(ss, in_loop) is Some);
                let u = SpecUnary::Primary(p);
                assert(unary_message(u, in_loop) == later_message(operand_message(p.operand, in_loop), secondaries_message(ss, in_loop)));
                assert(expression_message(e, in_loop) == unary_message(u, in_loop));
            }
        }
    }
}

/// Every refused entry of a `do` block is refused because control flow
/// would leave it, and every entry whose control flow would leave it is
/// refused: the message exists exactly where the entry escapes.
pub proof fn lemma_statement_returns_escape(s: SpecStatement, in_loop: bool)
    ensures
        s is Return ==> statement_escapes(s, in_loop) && statement_message(s, in_loop) == Some(return_message()),
        (s is Break || s is Continue) ==> (statement_escapes(s, in_loop) <==> !in_loop),
        (s is Break || s is Continue) && !in_loop ==> statement_message(s, in_loop) == Some(leave_message()),
        s matches SpecStatement::Assignment(_, v) ==> (expression_escapes(v, in_loop) ==> statement_escapes(s, in_loop)),
        s matches SpecStatement::Expression(v) ==> (expression_escapes(v, in_loop) ==> statement_escapes(s, in_loop)),
{
}

/// The later of two findings: the check reports the last offending node it meets.
fn later(first: Option<&'static str>, second: Option<&'static str>) -> (r: Option<&'static str>)
    ensures
        r is Some <==> (first is Some || second is Some),
        message_of(r) == later_message(message_of(first), message_of(second)),
{
    match second {
        Some(m) => Some(m),
        None => first,
    }
}

fn check_statement(s: &Statement, in_loop: bool) -> (r: Option<&'static str>)
    ensures
        r is Some <==> statement_escapes(s@, in_loop),
        message_of(r) == statement_message(s@, in_loop),
        s@ is Return ==> (r matches Some(m) && m@ == "Use the final expression instead of return in a do block"@),
        (s@ is Break || s@ is Continue) && !in_loop ==> (r matches Some(m) && m@
            == "Control flow cannot leave a do block"@),
    decreases s,
{
    match s {
        Statement::Return(_) => Some("Use the final expression instead of return in a do block"),
        Statement::Break | Statement::Continue => if in_loop {
            None
        } else {
            Some("Control flow cannot leave a do block")
        },
        Statement::Assignment(a) => check_expression(&a.value, in_loop),
        Statement::Expression(e) => check_expression(e, in_loop),
    }
}

fn check_expression(e: &Expression, in_loop: bool) -> (r: Option<&'static str>)
    ensures
        r is Some <==> expression_escapes(e@, in_loop),
        message_of(r) == expression_message(e@, in_loop),
    decreases e,
{
    match e {
        Expression::UnaryExpr(u) => check_unary(u, in_loop),
        Expression::BinopExpr(l, _, r) => later(check_unary(l, in_loop), check_expression(r, in_loop)),
        Expression::CastExpr(inner, _) => check_expression(inner, in_loop),
        Expression::Range(r) => {
            let first = match &r.start {
                Some(s) => check_expression(s, in_loop),
                None => None,
            };
            let second = match &r.end {
                Some(x) => check_expression(x, in_loop),
                None => None,
            };
            later(first, second)
        },
    }
}

fn check_unary(u: &UnaryExpr, in_loop: bool) -> (r: Option<&'static str>)
    ensures
        r is Some <==> unary_escapes(view_unary(*u), in_loop),
        message_of(r) == unary_message(view_unary(*u), in_loop),
    decreases u,
{
    match u {
        UnaryExpr::PrimaryExpr(p) => {
            assert(view_unary(*u) == SpecUnary::Primary(crate::ast::view_primary(*p)));
            let found = check_operand(&p.operand, in_loop);
            match &p.secondaries {
                Some(ss) => {
                    assert(crate::ast::view_primary(*p).secondaries == Some(view_secondaries(ss@)));
                    later(found, check_secondaries(ss, in_loop))
                },
                None => found,
            }
        },
        UnaryExpr::UnaryExpr(_, inner) => check_unary(inner, in_loop),
    }
}

fn check_secondaries(ss: &Vec<SecondaryExpr>, in_loop: bool) -> (r: Option<&'static str>)
    ensures
        r is Some <==> secondaries_escape(view_secondaries(ss@), in_loop),
        message_of(r) == secondaries_message(view_secondaries(ss@), in_loop),
    decreases ss,
{
    let ghost v = view_secondaries(ss@);
    let mut found: Option<&'static str> = None;
    let mut i: usize = 0;
    while i < ss.len()
        invariant
            i <= ss@.len(),
            v == view_secondaries(ss@),
            found is Some <==> exists|j: int| 0 <= j < i && secondary_escapes(#[trigger] v[j], in_loop),
            message_of(found) == secondaries_message(v.subrange(0, i as int), in_loop),
        decreases ss.len() - i,
    {
        let m = check_secondary(&ss[i], in_loop);
        assert(v[i as int] == view_secondary(ss@[i as int]));
        proof {
            if found is None && m is None {
                assert forall|j: int| 0 <= j < i + 1 implies !secondary_escapes(#[trigger] v[j], in_loop) by {}
            }
        }
        proof {
            assert(v.subrange(0, i + 1).subrange(0, i as int) =~= v.subrange(0, i as int));
            assert(v.subrange(0, i + 1)[i as int] == v[i as int]);
        }
        found = later(found, m);
        i = i + 1;
    }
    assert(v.subrange(0, v.len() as int) =~= v);
    found
}

fn check_secondary(s: &SecondaryExpr, in_loop: bool) -> (r: Option<&'static str>)
    ensures
        r is Some <==> secondary_escapes(view_secondary(*s), in_loop),
        message_of(r) == secondary_message(view_secondary(*s), in_loop),
    decreases s,
{
    match s {
        SecondaryExpr::Arguments(args) => check_arguments(args, in_loop),
        SecondaryExpr::Dot(_) => None,
        SecondaryExpr::Index(e) => check_expression(e, in_loop),
        SecondaryExpr::Interogation => Some("Use '<-' instead of '?' in a do block"),
    }
}

fn check_arguments(args: &Vec<Argument>, in_loop: bool) -> (r: Option<&'static str>)
    ensures
        r is Some <==> expressions_escape(view_arguments(args@), in_loop),
        message_of(r) == expressions_message(view_arguments(args@), in_loop),
    decreases args,
{
    let ghost v = view_arguments(args@);
    let mut found: Option<&'static str> = None;
    let mut i: usize = 0;
    while i < args.len()
        invariant
            i <= args@.len(),
            v == view_arguments(args@),
            found is Some <==> exists|j: int| 0 <= j < i && expression_escapes(#[trigger] v[j], in_loop),
            message_of(found) == expressions_message(v.subrange(0, i as int), in_loop),
        decreases args.len() - i,
    {
        let m = check_expression(&args[i].arg, in_loop);
        assert(v[i as int] == args@[i as int].arg@);
        proof {
            if found is None && m is None {
                assert forall|j: int| 0 <= j < i + 1 implies !expression_escapes(#[trigger] v[j], in_loop) by {}
            }
        }
        proof {
            assert(v.subrange(0, i + 1).subrange(0, i as int) =~= v.subrange(0, i as int));
            assert(v.subrange(0, i + 1)[i as int] == v[i as int]);
        }
        found = later(found, m);
        i = i + 1;
    }
    assert(v.subrange(0, v.len() as int) =~= v);
    found
}

fn check_arms(arms: &Vec<MatchArm>, in_loop: bool) -> (r: Option<&'static str>)
    ensures
        r is Some <==> arms_escape(view_arms(arms@), in_loop),
        message_of(r) == arms_message(view_arms(arms@), in_loop),
    decreases arms,
{
    let ghost v = view_arms(arms@);
    let mut found: Option<&'static str> = None;
    let mut i: usize = 0;
    while i < arms.len()
        invariant
            i <= arms@.len(),
            v == view_arms(arms@),
            found is Some <==> exists|j: int| 0 <= j < i && arm_escapes(#[trigger] v[j], in_loop),
            message_of(found) == arms_message(v.subrange(0, i as int), in_loop),
        decreases arms.len() - i,
    {
        let arm = &arms[i];
        let first = match &arm.condition {
            Some(c) => check_expression(c, in_loop),
            None => None,
        };
        let m = later(first, check_block(&arm.body.statements, in_loop));
        proof {
            assert(v[i as int].body == view_statements(arm.body.statements@));
            assert(v[i as int].condition == match arm.condition {
                Some(c) => Some(c@),
                None => None,
            });
            if found is None && m is None {
                assert forall|j: int| 0 <= j < i + 1 implies !arm_escapes(#[trigger] v[j], in_loop) by {}
            }
        }
        proof {
            assert(v.subrange(0, i + 1).subrange(0, i as int) =~= v.subrange(0, i as int));
            assert(v.subrange(0, i + 1)[i as int] == v[i as int]);
            let cm = match v[i as int].condition {
                Some(c) => expression_message(c, in_loop),
                None => None,
            };
            assert(message_of(first) == cm);
            assert(message_of(m) == arm_message(v[i as int], in_loop));
        }
        found = later(found, m);
        i = i + 1;
    }
    assert(v.subrange(0, v.len() as int) =~= v);
    found
}

fn check_fields(fields: &Vec<StructField>, in_loop: bool) -> (r: Option<&'static str>)
    ensures
        r is Some <==> fields_escape(view_fields(fields@), in_loop),
        message_of(r) == fields_message(view_fields(fields@), in_loop),
    decreases fields,
{
    let ghost v = view_fields(fields@);
    let mut found: Option<&'static str> = None;
    let mut i: usize = 0;
    while i < fields.len()
        invariant
            i <= fields@.len(),
            v == view_fields(fields@),
            found is Some <==> exists|j: int| 0 <= j < i && expression_escapes(#[trigger] v[j].1, in_loop),
            message_of(found) == fields_message(v.subrange(0, i as int), in_loop),
        decreases fields.len() - i,
    {
        let m = check_expression(&fields[i].value, in_loop);
        assert(v[i as int].1 == fields@[i as int].value@);
        proof {
            if found is None && m is None {
                assert forall|j: int| 0 <= j < i + 1 implies !expression_escapes(#[trigger] v[j].1, in_loop) by {}
            }
        }
        proof {
            assert(v.subrange(0, i + 1).subrange(0, i as int) =~= v.subrange(0, i as int));
            assert(v.subrange(0, i + 1)[i as int] == v[i as int]);
        }
        found = later(found, m);
        i = i + 1;
    }
    assert(v.subrange(0, v.len() as int) =~= v);
    found
}

fn check_expressions(es: &Vec<Expression>, in_loop: bool) -> (r: Option<&'static str>)
    ensures
        r is Some <==> expressions_escape(view_expressions(es@), in_loop),
        message_of(r) == expressions_message(view_expressions(es@), in_loop),
    decreases es,
{
    let ghost v = view_expressions(es@);
    let mut found: Option<&'static str> = None;
    let mut i: usize = 0;
    while i < es.len()
        invariant
            i <= es@.len(),
            v == view_expressions(es@),
            found is Some <==> exists|j: int| 0 <= j < i && expression_escapes(#[trigger] v[j], in_loop),
            message_of(found) == expressions_message(v.subrange(0, i as int), in_loop),
        decreases es.len() - i,
    {
        let m = check_expression(&es[i], in_loop);
        assert(v[i as int] == es@[i as int]@);
        proof {
            if found is None && m is None {
                assert forall|j: int| 0 <= j < i + 1 implies !expression_escapes(#[trigger] v[j], in_loop) by {}
            }
        }
        proof {
            assert(v.subrange(0, i + 1).subrange(0, i as int) =~= v.subrange(0, i as int));
            assert(v.subrange(0, i + 1)[i as int] == v[i as int]);
        }
        found = later(found, m);
        i = i + 1;
    }
    assert(v.subrange(0, v.len() as int) =~= v);
    found
}

fn check_block(ss: &Vec<Statement>, in_loop: bool) -> (r: Option<&'static str>)
    ensures
        r is Some <==> block_escapes(view_statements(ss@), in_loop),
        message_of(r) == block_message(view_statements(ss@), in_loop),
    decreases ss,
{
    let ghost v = view_statements(ss@);
    let mut found: Option<&'static str> = None;
    let mut i: usize = 0;
    while i < ss.len()
        invariant
            i <= ss@.len(),
            v == view_statements(ss@),
            found is Some <==> exists|j: int| 0 <= j < i && statement_escapes(#[trigger] v[j], in_loop),
            message_of(found) == block_message(v.subrange(0, i as int), in_loop),
        decreases ss.len() - i,
    {
        let m = check_statement(&ss[i], in_loop);
        assert(v[i as int] == ss@[i as int]@);
        proof {
            if found is None && m is None {
                assert forall|j: int| 0 <= j < i + 1 implies !statement_escapes(#[trigger] v[j], in_loop) by {}
            }
        }
        proof {
            assert(v.subrange(0, i + 1).subrange(0, i as int) =~= v.subrange(0, i as int));
            assert(v.subrange(0, i + 1)[i as int] == v[i as int]);
        }
        found = later(found, m);
        i = i + 1;
    }
    assert(v.subrange(0, v.len() as int) =~= v);
    found
}

fn check_operand(o: &Operand, in_loop: bool) -> (r: Option<&'static str>)
    ensures
        r is Some <==> operand_escapes(o@, in_loop),
        message_of(r) == operand_message(o@, in_loop),
    decreases o,
{
    match o {
        Operand::Literal(_) => None,
        Operand::Ident(_) => None,
        Operand::Expression(e) => check_expression(e, in_loop),
        Operand::Tuple(es) => check_expressions(es, in_loop),
        Operand::Array(es) => check_expressions(es, in_loop),
        Operand::ArrayRepeat(v, n) => later(check_expression(v, in_loop), check_expression(n, in_loop)),
        Operand::LambdaDecl(_) => None,
        Operand::If(i) => {
            let a = check_expression(&i.cond, in_loop);
            let b = later(a, check_block(&i.then_branch.statements, in_loop));
            match &i.else_ {
                Some(e) => later(b, check_block(&e.statements, in_loop)),
                None => b,
            }
        },
        Operand::Match(m) => later(check_expression(&m.expr, in_loop), check_arms(&m.arms, in_loop)),
        Operand::Loop(b) => check_block(&b.statements, true),
        Operand::StructCtor(s) => check_fields(&s.fields, in_loop),
    }
}

// ---------------------------------------------------------------------------
// Expansion: each bind becomes a call of `bind` with the rest of the block as
// a one-parameter callback.
// ---------------------------------------------------------------------------

/// An expression made of one operand.
pub open spec fn spec_expr(o: SpecOperand) -> SpecExpression {
    SpecExpression::Unary(SpecUnary::Primary(SpecPrimary { operand: o, secondaries: None }))
}

/// `bind action, (parameter -> body)`
pub open spec fn bind_call(
    action: SpecExpression,
    parameter: SpecPattern,
    body: Seq<SpecStatement>,
) -> SpecStatement {
    let callback = spec_expr(
        SpecOperand::Lambda {
            parameters: seq![parameter],
            body,
            arrow_kind: LambdaArrowKind::Normal,
        },
    );
    SpecStatement::Expression(
        SpecExpression::Unary(
            SpecUnary::Primary(
                SpecPrimary {
                    operand: SpecOperand::Ident(seq![SpecSegment::Ident("bind"@)]),
                    secondaries: Some(
                        seq![
                            SpecSecondary::Arguments(
                                seq![action, spec_expr(SpecOperand::Expression(Box::new(callback)))],
                            ),
                        ],
                    ),
                },
            ),
        ),
    )
}

/// The statements that `entries` followed by the final expression `tail`
/// expand to: a bind (or a bare action, bound to `_`) wraps everything after
/// it into its callback; an assignment stays in place; comments vanish.
pub open spec fn expand_entries(entries: Seq<SpecDoStatement>, tail: SpecExpression) -> Seq<
    SpecStatement,
>
    decreases entries.len(),
{
    if entries.len() == 0 {
        seq![SpecStatement::Expression(tail)]
    } else {
        let rest = expand_entries(entries.drop_first(), tail);
        match entries[0] {
            SpecDoStatement::Bind(parameter, action) => seq![bind_call(action, parameter, rest)],
            SpecDoStatement::Statement(SpecStatement::Expression(action)) => seq![
                bind_call(action, SpecPattern::Wildcard, rest),
            ],
            SpecDoStatement::Statement(SpecStatement::Assignment(pattern, value)) => seq![
                SpecStatement::Assignment(pattern, value),
            ] + rest,
            _ => rest,
        }
    }
}

/// The index of the last entry that is not a comment, or -1.
pub open spec fn last_code_index(entries: Seq<SpecDoStatement>) -> int
    decreases entries.len(),
{
    if entries.len() == 0 {
        -1
    } else if entries.last() is Comment {
        last_code_index(entries.drop_last())
    } else {
        entries.len() - 1
    }
}

/// What a `do` block expands to, or `None` where its last entry (comments
/// aside) is not an expression.
pub open spec fn do_expansion(entries: Seq<SpecDoStatement>) -> Option<Seq<SpecStatement>> {
    let k = last_code_index(entries);
    if k >= 0 {
        match entries[k] {
            SpecDoStatement::Statement(SpecStatement::Expression(tail)) => Some(
                expand_entries(entries.take(k), tail),
            ),
            _ => None,
        }
    } else {
        None
    }
}

/// A generated `bind` call whose name and callback carry one place: that
/// place and the callback's body.
pub open spec fn bind_call_parts(s: Statement) -> Option<(SourceSpan, Seq<Statement>)> {
    match s {
        Statement::Expression(Expression::UnaryExpr(UnaryExpr::PrimaryExpr(p))) => match p.operand {
            Operand::Ident(path) => match p.secondaries {
                Some(secs) => if path.path@.len() == 1 && secs@.len() == 1 {
                    match (path.path@[0], secs@[0]) {
                        (IdentOrType::Ident(name), SecondaryExpr::Arguments(args)) => if args@.len() == 2 {
                            match args@[1].arg {
                                Expression::UnaryExpr(UnaryExpr::PrimaryExpr(g)) => match g.operand {
                                    Operand::Expression(inner) => match *inner {
                                        Expression::UnaryExpr(UnaryExpr::PrimaryExpr(l)) => match l.operand {
                                            Operand::LambdaDecl(lambda) => if lambda.span == name.span {
                                                Some((name.span, lambda.body.statements@))
                                            } else {
                                                None
                                            },
                                            _ => None,
                                        },
                                        _ => None,
                                    },
                                    _ => None,
                                },
                                _ => None,
                            }
                        } else {
                            None
                        },
                        _ => None,
                    }
                } else {
                    None
                },
                None => None,
            },
            _ => None,
        },
        _ => None,
    }
}

/// The places of `n` nested generated `bind` calls, each the last statement
/// of the body it stands in, outermost first.
pub open spec fn bind_spans(ss: Seq<Statement>, n: nat) -> Option<Seq<SourceSpan>>
    decreases n,
{
    if n == 0 {
        Some(Seq::empty())
    } else if ss.len() > 0 {
        match bind_call_parts(ss.last()) {
            Some((span, body)) => match bind_spans(body, (n - 1) as nat) {
                Some(rest) => Some(seq![span] + rest),
                None => None,
            },
            None => None,
        }
    } else {
        None
    }
}

/// The places of the entries that become `bind` calls (binds and bare
/// expressions), in order.
pub open spec fn bind_entry_spans(vs: Seq<SpecDoStatement>, spans: Seq<Option<SourceSpan>>) -> Seq<SourceSpan>
    decreases vs.len(),
{
    if vs.len() == 0 || spans.len() == 0 {
        Seq::empty()
    } else {
        let rest = bind_entry_spans(vs.drop_first(), spans.drop_first());
        if (vs[0] is Bind || vs[0] matches SpecDoStatement::Statement(SpecStatement::Expression(_)))
            && spans[0] is Some {
            seq![spans[0]->0] + rest
        } else {
            rest
        }
    }
}

/// The operand a `do` block becomes: `match true` with one wildcard arm whose
/// body is the expansion, remembering the block as written.
pub open spec fn do_operand(entries: Seq<SpecDoStatement>, body: Seq<SpecStatement>) -> SpecOperand {
    SpecOperand::Match {
        expr: Box::new(spec_expr(SpecOperand::Literal(SpecLiteral::Bool(true)))),
        arms: seq![SpecArm { pattern: SpecPattern::Wildcard, condition: None, body }],
        do_syntax: Some(entries),
    }
}

/// The pattern `_`.
pub fn wildcard() -> (r: Pattern)
    ensures
        r@ == SpecPattern::Wildcard,
{
    Pattern { kind: PatternKind::Wildcard }
}

/// An expression made of one operand.
pub fn expr(operand: Operand) -> (r: Expression)
    ensures
        r@ == spec_expr(operand@),
        r == Expression::UnaryExpr(UnaryExpr::PrimaryExpr(PrimaryExpr { operand, secondaries: None })),
{
    let ghost o = operand@;
    let p = PrimaryExpr { operand, secondaries: None };
    assert(crate::ast::view_primary(p) == SpecPrimary { operand: o, secondaries: None });
    let u = UnaryExpr::PrimaryExpr(p);
    assert(crate::ast::view_unary(u) == SpecUnary::Primary(SpecPrimary { operand: o, secondaries: None }));
    Expression::UnaryExpr(u)
}

fn bind_path(span: SourceSpan) -> (r: IdentifierPath)
    ensures
        view_path(r) == seq![SpecSegment::Ident("bind"@)],
        r.path@.len() == 1,
        r.path@[0] matches IdentOrType::Ident(i) && i.span == span,
{
    let mut path: Vec<IdentOrType> = Vec::new();
    path.push(IdentOrType::Ident(Ident { name: "bind".to_owned(), span }));
    let r = IdentifierPath { path };
    assert(view_path(r) =~= seq![SpecSegment::Ident("bind"@)]);
    r
}

fn bind_statement(action: Expression, parameter: Pattern, body: Vec<Statement>, span: SourceSpan) -> (r: Statement)
    ensures
        r@ == bind_call(action@, parameter@, view_statements(body@)),
        bind_call_parts(r) == Some((span, body@)),
{
    let ghost action_view = action@;
    let ghost parameter_view = parameter@;
    let ghost body_view = view_statements(body@);
    let mut parameters: Vec<Pattern> = Vec::new();
    parameters.push(parameter);
    let callback = expr(
        Operand::LambdaDecl(
            LambdaDecl {
                parameters,
                body: Block { statements: body },
                arrow_kind: LambdaArrowKind::Normal,
                span,
            },
        ),
    );
    assert(crate::ast::view_patterns(parameters@) =~= seq![parameter_view]);
    let grouped = expr(Operand::Expression(Box::new(callback)));
    let mut args: Vec<Argument> = Vec::new();
    args.push(Argument { arg: action });
    args.push(Argument { arg: grouped });
    let ghost args_view = seq![
        action_view,
        spec_expr(
            SpecOperand::Expression(
                Box::new(
                    spec_expr(
                        SpecOperand::Lambda {
                            parameters: seq![parameter_view],
                            body: body_view,
                            arrow_kind: LambdaArrowKind::Normal,
                        },
                    ),
                ),
            ),
        ),
    ];
    assert(crate::ast::view_arguments(args@) =~= args_view);
    let mut secondaries: Vec<SecondaryExpr> = Vec::new();
    secondaries.push(SecondaryExpr::Arguments(args));
    assert(crate::ast::view_secondaries(secondaries@) =~= seq![SpecSecondary::Arguments(args_view)]);
    Statement::Expression(
        Expression::UnaryExpr(
            UnaryExpr::PrimaryExpr(
                PrimaryExpr { operand: Operand::Ident(bind_path(span)), secondaries: Some(secondaries) },
            ),
        ),
    )
}

fn is_comment(d: &DoStatement) -> (r: bool)
    ensures
        r == (d@ is Comment),
{
    match d {
        DoStatement::Comment(_) => true,
        _ => false,
    }
}

/// Expands the entries of a `do` block; `None` where the last entry,
/// comments aside, is not an expression.
pub fn expand_do(entries: &Vec<DoStatement>) -> (r: Option<Vec<Statement>>)
    ensures
        match do_expansion(view_do_statements(entries@)) {
            Some(body) => r matches Some(b) && view_statements(b@) == body,
            None => r is None,
        },
        r matches Some(b) ==> ({
            let k = last_code_index(view_do_statements(entries@));
            let spans = bind_entry_spans(
                view_do_statements(entries@).take(k),
                crate::ast::entry_spans(entries@).take(k),
            );
            bind_spans(b@, spans.len()) == Some(spans)
        }),
{
    let ghost v = view_do_statements(entries@);
    let ghost sp = crate::ast::entry_spans(entries@);
    let mut work = clone_do_statements(entries);
    assert(v.take(v.len() as int) =~= v);
    assert(sp.take(sp.len() as int) =~= sp);
    assert(work@.len() == view_do_statements(work@).len());
    while work.len() > 0 && is_comment(&work[work.len() - 1])
        invariant
            view_do_statements(work@) == v.take(work@.len() as int),
            crate::ast::entry_spans(work@) == sp.take(work@.len() as int),
            sp.len() == v.len(),
            work@.len() <= v.len(),
            last_code_index(v) == last_code_index(v.take(work@.len() as int)),
        decreases work.len(),
    {
        let ghost n = work@.len() as int;
        assert(v.take(n).drop_last() =~= v.take(n - 1));
        work.pop();
        assert(view_do_statements(work@) =~= v.take(n - 1));
        assert(crate::ast::entry_spans(work@) =~= sp.take(n - 1));
    }
    let ghost n = work@.len() as int;
    assert(v.take(n) =~= view_do_statements(work@));
    if work.len() == 0 {
        return None;
    }
    assert(last_code_index(v) == n - 1);
    let ghost before = work@;
    assert(view_do_statements(before)[n - 1] == crate::ast::view_do_statement(before[n - 1]));
    let last = work.pop().unwrap();
    assert(last@ == v[n - 1]);
    assert(view_do_statements(work@) =~= v.take(n - 1));
    assert(crate::ast::entry_spans(work@) =~= sp.take(n - 1));
    let tail = match last {
        DoStatement::Statement(Statement::Expression(tail), _) => tail,
        _ => {
            return None;
        },
    };
    let ghost k = n - 1;
    let ghost tail_view = tail@;
    let mut body: Vec<Statement> = Vec::new();
    body.push(Statement::Expression(tail));
    assert(view_statements(body@) =~= seq![SpecStatement::Expression(tail_view)]);
    assert(v.subrange(k, k).len() == 0);
    assert(bind_entry_spans(v.subrange(k, k), sp.subrange(k, k)) =~= Seq::<SourceSpan>::empty());
    while work.len() > 0
        invariant
            0 <= k < v.len(),
            sp.len() == v.len(),
            work@.len() <= k,
            body@.len() > 0,
            view_do_statements(work@) == v.take(work@.len() as int),
            crate::ast::entry_spans(work@) == sp.take(work@.len() as int),
            view_statements(body@) == expand_entries(v.subrange(work@.len() as int, k), tail_view),
            bind_spans(
                body@,
                bind_entry_spans(v.subrange(work@.len() as int, k), sp.subrange(work@.len() as int, k)).len(),
            ) == Some(bind_entry_spans(v.subrange(work@.len() as int, k), sp.subrange(work@.len() as int, k))),
        decreases work.len(),
    {
        let ghost m = work@.len() as int;
        let ghost before = work@;
        assert(view_do_statements(before)[m - 1] == crate::ast::view_do_statement(before[m - 1]));
        assert(crate::ast::entry_spans(before)[m - 1] == crate::ast::entry_span(before[m - 1]));
        let entry = work.pop().unwrap();
        assert(entry@ == v[m - 1]);
        assert(crate::ast::entry_span(entry) == sp[m - 1]);
        assert(view_do_statements(work@) =~= v.take(m - 1));
        assert(crate::ast::entry_spans(work@) =~= sp.take(m - 1));
        let ghost sub = v.subrange(m - 1, k);
        let ghost ssub = sp.subrange(m - 1, k);
        assert(sub.drop_first() =~= v.subrange(m, k));
        assert(ssub.drop_first() =~= sp.subrange(m, k));
        assert(sub[0] == v[m - 1]);
        assert(ssub[0] == sp[m - 1]);
        let ghost old_spans = bind_entry_spans(v.subrange(m, k), sp.subrange(m, k));
        let ghost old_body = body@;
        let ghost rest = view_statements(body@);
        match entry {
            DoStatement::Bind(parameter, action, span) => {
                let call = bind_statement(action, parameter, body, span);
                body = Vec::new();
                body.push(call);
                assert(view_statements(body@) =~= seq![call@]);
            },
            DoStatement::Statement(Statement::Expression(action), span) => {
                let call = bind_statement(action, wildcard(), body, span);
                body = Vec::new();
                body.push(call);
                assert(view_statements(body@) =~= seq![call@]);
            },
            DoStatement::Statement(Statement::Assignment(assignment), _) => {
                let statement = Statement::Assignment(assignment);
                let ghost sv = statement@;
                body.insert(0, statement);
                assert(view_statements(body@) =~= seq![sv] + rest);
                assert(body@.last() == old_body.last());
            },
            _ => {},
        }
    }
    assert(v.take(k) =~= v.subrange(0, k));
    assert(sp.take(k) =~= sp.subrange(0, k));
    Some(body)
}

// ---------------------------------------------------------------------------
// Parsing a `do` block.
// ---------------------------------------------------------------------------

/// A bind introduces a plain name or `_`.
pub open spec fn bind_pattern_allowed(p: SpecPattern) -> bool {
    (p matches SpecPattern::Ident { mut_, .. } && !mut_) || p is Wildcard
}

/// What an accepted entry of a `do` block satisfies.
pub open spec fn entry_allowed(entry: SpecDoStatement) -> bool {
    &&& !entry_escapes(entry)
    &&& entry matches SpecDoStatement::Bind(p, _) ==> bind_pattern_allowed(p)
}

/// Whether an operand is what a `do` block parses to: accepted entries, and
/// the `match` that holds their expansion.
pub open spec fn is_do_block(o: SpecOperand) -> bool {
    &&& o matches SpecOperand::Match { do_syntax: Some(ds), .. }
    &&& forall|i: int| 0 <= i < ds.len() ==> entry_allowed(#[trigger] ds[i])
    &&& do_expansion(ds) matches Some(body)
    &&& o == do_operand(ds, body)
}

/// An accepted entry of a `do` block is a comment, a bind, or a statement
/// that is an assignment or an expression: never `return`, `break` or
/// `continue`, so the expansion has a rule for each entry of a block.
pub proof fn lemma_accepted_entry_shape(entry: SpecDoStatement)
    requires
        entry_allowed(entry),
    ensures
        entry is Comment || entry is Bind || (entry matches SpecDoStatement::Statement(s) && (s is Assignment
            || s is Expression)),
{
}

/// Every entry of a parsed `do` block has one of the shapes the expansion
/// handles.
pub proof fn lemma_do_block_entry_shapes(o: SpecOperand)
    requires
        is_do_block(o),
    ensures
        o matches SpecOperand::Match { do_syntax: Some(ds), .. } && forall|i: int|
            0 <= i < ds.len() ==> (#[trigger] ds[i] is Comment || ds[i] is Bind || (ds[i] matches SpecDoStatement::Statement(
                s,
            ) && (s is Assignment || s is Expression))),
{
    if let SpecOperand::Match { do_syntax: Some(ds), .. } = o {
        assert forall|i: int| 0 <= i < ds.len() implies (#[trigger] ds[i] is Comment || ds[i] is Bind || (
        ds[i] matches SpecDoStatement::Statement(s) && (s is Assignment || s is Expression))) by {
            lemma_accepted_entry_shape(ds[i]);
        }
    }
}

// ---------------------------------------------------------------------------
// Syntax trees whose `do` blocks are all accepted and expanded.
// ---------------------------------------------------------------------------

pub open spec fn valid_statement(s: SpecStatement) -> bool
    decreases s,
{
    match s {
        SpecStatement::Expression(e) => valid_expr(e),
        SpecStatement::Assignment(_, v) => valid_expr(v),
        SpecStatement::Return(e) => e matches Some(x) ==> valid_expr(x),
        SpecStatement::Break => true,
        SpecStatement::Continue => true,
    }
}

pub open spec fn valid_block(ss: Seq<SpecStatement>) -> bool
    decreases ss,
{
    forall|i: int| 0 <= i < ss.len() ==> valid_statement(#[trigger] ss[i])
}

pub open spec fn valid_expr(e: SpecExpression) -> bool
    decreases e,
{
    match e {
        SpecExpression::Unary(u) => valid_unary(u),
        SpecExpression::Binop(l, _, r) => valid_unary(l) && valid_expr(*r),
        SpecExpression::Cast(inner, _) => valid_expr(*inner),
        SpecExpression::Range { start, end, .. } => (start matches Some(x) ==> valid_expr(*x)) && (
        end matches Some(x) ==> valid_expr(*x)),
    }
}

pub open spec fn valid_exprs(es: Seq<SpecExpression>) -> bool
    decreases es,
{
    forall|i: int| 0 <= i < es.len() ==> valid_expr(#[trigger] es[i])
}

pub open spec fn valid_unary(u: SpecUnary) -> bool
    decreases u,
{
    match u {
        SpecUnary::Primary(p) => valid_operand(p.operand) && (p.secondaries matches Some(ss)
            ==> valid_secondaries(ss)),
        SpecUnary::Prefix(_, inner) => valid_unary(*inner),
    }
}

pub open spec fn valid_secondaries(ss: Seq<SpecSecondary>) -> bool
    decreases ss,
{
    forall|i: int| 0 <= i < ss.len() ==> valid_secondary(#[trigger] ss[i])
}

pub open spec fn valid_secondary(s: SpecSecondary) -> bool
    decreases s,
{
    match s {
        SpecSecondary::Arguments(args) => valid_exprs(args),
        SpecSecondary::Dot(_) => true,
        SpecSecondary::Index(e) => valid_expr(*e),
        SpecSecondary::Interogation => true,
    }
}

pub open spec fn valid_arms(arms: Seq<SpecArm>) -> bool
    decreases arms,
{
    forall|i: int|
        0 <= i < arms.len() ==> (#[trigger] arms[i].condition matches Some(c) ==> valid_expr(c))
            && valid_block(arms[i].body)
}

pub open spec fn valid_fields(fields: Seq<(Seq<char>, SpecExpression)>) -> bool
    decreases fields,
{
    forall|i: int| 0 <= i < fields.len() ==> valid_expr(#[trigger] fields[i].1)
}

pub open spec fn valid_entries(ds: Seq<SpecDoStatement>) -> bool
    decreases ds,
{
    forall|i: int|
        0 <= i < ds.len() ==> match #[trigger] ds[i] {
            SpecDoStatement::Bind(_, e) => valid_expr(e),
            SpecDoStatement::Statement(s) => valid_statement(s),
            SpecDoStatement::Comment(_) => true,
        }
}

/// Every `do` block in the operand was accepted and is expanded in place;
/// a `do` block's entries are themselves valid.
pub open spec fn valid_operand(o: SpecOperand) -> bool
    decreases o,
{
    match o {
        SpecOperand::Literal(_) => true,
        SpecOperand::Ident(_) => true,
        SpecOperand::Expression(e) => valid_expr(*e),
        SpecOperand::Tuple(es) => valid_exprs(es),
        SpecOperand::Array(es) => valid_exprs(es),
        SpecOperand::ArrayRepeat(v, n) => valid_expr(*v) && valid_expr(*n),
        SpecOperand::Lambda { body, .. } => valid_block(body),
        SpecOperand::If { cond, then_branch, else_ } => valid_expr(*cond) && valid_block(then_branch)
            && (else_ matches Some(b) ==> valid_block(b)),
        SpecOperand::Match { expr, arms, do_syntax } => match do_syntax {
            Some(ds) => is_do_block(o) && valid_entries(ds),
            None => valid_expr(*expr) && valid_arms(arms),
        },
        SpecOperand::Loop(b) => valid_block(b),
        SpecOperand::StructCtor { fields, .. } => valid_fields(fields),
    }
}

/// An entry of a `do` block whose expressions are valid.
pub open spec fn valid_entry(d: SpecDoStatement) -> bool {
    match d {
        SpecDoStatement::Bind(_, e) => valid_expr(e),
        SpecDoStatement::Statement(s) => valid_statement(s),
        SpecDoStatement::Comment(_) => true,
    }
}

fn bind_pattern_ok(p: &Pattern) -> (r: bool)
    ensures
        r == bind_pattern_allowed(p@),
{
    match &p.kind {
        PatternKind::Ident(ip) => !ip.mut_,
        PatternKind::Wildcard => true,
        PatternKind::Tuple(_) => false,
    }
}

fn check_entry(entry: &DoStatement) -> (r: Option<&'static str>)
    ensures
        r is Some <==> entry_escapes(entry@),
        message_of(r) == entry_message(entry@),
        entry@ matches SpecDoStatement::Statement(s) && s is Return ==> (r matches Some(m) && m@
            == "Use the final expression instead of return in a do block"@),
        entry@ matches SpecDoStatement::Statement(s) && (s is Break || s is Continue) ==> (r matches Some(m)
            && m@ == "Control flow cannot leave a do block"@),
{
    match entry {
        DoStatement::Bind(_, action, _) => check_expression(action, false),
        DoStatement::Statement(s, _) => check_statement(s, false),
        DoStatement::Comment(_) => None,
    }
}

/// One line of a `do` block: a comment, `pattern <- action`, or a statement.
/// Control flow that would leave the block is refused.
pub(crate) fn do_statement(tokens: &Vec<Token>, pos: usize, ctx: Ctx, fuel: u64) -> (r: Result<
    (usize, DoStatement),
    ParseError,
>)
    requires
        pos <= tokens.len(),
    ensures
        advanced(r, pos, tokens.len() as int),
        r matches Ok((_, entry)) ==> entry_allowed(entry@) && valid_entry(entry@),
        r matches Ok((_, entry)) ==> (!(entry is Comment) ==> crate::ast::entry_span(entry) == Some(
            crate::parser::span_at(tokens@, pos as int),
        )),
        forall|k: int|
            fuel > 2 && #[trigger] crate::parser::flat_tuple_at(tokens@, pos as int, k) && kind_is(
                tokens@,
                pos + 2 * k + 1,
                TokenKind::BindArrow,
            ) ==> (r matches Err(ParseError::HardError(m, s)) && s == crate::parser::span_at(tokens@, pos as int)
                && m@ == "A do bind requires an identifier or '_'"@),
        fuel > 6 && assignment_head_at(tokens@, pos as int) && crate::parser::propagated_call_in(
            tokens@,
            pos + 2,
            ctx.indent as int,
        ) ==> (r matches Err(ParseError::HardError(m, s)) && s == crate::parser::span_at(tokens@, pos as int)
            && m@ == question_message()),
        fuel > 14 && assignment_head_at(tokens@, pos as int) && crate::parser::lambda_return_in(
            tokens@,
            pos + 2,
            ctx.indent as int,
        ) ==> (r matches Ok((p, entry)) && p == pos + 5 && entry@ == SpecDoStatement::Statement(
            SpecStatement::Assignment(
                simple_pattern(tokens@[pos as int]),
                spec_expr(crate::parser::lambda_return_operand(tokens@, pos + 2)),
            ),
        )),
        fuel > 8 && assignment_head_at(tokens@, pos as int) && crate::parser::loop_break_in(
            tokens@,
            pos + 2,
            ctx.indent as int,
        ) ==> (r matches Ok((p, entry)) && p == pos + 5 && entry@ == SpecDoStatement::Statement(
            SpecStatement::Assignment(simple_pattern(tokens@[pos as int]), spec_expr(crate::parser::loop_break_operand())),
        )),
        fuel > 15 && crate::parser::if_return_in(tokens@, pos as int, ctx.indent as int) ==> (r matches Err(
            ParseError::HardError(m, s),
        ) && s == crate::parser::span_at(tokens@, pos as int) && m@ == return_message()),
        fuel > 0 && kind_is(tokens@, pos as int, TokenKind::Comment) ==> (r matches Ok((p, entry)) && p
            == pos + 1 && entry@ == SpecDoStatement::Comment(tokens@[pos as int].text@)),
        fuel > 6 + expr_fuel(tokens@, pos as int) && closed_expr_in(tokens@, pos as int, ctx.indent as int) ==> (r matches Ok((p, entry)) && p
            == pos + expr_len(tokens@, pos as int) && entry@ == SpecDoStatement::Statement(
            SpecStatement::Expression(simple_expression(tokens@, pos as int)),
        )),
        fuel > 5 + expr_fuel(tokens@, pos + 2) && bind_head_at(tokens@, pos as int) && closed_expr_in(tokens@, pos + 2, ctx.indent as int)
            ==> (r matches Ok((p, entry)) && p == pos + 2 + expr_len(tokens@, pos + 2) && entry@
            == SpecDoStatement::Bind(simple_pattern(tokens@[pos as int]), simple_expression(tokens@, pos + 2))),
        fuel > 6 + expr_fuel(tokens@, pos + 2) && assignment_head_at(tokens@, pos as int) && closed_expr_in(
            tokens@,
            pos + 2,
            ctx.indent as int,
        ) ==> (r matches Ok((p, entry)) && p == pos + 2 + expr_len(tokens@, pos + 2) && entry@
            == SpecDoStatement::Statement(
            SpecStatement::Assignment(simple_pattern(tokens@[pos as int]), simple_expression(tokens@, pos + 2)),
        )),
        fuel > 1 && kind_is(tokens@, pos as int, TokenKind::Keyword(Keyword::Mut)) && kind_is(
            tokens@,
            pos + 1,
            TokenKind::Ident,
        ) && kind_is(tokens@, pos + 2, TokenKind::BindArrow) ==> (r matches Err(ParseError::HardError(m, s))
            && s == crate::parser::span_at(tokens@, pos as int) && m@ == "A do bind requires an identifier or '_'"@),
        fuel > 1 && kind_is(tokens@, pos as int, TokenKind::Keyword(Keyword::Return)) && !(pos + 1
            < tokens.len() && crate::parser::begins_expression(tokens@[pos + 1].kind)) ==> (r matches Err(
            ParseError::HardError(m, s),
        ) && s == crate::parser::span_at(tokens@, pos as int) && m@ == "Use the final expression instead of return in a do block"@),
        fuel > 6 + expr_fuel(tokens@, pos + 1) && kind_is(tokens@, pos as int, TokenKind::Keyword(Keyword::Return))
            && closed_expr_in(tokens@, pos + 1, ctx.indent as int) ==> (r matches Err(ParseError::HardError(m, s))
            && s == crate::parser::span_at(tokens@, pos as int) && m@
            == "Use the final expression instead of return in a do block"@),
        fuel > 1 && (kind_is(tokens@, pos as int, TokenKind::Keyword(Keyword::Break)) || kind_is(
            tokens@,
            pos as int,
            TokenKind::Keyword(Keyword::Continue),
        )) ==> (r matches Err(ParseError::HardError(m, s)) && s == crate::parser::span_at(tokens@, pos as int) && m@ == "Control flow cannot leave a do block"@),
    decreases fuel,
{
    if fuel == 0 {
        return too_deep(tokens, pos);
    }
    if pos < tokens.len() && tokens[pos].kind == TokenKind::Comment {
        return Ok((pos + 1, DoStatement::Comment(tokens[pos].text.clone())));
    }
    let ctx = Ctx { indent: ctx.indent, inside_args: false };
    let mut bind: Option<(usize, Pattern)> = None;
    if let Ok((q, parameter)) = parse_pattern(tokens, pos, fuel - 1) {
        if is_kind(tokens, q, TokenKind::BindArrow) {
            bind = Some((q, parameter));
        }
    }
    let ghost binds_value = fuel > 5 + expr_fuel(tokens@, pos + 2) && bind_head_at(tokens@, pos as int) && closed_expr_in(
        tokens@,
        pos + 2,
        ctx.indent as int,
    );
    assert(binds_value ==> (bind matches Some((q, pat)) && q == pos + 1 && pat@ == simple_pattern(
        tokens@[pos as int],
    )));
    let (rest, entry) = match bind {
        Some((q, parameter)) => {
            if !bind_pattern_ok(&parameter) {
                return hard(tokens, pos, "A do bind requires an identifier or '_'");
            }
            let (rest, action) = parse_expression(tokens, q + 1, ctx, fuel - 1)?;
            proof {
                if binds_value {
                    let e = simple_expression(tokens@, pos + 2);
                    assert(rest == pos + 2 + expr_len(tokens@, pos + 2) && action@ == e);
                    lemma_expr_stays(tokens@, pos + 2);
                }
            }
            (rest, DoStatement::Bind(parameter, action, span_of(tokens, pos)))
        },
        None => {
            let (rest, value) = parse_statement(tokens, pos, ctx, fuel - 1)?;
            proof {
                if fuel > 6 && assignment_head_at(tokens@, pos as int) && crate::parser::propagated_call_in(
                    tokens@,
                    pos + 2,
                    ctx.indent as int,
                ) {
                    let e = crate::parser::propagated_call_expression(tokens@, pos + 2);
                    let ss = seq![SpecSecondary::Arguments(seq![]), SpecSecondary::Interogation];
                    assert(ss.len() == 2 && ss[ss.len() - 1] == SpecSecondary::Interogation);
                    assert(secondary_message(SpecSecondary::Interogation, false) == Some(question_message()));
                    assert(secondaries_message(ss, false) == Some(question_message()));
                    assert(unary_message(SpecUnary::Primary(crate::parser::propagated_call_primary(tokens@, pos + 2)), false)
                        == Some(question_message()));
                    assert(expression_message(e, false) == Some(question_message()));
                }
                if fuel > 14 && assignment_head_at(tokens@, pos as int) && crate::parser::lambda_return_in(
                    tokens@,
                    pos + 2,
                    ctx.indent as int,
                ) {
                    let o = crate::parser::lambda_return_operand(tokens@, pos + 2);
                    let e = spec_expr(o);
                    assert(operand_message(o, false) is None);
                    assert(!operand_escapes(o, false));
                    let u = SpecUnary::Primary(SpecPrimary { operand: o, secondaries: None });
                    assert(unary_message(u, false) is None);
                    assert(!unary_escapes(u, false));
                    assert(expression_message(e, false) is None);
                    assert(!expression_escapes(e, false));
                }
                if fuel > 8 && assignment_head_at(tokens@, pos as int) && crate::parser::loop_break_in(
                    tokens@,
                    pos + 2,
                    ctx.indent as int,
                ) {
                    let body = seq![SpecStatement::Break];
                    assert(body.len() == 1);
                    assert(statement_message(body[0], true) is None);
                    assert(block_message(body, true) == later_message(
                        block_message(body.subrange(0, 0), true),
                        statement_message(body[0], true),
                    ));
                    assert(block_message(body, true) is None);
                    assert(!statement_escapes(body[0], true));
                    assert(!block_escapes(body, true));
                    let o = crate::parser::loop_break_operand();
                    assert(operand_message(o, false) is None);
                    assert(!operand_escapes(o, false));
                    let u = SpecUnary::Primary(SpecPrimary { operand: o, secondaries: None });
                    assert(unary_message(u, false) is None);
                    assert(!unary_escapes(u, false));
                    assert(expression_message(spec_expr(o), false) is None);
                    assert(!expression_escapes(spec_expr(o), false));
                }
                if fuel > 15 && crate::parser::if_return_in(tokens@, pos as int, ctx.indent as int) {
                    let body = seq![SpecStatement::Return(Some(simple_expression(tokens@, pos + 4)))];
                    assert(body.len() == 1);
                    assert(statement_message(body[0], false) == Some(return_message()));
                    assert(block_message(body, false) == later_message(
                        block_message(body.subrange(0, 0), false),
                        statement_message(body[0], false),
                    ));
                    assert(block_message(body, false) == Some(return_message()));
                    let o = crate::parser::if_return_operand(tokens@, pos as int);
                    assert(operand_message(o, false) == Some(return_message()));
                    assert(unary_message(SpecUnary::Primary(SpecPrimary { operand: o, secondaries: None }), false)
                        == Some(return_message()));
                    assert(expression_message(crate::parser::if_return_expression(tokens@, pos as int), false)
                        == Some(return_message()));
                }
                if fuel > 6 + expr_fuel(tokens@, pos as int) && closed_expr_in(tokens@, pos as int, ctx.indent as int) {
                    lemma_expr_stays(tokens@, pos as int);
                }
                if fuel > 6 + expr_fuel(tokens@, pos + 2) && assignment_head_at(tokens@, pos as int)
                    && closed_expr_in(tokens@, pos + 2, ctx.indent as int) {
                    lemma_expr_stays(tokens@, pos + 2);
                }
            }
            (rest, DoStatement::Statement(value, span_of(tokens, pos)))
        },
    };
    match check_entry(&entry) {
        Some(message) => hard(tokens, pos, message),
        None => Ok((rest, entry)),
    }
}

/// Whether the tokens at `p` begin a bind of a name or of `_`: the name or
/// `_`, then `<-`.
pub open spec fn bind_head_at(tokens: Seq<Token>, p: int) -> bool {
    &&& (kind_is(tokens, p, TokenKind::Ident) || kind_is(tokens, p, TokenKind::Underscore))
    &&& kind_is(tokens, p + 1, TokenKind::BindArrow)
}

/// A simple value holds no control flow that would leave a `do` block.
proof fn lemma_value_stays(tokens: Seq<Token>, p: int)
    requires
        0 <= p < tokens.len(),
    ensures
        !expression_escapes(value_expression(tokens, p), false),
{
    let pr = value_primary(tokens, p);
    assert(!operand_escapes(atom_operand(tokens[p]), false));
    if kind_is(tokens, p + 1, TokenKind::Bang) {
        let args: Seq<SpecExpression> = seq![];
        assert(!expressions_escape(args, false));
        assert(!secondary_escapes(SpecSecondary::Arguments(args), false));
        assert(!secondaries_escape(seq![SpecSecondary::Arguments(args)], false));
    } else if crate::parser::call_with_atom_at(tokens, p) {
        let arg = spec_expr(atom_operand(tokens[p + 1]));
        assert(!operand_escapes(atom_operand(tokens[p + 1]), false));
        assert(!unary_escapes(SpecUnary::Primary(SpecPrimary { operand: atom_operand(tokens[p + 1]), secondaries: None }), false));
        assert(!expression_escapes(arg, false));
        let args: Seq<SpecExpression> = seq![arg];
        assert(!expressions_escape(args, false));
        assert(!secondary_escapes(SpecSecondary::Arguments(args), false));
        assert(!secondaries_escape(seq![SpecSecondary::Arguments(args)], false));
    }
    assert(!unary_escapes(SpecUnary::Primary(pr), false));
}

/// A simple expression holds no control flow that would leave a `do` block.
proof fn lemma_expr_stays(tokens: Seq<Token>, p: int)
    requires
        0 <= p < tokens.len(),
        crate::parser::binop_shape_at(tokens, p) ==> crate::parser::right_operand_at(tokens, p) < tokens.len(),
    ensures
        !expression_escapes(simple_expression(tokens, p), false),
{
    if crate::parser::binop_shape_at(tokens, p) {
        let q = crate::parser::right_operand_at(tokens, p);
        lemma_value_stays(tokens, p);
        lemma_value_stays(tokens, q);
        assert(!unary_escapes(SpecUnary::Primary(value_primary(tokens, p)), false));
    } else {
        lemma_value_stays(tokens, p);
    }
}

/// Whether the tokens at `p` are `name <- value` or `_ <- value`.
pub open spec fn simple_bind_at(tokens: Seq<Token>, p: int) -> bool {
    bind_head_at(tokens, p) && crate::parser::atom_at(tokens, p + 2)
}

/// Whether the tokens at `p` are `name = value` or `_ = value`.
pub open spec fn simple_assignment_at(tokens: Seq<Token>, p: int) -> bool {
    assignment_head_at(tokens, p) && crate::parser::atom_at(tokens, p + 2)
}

/// The number of tokens of a simple entry at `p`: a bind of a simple
/// expression to a name or `_` (`x <- e`), an assignment of one (`x = e`),
/// or a simple expression alone; a simple expression being a simple value or
/// two joined by an infix operator (`v + w`), and a simple value a number or
/// a name, possibly called without arguments (`f!`) or with one number or
/// name (`f x`); zero where there is none.
pub open spec fn simple_entry_len(tokens: Seq<Token>, p: int) -> int {
    if simple_bind_at(tokens, p) || simple_assignment_at(tokens, p) {
        2 + expr_len(tokens, p + 2)
    } else if crate::parser::atom_at(tokens, p) {
        expr_len(tokens, p)
    } else {
        0
    }
}

/// The entry that a simple entry at `p` stands for.
pub open spec fn simple_entry(tokens: Seq<Token>, p: int) -> SpecDoStatement {
    if simple_bind_at(tokens, p) {
        SpecDoStatement::Bind(simple_pattern(tokens[p]), simple_expression(tokens, p + 2))
    } else if simple_assignment_at(tokens, p) {
        SpecDoStatement::Statement(
            SpecStatement::Assignment(simple_pattern(tokens[p]), simple_expression(tokens, p + 2)),
        )
    } else {
        SpecDoStatement::Statement(SpecStatement::Expression(simple_expression(tokens, p)))
    }
}

/// The end of line after the simple entry at `p`.
pub open spec fn simple_line_end(tokens: Seq<Token>, p: int) -> int {
    p + simple_entry_len(tokens, p)
}

/// A line of a `do` block indented `d` that holds one simple entry.
pub open spec fn simple_line_at(tokens: Seq<Token>, p: int, d: usize) -> bool {
    &&& simple_entry_len(tokens, p) > 0
    &&& tokens[p].first_on_line
    &&& tokens[p].indent == d
    &&& kind_is(tokens, simple_line_end(tokens, p), TokenKind::Eol)
}

/// Whether the `do` at `pos` opens a block, indented deeper than `indent`,
/// whose lines start at `starts`, one simple entry each; after the last line
/// the tokens end or a line less indented follows.
#[verifier::opaque]
pub open spec fn simple_do_lines(tokens: Seq<Token>, pos: int, indent: usize, starts: Seq<int>) -> bool {
    let d = tokens[pos + 2].indent;
    &&& is_kind_spec(tokens, pos, TokenKind::Keyword(Keyword::Do))
    &&& indented_after(tokens, pos, indent)
    &&& starts.len() > 0
    &&& starts[0] == pos + 2
    &&& forall|i: int| 0 <= i < starts.len() ==> simple_line_at(tokens, #[trigger] starts[i], d)
    &&& forall|i: int|
        0 < i < starts.len() ==> #[trigger] starts[i] == simple_line_end(tokens, starts[i - 1]) + 1
    &&& {
        let e = simple_line_end(tokens, starts.last());
        ||| e + 1 == tokens.len()
        ||| e + 1 < tokens.len() && tokens[e + 1].first_on_line && !crate::parser::blank_kind(
            tokens[e + 1].kind,
        ) && tokens[e + 1].indent < d
    }
}

/// A simple `do` block has a first line, right after the `do` and its end
/// of line.
proof fn lemma_simple_do_start(tokens: Seq<Token>, pos: int, indent: usize, starts: Seq<int>)
    requires
        simple_do_lines(tokens, pos, indent, starts),
    ensures
        starts.len() > 0,
        starts[0] == pos + 2,
        is_kind_spec(tokens, pos, TokenKind::Keyword(Keyword::Do)),
        indented_after(tokens, pos, indent),
{
    reveal(simple_do_lines);
}

/// The line at `k` of a simple `do` block: its entry parses as a `do`
/// statement, and whether another line follows it.
proof fn lemma_simple_line(tokens: Seq<Token>, pos: int, indent: usize, starts: Seq<int>, k: int)
    requires
        simple_do_lines(tokens, pos, indent, starts),
        0 <= k < starts.len(),
    ensures
        is_kind_spec(tokens, pos, TokenKind::Keyword(Keyword::Do)),
        indented_after(tokens, pos, indent),
        starts[0] == pos + 2,
        simple_line_at(tokens, starts[k], tokens[pos + 2].indent),
        !simple_bind_at(tokens, starts[k]) && !simple_assignment_at(tokens, starts[k]) ==> closed_expr_in(
            tokens,
            starts[k],
            tokens[pos + 2].indent as int,
        ),
        simple_bind_at(tokens, starts[k]) || simple_assignment_at(tokens, starts[k]) ==> closed_expr_in(
            tokens,
            starts[k] + 2,
            tokens[pos + 2].indent as int,
        ),
        k + 1 < starts.len() ==> ({
            let e = simple_line_end(tokens, starts[k]);
            &&& starts[k + 1] == e + 1
            &&& e + 1 < tokens.len()
            &&& tokens[e + 1].first_on_line
            &&& tokens[e + 1].indent == tokens[pos + 2].indent
        }),
        k + 1 == starts.len() ==> ({
            let e = simple_line_end(tokens, starts[k]);
            !(e + 1 < tokens.len() && tokens[e + 1].first_on_line && tokens[e + 1].indent
                == tokens[pos + 2].indent)
        }),
{
    reveal(simple_do_lines);
    let d = tokens[pos + 2].indent;
    let s = starts[k];
    assert(simple_line_at(tokens, s, d));
    let e = simple_line_end(tokens, s);
    if k + 1 < starts.len() {
        assert(starts[k + 1] == simple_line_end(tokens, starts[k]) + 1);
        assert(simple_line_at(tokens, starts[k + 1], d));
    } else {
        assert(starts.last() == s);
    }
}

/// The entries of the simple lines at `starts`.
pub open spec fn simple_entries(tokens: Seq<Token>, starts: Seq<int>) -> Seq<SpecDoStatement> {
    starts.map_values(|p: int| simple_entry(tokens, p))
}

/// The lines of the simple `do` block at `pos`, where it is one.
pub open spec fn do_lines_of(tokens: Seq<Token>, pos: int, indent: usize) -> Seq<int> {
    choose|starts: Seq<int>| simple_do_lines(tokens, pos, indent, starts)
}

/// What a simple `do` block at `pos` gives: where its last entry is an
/// expression, the `match` that holds the expansion of its entries and
/// remembers them, ending at its last end of line; otherwise the refusal of
/// a block that does not end with an expression.
pub open spec fn simple_do_result(
    tokens: Seq<Token>,
    pos: int,
    indent: usize,
    r: Result<(usize, Operand), ParseError>,
) -> bool {
    let starts = do_lines_of(tokens, pos, indent);
    let entries = simple_entries(tokens, starts);
    if !(entries.last() matches SpecDoStatement::Statement(SpecStatement::Expression(_))) {
        r matches Err(ParseError::HardError(m, s)) && s == crate::parser::span_at(tokens, pos) && m@ == "A do block must end with an expression"@
    } else {
        r matches Ok((p, o)) && p == simple_line_end(tokens, starts.last()) && match do_expansion(
            entries,
        ) {
            Some(body) => o@ == do_operand(entries, body),
            None => false,
        }
    }
}

/// The place that the `true` a `do` block matches on carries.
pub open spec fn scrutinee_span(o: Operand) -> Option<SourceSpan> {
    match o {
        Operand::Match(m) => match *m.expr {
            Expression::UnaryExpr(UnaryExpr::PrimaryExpr(p)) => match p.operand {
                Operand::Literal(l) => Some(l.span),
                _ => None,
            },
            _ => None,
        },
        _ => None,
    }
}

/// The places of the entries that a parsed `do` block records.
pub open spec fn recorded_spans(o: Operand) -> Option<Seq<Option<SourceSpan>>> {
    match o {
        Operand::Match(m) => match m.do_syntax {
            Some(ds) => Some(crate::ast::entry_spans(ds@)),
            None => None,
        },
        _ => None,
    }
}

/// Each recorded entry of a block of simple lines carries the place of the
/// first token of its line.
pub open spec fn simple_do_spans(tokens: Seq<Token>, pos: int, indent: usize, r: Result<(usize, Operand), ParseError>) -> bool {
    let starts = do_lines_of(tokens, pos, indent);
    r matches Ok((_, o)) ==> recorded_spans(o) == Some(
        Seq::new(starts.len(), |i: int| Some(crate::parser::span_at(tokens, starts[i]))),
    )
}

/// A `do` block: `do` at the end of a line, then entries on the following
/// lines, indented deeper than the enclosing block. The last entry, comments
/// aside, must be an expression.
#[verifier::rlimit(80)]
pub(crate) fn do_expression_at(tokens: &Vec<Token>, pos: usize, ctx: Ctx, fuel: u64) -> (r: Result<
    (usize, Operand),
    ParseError,
>)
    requires
        pos <= tokens.len(),
    ensures
        advanced(r, pos, tokens.len() as int),
        r matches Ok((_, o)) ==> is_do_block(o@) && valid_operand(o@),
        !is_kind_spec(tokens@, pos as int, TokenKind::Keyword(Keyword::Do)) ==> r is Err,
        fuel > 0 && is_kind_spec(tokens@, pos as int, TokenKind::Keyword(Keyword::Do))
            && !indented_after(tokens@, pos as int, ctx.indent) ==> (r matches Err(
            ParseError::HardError(m, s),
        ) && s == crate::parser::span_at(tokens@, pos as int) && m@ == "Expected an indented do block"@),
        fuel > 20 && (exists|starts: Seq<int>| simple_do_lines(tokens@, pos as int, ctx.indent, starts))
            ==> simple_do_result(tokens@, pos as int, ctx.indent, r),
        fuel > 20 && (exists|starts: Seq<int>| simple_do_lines(tokens@, pos as int, ctx.indent, starts))
            ==> simple_do_spans(tokens@, pos as int, ctx.indent, r),
        r matches Ok((_, o)) ==> scrutinee_span(o) == Some(crate::parser::span_at(tokens@, pos as int)),
    decreases fuel,
{
    proof {
        if exists|starts: Seq<int>| simple_do_lines(tokens@, pos as int, ctx.indent, starts) {
            lemma_simple_do_start(tokens@, pos as int, ctx.indent, do_lines_of(tokens@, pos as int, ctx.indent));
        }
    }
    if fuel == 0 {
        return too_deep(tokens, pos);
    }
    if !is_kind(tokens, pos, TokenKind::Keyword(Keyword::Do)) {
        return Err(ParseError::Fail);
    }
    let n = tokens.len();
    if !(pos < n && pos + 1 < n && pos + 2 < n && tokens[pos + 1].kind == TokenKind::Eol
        && tokens[pos + 2].first_on_line && tokens[pos + 2].indent > ctx.indent) {
        return hard(tokens, pos, "Expected an indented do block");
    }
    let q = pos + 2;
    let indent = tokens[q].indent;
    let entry_ctx = Ctx { indent, inside_args: false };
    let mut entries: Vec<DoStatement> = Vec::new();
    let mut p = q;
    let ghost simple = fuel > 20 && exists|starts: Seq<int>| simple_do_lines(tokens@, pos as int, ctx.indent, starts);
    let ghost st = do_lines_of(tokens@, pos as int, ctx.indent);
    proof {
        if simple {
            lemma_simple_line(tokens@, pos as int, ctx.indent, st, 0);
        }
    }
    loop
        invariant_except_break
            simple ==> entries@.len() < st.len() && p == st[entries@.len() as int],
        invariant
            simple ==> simple_do_lines(tokens@, pos as int, ctx.indent, st) && indent == tokens@[pos + 2].indent,
            simple == (fuel > 20 && exists|starts: Seq<int>| simple_do_lines(tokens@, pos as int, ctx.indent, starts)),
            st == do_lines_of(tokens@, pos as int, ctx.indent),
            entry_ctx.indent == indent,
            simple ==> entries@.len() <= st.len() && view_do_statements(entries@) == simple_entries(
                tokens@,
                st.take(entries@.len() as int),
            ),
            simple ==> forall|i: int|
                0 <= i < entries@.len() ==> crate::ast::entry_span(#[trigger] entries@[i]) == Some(
                    crate::parser::span_at(tokens@, st[i]),
                ),
            pos < q <= p <= tokens.len(),
            q == pos + 2,
            n == tokens.len(),
            fuel > 0,
            indented_after(tokens@, pos as int, ctx.indent),
            forall|i: int|
                0 <= i < entries@.len() ==> entry_allowed(#[trigger] entries@[i]@) && valid_entry(
                    entries@[i]@,
                ),
        ensures
            simple ==> entries@.len() == st.len() && p == simple_line_end(tokens@, st.last()),
        decreases tokens.len() - p,
    {
        let ghost k = entries@.len() as int;
        proof {
            if simple {
                lemma_simple_line(tokens@, pos as int, ctx.indent, st, k);
            }
        }
        let (r, entry) = match do_statement(tokens, p, entry_ctx, fuel - 1) {
            Ok(x) => x,
            Err(ParseError::Fail) => {
                return hard(tokens, pos, "Expected an indented do block");
            },
            Err(e) => {
                return Err(e);
            },
        };
        let ghost before = entries@;
        entries.push(entry);
        proof {
            if simple {
                assert(r == simple_line_end(tokens@, st[k]));
                assert(st.take(k + 1) =~= st.take(k).push(st[k]));
                assert(view_do_statements(entries@) =~= view_do_statements(before).push(entry@));
                assert(simple_entries(tokens@, st.take(k + 1)) =~= simple_entries(tokens@, st.take(k)).push(
                    simple_entry(tokens@, st[k]),
                ));
                assert(view_do_statements(entries@)[k] == entry@);
                assert(!(entry is Comment));
                assert(entries@[k] == entry);
            }
        }
        p = r;
        if p < n && tokens[p].kind == TokenKind::Eol && p + 1 < n && tokens[p + 1].first_on_line
            && tokens[p + 1].indent == indent {
            p = p + 1;
        } else {
            proof {
                if simple {
                    assert(st.last() == st[k]);
                }
            }
            break ;
        }
    }
    proof {
        if simple {
            assert(st.take(st.len() as int) =~= st);
        }
    }
    let body = match expand_do(&entries) {
        Some(b) => b,
        None => {
            return hard(tokens, pos, "A do block must end with an expression");
        },
    };
    let ghost body_view = view_statements(body@);
    let mut arms: Vec<MatchArm> = Vec::new();
    arms.push(MatchArm { pattern: wildcard(), condition: None, body: Block { statements: body } });
    assert(crate::ast::view_arms(arms@) =~= seq![
        SpecArm { pattern: SpecPattern::Wildcard, condition: None, body: body_view },
    ]);
    let scrutinee = expr(Operand::Literal(Literal { kind: LiteralKind::Bool(true), span: span_of(tokens, pos) }));
    let ghost ds = view_do_statements(entries@);
    assert forall|i: int| 0 <= i < ds.len() implies entry_allowed(#[trigger] ds[i]) && valid_entry(
        ds[i],
    ) by {
        assert(ds[i] == entries@[i]@);
    }
    let o = Operand::Match(
        Box::new(Match { expr: Box::new(scrutinee), arms, do_syntax: Some(entries) }),
    );
    assert(is_do_block(o@));
    assert(valid_entries(ds));
    proof {
        if simple {
            assert(crate::ast::entry_spans(entries@) =~= Seq::new(
                st.len(),
                |i: int| Some(crate::parser::span_at(tokens@, st[i])),
            ));
        }
    }
    Ok((p, o))
}

/// Whether the token at `pos` has the given kind.
pub open spec fn is_kind_spec(tokens: Seq<Token>, pos: int, kind: TokenKind) -> bool {
    0 <= pos < tokens.len() && tokens[pos].kind == kind
}

/// Whether `pos` is followed by the end of its line and a line indented
/// deeper than `indent`.
pub open spec fn indented_after(tokens: Seq<Token>, pos: int, indent: usize) -> bool {
    &&& is_kind_spec(tokens, pos + 1, TokenKind::Eol)
    &&& pos + 2 < tokens.len()
    &&& tokens[pos + 2].first_on_line
    &&& tokens[pos + 2].indent > indent
}

/// Parses a `do` block at `pos`.
pub fn do_expression(tokens: &Vec<Token>, pos: usize, ctx: Ctx) -> (r: Result<
    (usize, Operand),
    ParseError,
>)
    requires
        pos <= tokens.len(),
    ensures
        advanced(r, pos, tokens.len() as int),
        r matches Ok((_, o)) ==> is_do_block(o@) && valid_operand(o@),
        !is_kind_spec(tokens@, pos as int, TokenKind::Keyword(Keyword::Do)) ==> r is Err,
        is_kind_spec(tokens@, pos as int, TokenKind::Keyword(Keyword::Do)) && !indented_after(
            tokens@,
            pos as int,
            ctx.indent,
        ) ==> (r matches Err(ParseError::HardError(m, s)) && s == crate::parser::span_at(tokens@, pos as int) && m@ == "Expected an indented do block"@),
        (exists|starts: Seq<int>| simple_do_lines(tokens@, pos as int, ctx.indent, starts))
            ==> simple_do_result(tokens@, pos as int, ctx.indent, r),
        (exists|starts: Seq<int>| simple_do_lines(tokens@, pos as int, ctx.indent, starts))
            ==> simple_do_spans(tokens@, pos as int, ctx.indent, r),
        r matches Ok((_, o)) ==> scrutinee_span(o) == Some(crate::parser::span_at(tokens@, pos as int)),
{
    do_expression_at(tokens, pos, ctx, PARSE_FUEL)
}

// ---------------------------------------------------------------------------
// Laws of the expansion.
// ---------------------------------------------------------------------------

/// The statements that the assignments among `entries` stand for, in order;
/// other entries contribute nothing.
pub open spec fn assignments_of(entries: Seq<SpecDoStatement>) -> Seq<SpecStatement>
    decreases entries.len(),
{
    if entries.len() == 0 {
        Seq::empty()
    } else {
        let rest = assignments_of(entries.drop_first());
        match entries[0] {
            SpecDoStatement::Statement(SpecStatement::Assignment(p, v)) => seq![
                SpecStatement::Assignment(p, v),
            ] + rest,
            _ => rest,
        }
    }
}

/// A `do` block without binds keeps its own scope and sequencing: its
/// assignments stay in order, followed by the final expression, and no
/// `bind` call is introduced.
pub proof fn lemma_expansion_without_binds(entries: Seq<SpecDoStatement>, tail: SpecExpression)
    requires
        forall|i: int|
            0 <= i < entries.len() ==> (#[trigger] entries[i] is Comment || entries[i] matches SpecDoStatement::Statement(
                SpecStatement::Assignment(_, _),
            )),
    ensures
        expand_entries(entries, tail) == assignments_of(entries) + seq![
            SpecStatement::Expression(tail),
        ],
    decreases entries.len(),
{
    if entries.len() > 0 {
        assert forall|i: int| 0 <= i < entries.drop_first().len() implies (
        #[trigger] entries.drop_first()[i] is Comment || entries.drop_first()[i] matches SpecDoStatement::Statement(
            SpecStatement::Assignment(_, _),
        )) by {
            assert(entries.drop_first()[i] == entries[i + 1]);
        }
        lemma_expansion_without_binds(entries.drop_first(), tail);
        assert(entries[0] is Comment || entries[0] matches SpecDoStatement::Statement(
            SpecStatement::Assignment(_, _),
        ));
        match entries[0] {
            SpecDoStatement::Statement(SpecStatement::Assignment(p, v)) => {
                assert(seq![SpecStatement::Assignment(p, v)] + (assignments_of(entries.drop_first())
                    + seq![SpecStatement::Expression(tail)]) =~= (seq![
                    SpecStatement::Assignment(p, v),
                ] + assignments_of(entries.drop_first())) + seq![SpecStatement::Expression(tail)]);
            },
            _ => {},
        }
    } else {
        assert(Seq::<SpecStatement>::empty() + seq![SpecStatement::Expression(tail)] =~= seq![
            SpecStatement::Expression(tail),
        ]);
    }
}

/// A bind wraps everything after it: the remainder of the block becomes the
/// body of the callback handed to `bind`, so its names are visible there and
/// nowhere else.
pub proof fn lemma_bind_wraps_remainder(
    parameter: SpecPattern,
    action: SpecExpression,
    rest: Seq<SpecDoStatement>,
    tail: SpecExpression,
)
    ensures
        expand_entries(seq![SpecDoStatement::Bind(parameter, action)] + rest, tail) == seq![
            bind_call(action, parameter, expand_entries(rest, tail)),
        ],
{
    let entries = seq![SpecDoStatement::Bind(parameter, action)] + rest;
    assert(entries.drop_first() =~= rest);
    assert(entries[0] == SpecDoStatement::Bind(parameter, action));
}

/// Expanding a `do` block keeps the tree valid: when its entries and final
/// expression hold only accepted, expanded `do` blocks, so does every
/// statement of the expansion, generated calls and callbacks included.
pub proof fn lemma_expansion_stays_valid(entries: Seq<SpecDoStatement>, tail: SpecExpression)
    requires
        valid_entries(entries),
        valid_expr(tail),
    ensures
        valid_block(expand_entries(entries, tail)),
    decreases entries.len(),
{
    if entries.len() == 0 {
        assert(valid_statement(SpecStatement::Expression(tail)));
        assert(valid_block(seq![SpecStatement::Expression(tail)]));
    } else {
        let rest_entries = entries.drop_first();
        assert forall|i: int| 0 <= i < rest_entries.len() implies match #[trigger] rest_entries[i] {
            SpecDoStatement::Bind(_, e) => valid_expr(e),
            SpecDoStatement::Statement(st) => valid_statement(st),
            SpecDoStatement::Comment(_) => true,
        } by {
            assert(rest_entries[i] == entries[i + 1]);
        }
        lemma_expansion_stays_valid(rest_entries, tail);
        let rest = expand_entries(rest_entries, tail);
        let first = entries[0];
        assert(match first {
            SpecDoStatement::Bind(_, e) => valid_expr(e),
            SpecDoStatement::Statement(st) => valid_statement(st),
            SpecDoStatement::Comment(_) => true,
        });
        match first {
            SpecDoStatement::Bind(parameter, action) => {
                lemma_bind_call_valid(action, parameter, rest);
                assert(valid_block(seq![bind_call(action, parameter, rest)]));
            },
            SpecDoStatement::Statement(SpecStatement::Expression(action)) => {
                lemma_bind_call_valid(action, SpecPattern::Wildcard, rest);
                assert(valid_block(seq![bind_call(action, SpecPattern::Wildcard, rest)]));
            },
            SpecDoStatement::Statement(SpecStatement::Assignment(pattern, value)) => {
                let out = seq![SpecStatement::Assignment(pattern, value)] + rest;
                assert forall|i: int| 0 <= i < out.len() implies valid_statement(#[trigger] out[i]) by {
                    if i > 0 {
                        assert(out[i] == rest[i - 1]);
                    }
                }
            },
            _ => {},
        }
    }
}

/// A generated `bind` call is valid when its action and its callback's body are.
proof fn lemma_bind_call_valid(action: SpecExpression, parameter: SpecPattern, body: Seq<SpecStatement>)
    requires
        valid_expr(action),
        valid_block(body),
    ensures
        valid_statement(bind_call(action, parameter, body)),
{
    let lambda = SpecOperand::Lambda {
        parameters: seq![parameter],
        body,
        arrow_kind: LambdaArrowKind::Normal,
    };
    assert(valid_operand(lambda));
    let callback = spec_expr(lambda);
    assert(valid_unary(SpecUnary::Primary(SpecPrimary { operand: lambda, secondaries: None })));
    assert(valid_expr(callback));
    let grouped = spec_expr(SpecOperand::Expression(Box::new(callback)));
    assert(valid_operand(SpecOperand::Expression(Box::new(callback))));
    assert(valid_unary(
        SpecUnary::Primary(
            SpecPrimary { operand: SpecOperand::Expression(Box::new(callback)), secondaries: None },
        ),
    ));
    assert(valid_expr(grouped));
    let args = seq![action, grouped];
    assert(valid_exprs(args));
    assert(valid_secondary(SpecSecondary::Arguments(args)));
    assert(valid_secondaries(seq![SpecSecondary::Arguments(args)]));
    let primary = SpecPrimary {
        operand: SpecOperand::Ident(seq![SpecSegment::Ident("bind"@)]),
        secondaries: Some(seq![SpecSecondary::Arguments(args)]),
    };
    assert(valid_operand(primary.operand));
    assert(valid_unary(SpecUnary::Primary(primary)));
}

} // verus!
