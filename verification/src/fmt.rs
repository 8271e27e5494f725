use vstd::prelude::*;
use crate::ast::{
    view_arguments, view_arms, view_do_statements, view_expressions, view_fields, view_path,
    view_patterns, view_primary, view_secondaries, view_statements, view_unary, Argument,
    DoStatement, Expression, FunctionDecl, If, IdentOrType, LambdaDecl, IdentifierPath, LambdaArrowKind, Literal,
    LiteralKind, MatchArm, Module, Operand, Pattern, PatternKind, PrimaryExpr, Program,
    SecondaryExpr, SpecArm, SpecDoStatement, SpecExpression, SpecLiteral, SpecOperand, SpecPattern,
    SpecSecondary, SpecSegment, SpecStatement, SpecUnary, Statement, StructField,
    TopLevel, UnaryExpr,
};

verus! {

// ---------------------------------------------------------------------------
// The text of a syntax tree. Blocks are indented by four spaces; a member
// access after a call with arguments goes on a continuation line.
// ---------------------------------------------------------------------------

pub open spec fn spaces(n: nat) -> Seq<char> {
    Seq::new(n, |i: int| ' ')
}

/// A line break followed by the indentation of a line.
pub open spec fn line(indent: nat) -> Seq<char> {
    seq!['\n'] + spaces(indent)
}

/// The indentation one level deeper (saturating at the largest `usize`).
pub open spec fn deeper(indent: nat) -> nat {
    if indent + 4 <= usize::MAX {
        indent + 4
    } else {
        usize::MAX as nat
    }
}

pub open spec fn fmt_segment(s: SpecSegment) -> Seq<char> {
    match s {
        SpecSegment::Ident(name) => name,
        SpecSegment::Type(name) => name,
    }
}

pub open spec fn fmt_segments(segs: Seq<SpecSegment>) -> Seq<char>
    decreases segs.len(),
{
    if segs.len() == 0 {
        Seq::empty()
    } else if segs.len() == 1 {
        fmt_segment(segs[0])
    } else {
        fmt_segments(segs.subrange(0, segs.len() - 1)) + "::"@ + fmt_segment(segs[segs.len() - 1])
    }
}

pub open spec fn fmt_literal(l: SpecLiteral) -> Seq<char> {
    match l {
        SpecLiteral::Bool(b) => if b {
            "true"@
        } else {
            "false"@
        },
        SpecLiteral::Number(n) => n,
        SpecLiteral::String(s) => s,
    }
}

pub open spec fn fmt_pattern(p: SpecPattern) -> Seq<char>
    decreases p,
{
    match p {
        SpecPattern::Ident { name, mut_ } => if mut_ {
            "mut "@ + name
        } else {
            name
        },
        SpecPattern::Wildcard => "_"@,
        SpecPattern::Tuple(ps) => "("@ + fmt_patterns(ps) + ")"@,
    }
}

pub open spec fn fmt_patterns(ps: Seq<SpecPattern>) -> Seq<char>
    decreases ps,
{
    if ps.len() == 0 {
        Seq::empty()
    } else if ps.len() == 1 {
        fmt_pattern(ps[0])
    } else {
        fmt_patterns(ps.subrange(0, ps.len() - 1)) + ", "@ + fmt_pattern(ps[ps.len() - 1])
    }
}

pub open spec fn fmt_statement(s: SpecStatement, indent: nat) -> Seq<char>
    decreases s,
{
    match s {
        SpecStatement::Expression(e) => fmt_expr(e, indent),
        SpecStatement::Assignment(p, v) => fmt_pattern(p) + " = "@ + fmt_expr(v, indent),
        SpecStatement::Return(e) => match e {
            Some(e) => "return "@ + fmt_expr(e, indent),
            None => "return"@,
        },
        SpecStatement::Break => "break"@,
        SpecStatement::Continue => "continue"@,
    }
}

/// The statements of a block, each on its own line one level deeper.
pub open spec fn fmt_block(ss: Seq<SpecStatement>, indent: nat) -> Seq<char>
    decreases ss,
{
    if ss.len() == 0 {
        Seq::empty()
    } else {
        fmt_block(ss.subrange(0, ss.len() - 1), indent) + line(deeper(indent)) + fmt_statement(
            ss[ss.len() - 1],
            deeper(indent),
        )
    }
}

pub open spec fn fmt_expr(e: SpecExpression, indent: nat) -> Seq<char>
    decreases e,
{
    match e {
        SpecExpression::Unary(u) => fmt_unary(u, indent),
        SpecExpression::Binop(l, op, r) => fmt_unary(l, indent) + " "@ + op + " "@ + fmt_expr(
            *r,
            indent,
        ),
        SpecExpression::Cast(inner, ty) => fmt_expr(*inner, indent) + " as "@ + ty,
        SpecExpression::Range { start, end, inclusive } => (match start {
            Some(s) => fmt_expr(*s, indent),
            None => Seq::empty(),
        }) + (if inclusive {
            "..="@
        } else {
            ".."@
        }) + (match end {
            Some(x) => fmt_expr(*x, indent),
            None => Seq::empty(),
        }),
    }
}

/// Expressions separated by commas.
pub open spec fn fmt_exprs(es: Seq<SpecExpression>, indent: nat) -> Seq<char>
    decreases es,
{
    if es.len() == 0 {
        Seq::empty()
    } else if es.len() == 1 {
        fmt_expr(es[0], indent)
    } else {
        fmt_exprs(es.subrange(0, es.len() - 1), indent) + ", "@ + fmt_expr(es[es.len() - 1], indent)
    }
}

pub open spec fn fmt_unary(u: SpecUnary, indent: nat) -> Seq<char>
    decreases u,
{
    match u {
        SpecUnary::Primary(p) => fmt_operand(p.operand, indent) + match p.secondaries {
            Some(ss) => fmt_secondaries(ss, indent),
            None => Seq::empty(),
        },
        SpecUnary::Prefix(op, inner) => op + fmt_unary(*inner, indent),
    }
}

/// Whether a secondary is a call with arguments (after which a member
/// access must start a continuation line).
pub open spec fn is_call_with_arguments(s: SpecSecondary) -> bool {
    s matches SpecSecondary::Arguments(args) && args.len() > 0
}

pub open spec fn fmt_secondary(s: SpecSecondary, after_call: bool, indent: nat) -> Seq<char>
    decreases s,
{
    match s {
        SpecSecondary::Arguments(args) => if args.len() == 0 {
            "!"@
        } else {
            " "@ + fmt_exprs(args, indent)
        },
        SpecSecondary::Dot(name) => if after_call {
            line(deeper(indent)) + "."@ + name
        } else {
            "."@ + name
        },
        SpecSecondary::Index(e) => "["@ + fmt_expr(*e, indent) + "]"@,
        SpecSecondary::Interogation => "?"@,
    }
}

pub open spec fn fmt_secondaries(ss: Seq<SpecSecondary>, indent: nat) -> Seq<char>
    decreases ss,
{
    if ss.len() == 0 {
        Seq::empty()
    } else {
        let n = ss.len() - 1;
        fmt_secondaries(ss.subrange(0, n), indent) + fmt_secondary(
            ss[n],
            n > 0 && is_call_with_arguments(ss[n - 1]),
            indent,
        )
    }
}

pub open spec fn fmt_arrow(kind: LambdaArrowKind) -> Seq<char> {
    match kind {
        LambdaArrowKind::Normal => "->"@,
        LambdaArrowKind::Unit => "!->"@,
    }
}

pub open spec fn fmt_operand(o: SpecOperand, indent: nat) -> Seq<char>
    decreases o,
{
    match o {
        SpecOperand::Literal(l) => fmt_literal(l),
        SpecOperand::Ident(segs) => fmt_segments(segs),
        SpecOperand::Expression(e) => "("@ + fmt_expr(*e, indent) + ")"@,
        SpecOperand::Tuple(es) => "("@ + fmt_exprs(es, indent) + ")"@,
        SpecOperand::Array(es) => "["@ + fmt_exprs(es, indent) + "]"@,
        SpecOperand::ArrayRepeat(v, n) => "["@ + fmt_expr(*v, indent) + "; "@ + fmt_expr(
            *n,
            indent,
        ) + "]"@,
        SpecOperand::Lambda { parameters, body, arrow_kind } => (if parameters.len() == 0 {
            Seq::empty()
        } else {
            fmt_patterns(parameters) + " "@
        }) + fmt_arrow(arrow_kind) + if body.len() == 1 {
            " "@ + fmt_statement(body[0], indent)
        } else {
            fmt_block(body, indent)
        },
        SpecOperand::If { cond, then_branch, else_ } => {
            let head = "if "@ + fmt_expr(*cond, indent);
            let inline = then_branch.len() == 1 && match else_ {
                Some(b) => b.len() == 1,
                None => true,
            };
            if inline {
                head + " then "@ + fmt_statement(then_branch[0], indent) + match else_ {
                    Some(b) => " else "@ + fmt_statement(b[0], indent),
                    None => Seq::empty(),
                }
            } else {
                head + fmt_block(then_branch, indent) + match else_ {
                    Some(b) => line(indent) + "else"@ + fmt_block(b, indent),
                    None => Seq::empty(),
                }
            }
        },
        SpecOperand::Match { expr, arms, do_syntax } => match do_syntax {
            Some(entries) => "do"@ + fmt_entries(entries, indent),
            None => "match "@ + fmt_expr(*expr, indent) + fmt_arms(arms, indent),
        },
        SpecOperand::Loop(b) => "loop"@ + fmt_block(b, indent),
        SpecOperand::StructCtor { name, fields } => fmt_segments(name) + " "@ + fmt_fields(
            fields,
            indent,
        ),
    }
}

pub open spec fn fmt_entry(d: SpecDoStatement, indent: nat) -> Seq<char>
    decreases d,
{
    match d {
        SpecDoStatement::Bind(p, e) => fmt_pattern(p) + " <- "@ + fmt_expr(e, indent),
        SpecDoStatement::Statement(s) => fmt_statement(s, indent),
        SpecDoStatement::Comment(c) => c,
    }
}

/// The entries of a `do` block, each on its own line one level deeper.
pub open spec fn fmt_entries(ds: Seq<SpecDoStatement>, indent: nat) -> Seq<char>
    decreases ds,
{
    if ds.len() == 0 {
        Seq::empty()
    } else {
        fmt_entries(ds.subrange(0, ds.len() - 1), indent) + line(deeper(indent)) + fmt_entry(
            ds[ds.len() - 1],
            deeper(indent),
        )
    }
}

pub open spec fn fmt_arm(arm: SpecArm, indent: nat) -> Seq<char>
    decreases arm,
{
    line(indent) + fmt_pattern(arm.pattern) + match arm.condition {
        Some(c) => " if "@ + fmt_expr(c, indent),
        None => Seq::empty(),
    } + " ->"@ + fmt_block(arm.body, indent)
}

/// The arms of a `match`, each on its own line one level deeper.
pub open spec fn fmt_arms(arms: Seq<SpecArm>, indent: nat) -> Seq<char>
    decreases arms,
{
    if arms.len() == 0 {
        Seq::empty()
    } else {
        fmt_arms(arms.subrange(0, arms.len() - 1), indent) + fmt_arm(
            arms[arms.len() - 1],
            deeper(indent),
        )
    }
}

pub open spec fn fmt_field(f: (Seq<char>, SpecExpression), indent: nat) -> Seq<char>
    decreases f,
{
    f.0 + ": "@ + fmt_expr(f.1, indent)
}

pub open spec fn fmt_fields(fields: Seq<(Seq<char>, SpecExpression)>, indent: nat) -> Seq<char>
    decreases fields,
{
    if fields.len() == 0 {
        Seq::empty()
    } else if fields.len() == 1 {
        fmt_field(fields[0], indent)
    } else {
        fmt_fields(fields.subrange(0, fields.len() - 1), indent) + ", "@ + fmt_field(
            fields[fields.len() - 1],
            indent,
        )
    }
}

/// A declaration `name = lambda` on its own line.
pub open spec fn fmt_declaration(d: FunctionDecl) -> Seq<char> {
    d.name.name@ + " = "@ + fmt_operand(
        SpecOperand::Lambda {
            parameters: view_patterns(d.lambda.parameters@),
            body: view_statements(d.lambda.body.statements@),
            arrow_kind: d.lambda.arrow_kind,
        },
        0,
    ) + "\n"@
}

pub open spec fn fmt_declarations(ts: Seq<TopLevel>) -> Seq<char>
    decreases ts.len(),
{
    if ts.len() == 0 {
        Seq::empty()
    } else {
        fmt_declarations(ts.subrange(0, ts.len() - 1)) + match ts[ts.len() - 1] {
            TopLevel::FunctionDecl(d) => fmt_declaration(d),
        }
    }
}

// ---------------------------------------------------------------------------
// Writing the text.
// ---------------------------------------------------------------------------

fn push_spaces(out: &mut String, n: usize)
    ensures
        final(out)@ == old(out)@ + spaces(n as nat),
{
    let ghost start = out@;
    let mut i: usize = 0;
    while i < n
        invariant
            i <= n,
            out@ == start + spaces(i as nat),
        decreases n - i,
    {
        out.append(" ");
        proof {
            reveal_strlit(" ");
            assert(spaces(i as nat) + " "@ =~= spaces((i + 1) as nat));
            assert(out@ =~= start + spaces((i + 1) as nat));
        }
        i = i + 1;
    }
}

fn push_line(out: &mut String, indent: usize)
    ensures
        final(out)@ == old(out)@ + line(indent as nat),
{
    let ghost start = out@;
    out.append("\n");
    push_spaces(out, indent);
    proof {
        reveal_strlit("\n");
        assert(out@ =~= start + line(indent as nat));
    }
}

fn deeper_indent(indent: usize) -> (r: usize)
    ensures
        r == deeper(indent as nat),
{
    if indent <= usize::MAX - 4 {
        indent + 4
    } else {
        usize::MAX
    }
}

fn write_path(out: &mut String, p: &IdentifierPath)
    ensures
        final(out)@ == old(out)@ + fmt_segments(view_path(*p)),
{
    let ghost start = out@;
    let ghost v = view_path(*p);
    let mut i: usize = 0;
    while i < p.path.len()
        invariant
            i <= p.path@.len(),
            v == view_path(*p),
            v.len() == p.path@.len(),
            out@ == start + fmt_segments(v.subrange(0, i as int)),
        decreases p.path.len() - i,
    {
        if i > 0 {
            out.append("::");
        }
        match &p.path[i] {
            IdentOrType::Ident(x) => out.append(x.name.as_str()),
            IdentOrType::Type(x) => out.append(x.name.as_str()),
        }
        proof {
            let t = v.subrange(0, i + 1);
            assert(t.subrange(0, i as int) =~= v.subrange(0, i as int));
            assert(t[i as int] == v[i as int]);
            assert(out@ =~= start + fmt_segments(t));
        }
        i = i + 1;
    }
    assert(v.subrange(0, v.len() as int) =~= v);
}

fn write_literal(out: &mut String, l: &Literal)
    ensures
        final(out)@ == old(out)@ + fmt_literal(crate::ast::view_literal(*l)),
{
    match &l.kind {
        LiteralKind::Bool(b) => if *b {
            out.append("true")
        } else {
            out.append("false")
        },
        LiteralKind::Number(n) => out.append(n.as_str()),
        LiteralKind::String(t) => out.append(t.as_str()),
    }
}

fn write_arrow(out: &mut String, kind: LambdaArrowKind)
    ensures
        final(out)@ == old(out)@ + fmt_arrow(kind),
{
    match kind {
        LambdaArrowKind::Normal => out.append("->"),
        LambdaArrowKind::Unit => out.append("!->"),
    }
}

fn write_pattern(out: &mut String, p: &Pattern)
    ensures
        final(out)@ == old(out)@ + fmt_pattern(p@),
    decreases p,
{
    let ghost start = out@;
    match &p.kind {
        PatternKind::Ident(ip) => {
            if ip.mut_ {
                out.append("mut ");
            }
            out.append(ip.name.name.as_str());
        },
        PatternKind::Wildcard => out.append("_"),
        PatternKind::Tuple(items) => {
            out.append("(");
            write_patterns(out, items);
            out.append(")");
        },
    }
    assert(out@ =~= start + fmt_pattern(p@));
}

fn write_patterns(out: &mut String, ps: &Vec<Pattern>)
    ensures
        final(out)@ == old(out)@ + fmt_patterns(view_patterns(ps@)),
    decreases ps,
{
    let ghost start = out@;
    let ghost v = view_patterns(ps@);
    let mut i: usize = 0;
    while i < ps.len()
        invariant
            i <= ps@.len(),
            v == view_patterns(ps@),
            v.len() == ps@.len(),
            out@ == start + fmt_patterns(v.subrange(0, i as int)),
        decreases ps.len() - i,
    {
        if i > 0 {
            out.append(", ");
        }
        write_pattern(out, &ps[i]);
        proof {
            let t = v.subrange(0, i + 1);
            assert(t.subrange(0, i as int) =~= v.subrange(0, i as int));
            assert(t[i as int] == v[i as int]);
            assert(out@ =~= start + fmt_patterns(t));
        }
        i = i + 1;
    }
    assert(v.subrange(0, v.len() as int) =~= v);
}

fn write_statement(out: &mut String, s: &Statement, indent: usize)
    ensures
        final(out)@ == old(out)@ + fmt_statement(s@, indent as nat),
    decreases s,
{
    let ghost start = out@;
    match s {
        Statement::Expression(e) => write_expression(out, e, indent),
        Statement::Assignment(a) => {
            write_pattern(out, &a.pattern);
            out.append(" = ");
            write_expression(out, &a.value, indent);
        },
        Statement::Return(e) => match e {
            Some(e) => {
                out.append("return ");
                write_expression(out, e, indent);
            },
            None => out.append("return"),
        },
        Statement::Break => out.append("break"),
        Statement::Continue => out.append("continue"),
    }
    assert(out@ =~= start + fmt_statement(s@, indent as nat));
}

fn write_block(out: &mut String, ss: &Vec<Statement>, indent: usize)
    ensures
        final(out)@ == old(out)@ + fmt_block(view_statements(ss@), indent as nat),
    decreases ss,
{
    let ghost start = out@;
    let ghost v = view_statements(ss@);
    let inner = deeper_indent(indent);
    let mut i: usize = 0;
    while i < ss.len()
        invariant
            i <= ss@.len(),
            v == view_statements(ss@),
            v.len() == ss@.len(),
            inner == deeper(indent as nat),
            out@ == start + fmt_block(v.subrange(0, i as int), indent as nat),
        decreases ss.len() - i,
    {
        push_line(out, inner);
        write_statement(out, &ss[i], inner);
        proof {
            let t = v.subrange(0, i + 1);
            assert(t.subrange(0, i as int) =~= v.subrange(0, i as int));
            assert(t[i as int] == v[i as int]);
            assert(out@ =~= start + fmt_block(t, indent as nat));
        }
        i = i + 1;
    }
    assert(v.subrange(0, v.len() as int) =~= v);
}

fn write_expression(out: &mut String, e: &Expression, indent: usize)
    ensures
        final(out)@ == old(out)@ + fmt_expr(e@, indent as nat),
    decreases e,
{
    let ghost start = out@;
    match e {
        Expression::UnaryExpr(u) => write_unary(out, u, indent),
        Expression::BinopExpr(l, op, r) => {
            write_unary(out, l, indent);
            out.append(" ");
            out.append(op.value.as_str());
            out.append(" ");
            write_expression(out, r, indent);
        },
        Expression::CastExpr(inner, ty) => {
            write_expression(out, inner, indent);
            out.append(" as ");
            out.append(ty.name.as_str());
        },
        Expression::Range(r) => {
            if let Some(x) = &r.start {
                write_expression(out, x, indent);
            }
            if r.inclusive {
                out.append("..=");
            } else {
                out.append("..");
            }
            if let Some(x) = &r.end {
                write_expression(out, x, indent);
            }
        },
    }
    assert(out@ =~= start + fmt_expr(e@, indent as nat));
}

fn write_expressions(out: &mut String, es: &Vec<Expression>, indent: usize)
    ensures
        final(out)@ == old(out)@ + fmt_exprs(view_expressions(es@), indent as nat),
    decreases es,
{
    let ghost start = out@;
    let ghost v = view_expressions(es@);
    let mut i: usize = 0;
    while i < es.len()
        invariant
            i <= es@.len(),
            v == view_expressions(es@),
            v.len() == es@.len(),
            out@ == start + fmt_exprs(v.subrange(0, i as int), indent as nat),
        decreases es.len() - i,
    {
        if i > 0 {
            out.append(", ");
        }
        write_expression(out, &es[i], indent);
        proof {
            let t = v.subrange(0, i + 1);
            assert(t.subrange(0, i as int) =~= v.subrange(0, i as int));
            assert(t[i as int] == v[i as int]);
            assert(out@ =~= start + fmt_exprs(t, indent as nat));
        }
        i = i + 1;
    }
    assert(v.subrange(0, v.len() as int) =~= v);
}

fn write_arguments(out: &mut String, args: &Vec<Argument>, indent: usize)
    ensures
        final(out)@ == old(out)@ + fmt_exprs(view_arguments(args@), indent as nat),
    decreases args,
{
    let ghost start = out@;
    let ghost v = view_arguments(args@);
    let mut i: usize = 0;
    while i < args.len()
        invariant
            i <= args@.len(),
            v == view_arguments(args@),
            v.len() == args@.len(),
            out@ == start + fmt_exprs(v.subrange(0, i as int), indent as nat),
        decreases args.len() - i,
    {
        if i > 0 {
            out.append(", ");
        }
        write_expression(out, &args[i].arg, indent);
        proof {
            let t = v.subrange(0, i + 1);
            assert(t.subrange(0, i as int) =~= v.subrange(0, i as int));
            assert(t[i as int] == v[i as int]);
            assert(out@ =~= start + fmt_exprs(t, indent as nat));
        }
        i = i + 1;
    }
    assert(v.subrange(0, v.len() as int) =~= v);
}

fn write_unary(out: &mut String, u: &UnaryExpr, indent: usize)
    ensures
        final(out)@ == old(out)@ + fmt_unary(view_unary(*u), indent as nat),
    decreases u,
{
    let ghost start = out@;
    match u {
        UnaryExpr::PrimaryExpr(p) => {
            assert(view_unary(*u) == SpecUnary::Primary(view_primary(*p)));
            write_operand(out, &p.operand, indent);
            if let Some(ss) = &p.secondaries {
                write_secondaries(out, ss, indent);
                assert(view_primary(*p).secondaries == Some(view_secondaries(ss@)));
            }
        },
        UnaryExpr::UnaryExpr(op, inner) => {
            out.append(op.value.as_str());
            write_unary(out, inner, indent);
        },
    }
    assert(out@ =~= start + fmt_unary(view_unary(*u), indent as nat));
}

fn is_call_with_arguments_exec(s: &SecondaryExpr) -> (r: bool)
    ensures
        r == is_call_with_arguments(crate::ast::view_secondary(*s)),
{
    match s {
        SecondaryExpr::Arguments(args) => args.len() > 0,
        _ => false,
    }
}

fn write_secondary(out: &mut String, s: &SecondaryExpr, after_call: bool, indent: usize)
    ensures
        final(out)@ == old(out)@ + fmt_secondary(
            crate::ast::view_secondary(*s),
            after_call,
            indent as nat,
        ),
    decreases s,
{
    let ghost start = out@;
    match s {
        SecondaryExpr::Arguments(args) => {
            if args.len() == 0 {
                out.append("!");
            } else {
                out.append(" ");
                write_arguments(out, args, indent);
            }
        },
        SecondaryExpr::Dot(name) => {
            if after_call {
                push_line(out, deeper_indent(indent));
            }
            out.append(".");
            out.append(name.name.as_str());
        },
        SecondaryExpr::Index(e) => {
            out.append("[");
            write_expression(out, e, indent);
            out.append("]");
        },
        SecondaryExpr::Interogation => out.append("?"),
    }
    assert(out@ =~= start + fmt_secondary(crate::ast::view_secondary(*s), after_call, indent as nat));
}

fn write_secondaries(out: &mut String, ss: &Vec<SecondaryExpr>, indent: usize)
    ensures
        final(out)@ == old(out)@ + fmt_secondaries(view_secondaries(ss@), indent as nat),
    decreases ss,
{
    let ghost start = out@;
    let ghost v = view_secondaries(ss@);
    let mut i: usize = 0;
    while i < ss.len()
        invariant
            i <= ss@.len(),
            v == view_secondaries(ss@),
            v.len() == ss@.len(),
            out@ == start + fmt_secondaries(v.subrange(0, i as int), indent as nat),
        decreases ss.len() - i,
    {
        let after_call = i > 0 && is_call_with_arguments_exec(&ss[i - 1]);
        write_secondary(out, &ss[i], after_call, indent);
        proof {
            let t = v.subrange(0, i + 1);
            assert(t.subrange(0, i as int) =~= v.subrange(0, i as int));
            assert(t[i as int] == v[i as int]);
            if i > 0 {
                assert(t[i - 1] == v[i - 1]);
            }
            assert(out@ =~= start + fmt_secondaries(t, indent as nat));
        }
        i = i + 1;
    }
    assert(v.subrange(0, v.len() as int) =~= v);
}

fn write_operand(out: &mut String, o: &Operand, indent: usize)
    ensures
        final(out)@ == old(out)@ + fmt_operand(o@, indent as nat),
    decreases o,
{
    let ghost start = out@;
    match o {
        Operand::Literal(l) => write_literal(out, l),
        Operand::Ident(p) => write_path(out, p),
        Operand::Expression(e) => {
            out.append("(");
            write_expression(out, e, indent);
            out.append(")");
        },
        Operand::Tuple(es) => {
            out.append("(");
            write_expressions(out, es, indent);
            out.append(")");
        },
        Operand::Array(es) => {
            out.append("[");
            write_expressions(out, es, indent);
            out.append("]");
        },
        Operand::ArrayRepeat(v, n) => {
            out.append("[");
            write_expression(out, v, indent);
            out.append("; ");
            write_expression(out, n, indent);
            out.append("]");
        },
        Operand::LambdaDecl(l) => write_lambda(out, l, indent),
        Operand::If(i) => write_if(out, i, indent),
        Operand::Match(m) => match &m.do_syntax {
            Some(entries) => {
                out.append("do");
                write_entries(out, entries, indent);
            },
            None => {
                out.append("match ");
                write_expression(out, &m.expr, indent);
                write_arms(out, &m.arms, indent);
            },
        },
        Operand::Loop(b) => {
            out.append("loop");
            write_block(out, &b.statements, indent);
        },
        Operand::StructCtor(s) => {
            write_path(out, &s.name);
            out.append(" ");
            write_fields(out, &s.fields, indent);
        },
    }
    assert(out@ =~= start + fmt_operand(o@, indent as nat));
}

fn write_lambda(out: &mut String, l: &LambdaDecl, indent: usize)
    ensures
        final(out)@ == old(out)@ + fmt_operand(
            SpecOperand::Lambda {
                parameters: view_patterns(l.parameters@),
                body: view_statements(l.body.statements@),
                arrow_kind: l.arrow_kind,
            },
            indent as nat,
        ),
    decreases l,
{
    let ghost start = out@;
    let ghost mid = out@;
    if l.parameters.len() > 0 {
        write_patterns(out, &l.parameters);
        out.append(" ");
    }
    proof {
        mid = out@;
    }
    write_arrow(out, l.arrow_kind);
    let ghost before_body = out@;
    if l.body.statements.len() == 1 {
        out.append(" ");
        write_statement(out, &l.body.statements[0], indent);
        assert(view_statements(l.body.statements@)[0] == l.body.statements@[0]@);
    } else {
        write_block(out, &l.body.statements, indent);
    }
    assert(out@ =~= start + fmt_operand(
        SpecOperand::Lambda {
            parameters: view_patterns(l.parameters@),
            body: view_statements(l.body.statements@),
            arrow_kind: l.arrow_kind,
        },
        indent as nat,
    ));
}

fn write_if(out: &mut String, i: &If, indent: usize)
    ensures
        final(out)@ == old(out)@ + fmt_operand(
            SpecOperand::If {
                cond: Box::new(crate::ast::view_expression(*i.cond)),
                then_branch: view_statements(i.then_branch.statements@),
                else_: match i.else_ {
                    Some(b) => Some(view_statements(b.statements@)),
                    None => None,
                },
            },
            indent as nat,
        ),
    decreases i,
{
    let ghost start = out@;
    out.append("if ");
    write_expression(out, &i.cond, indent);
    let inline = i.then_branch.statements.len() == 1 && match &i.else_ {
        Some(b) => b.statements.len() == 1,
        None => true,
    };
    if inline {
        out.append(" then ");
        write_statement(out, &i.then_branch.statements[0], indent);
        assert(view_statements(i.then_branch.statements@)[0] == i.then_branch.statements@[0]@);
        if let Some(b) = &i.else_ {
            out.append(" else ");
            write_statement(out, &b.statements[0], indent);
            assert(view_statements(b.statements@)[0] == b.statements@[0]@);
        }
    } else {
        write_block(out, &i.then_branch.statements, indent);
        if let Some(b) = &i.else_ {
            push_line(out, indent);
            out.append("else");
            write_block(out, &b.statements, indent);
        }
    }
    assert(out@ =~= start + fmt_operand(
        SpecOperand::If {
            cond: Box::new(crate::ast::view_expression(*i.cond)),
            then_branch: view_statements(i.then_branch.statements@),
            else_: match i.else_ {
                Some(b) => Some(view_statements(b.statements@)),
                None => None,
            },
        },
        indent as nat,
    ));
}

fn write_entry(out: &mut String, d: &DoStatement, indent: usize)
    ensures
        final(out)@ == old(out)@ + fmt_entry(d@, indent as nat),
    decreases d,
{
    let ghost start = out@;
    match d {
        DoStatement::Bind(p, e, _) => {
            write_pattern(out, p);
            out.append(" <- ");
            write_expression(out, e, indent);
        },
        DoStatement::Statement(s, _) => write_statement(out, s, indent),
        DoStatement::Comment(c) => out.append(c.as_str()),
    }
    assert(out@ =~= start + fmt_entry(d@, indent as nat));
}

fn write_entries(out: &mut String, ds: &Vec<DoStatement>, indent: usize)
    ensures
        final(out)@ == old(out)@ + fmt_entries(view_do_statements(ds@), indent as nat),
    decreases ds,
{
    let ghost start = out@;
    let ghost v = view_do_statements(ds@);
    let inner = deeper_indent(indent);
    let mut i: usize = 0;
    while i < ds.len()
        invariant
            i <= ds@.len(),
            v == view_do_statements(ds@),
            v.len() == ds@.len(),
            inner == deeper(indent as nat),
            out@ == start + fmt_entries(v.subrange(0, i as int), indent as nat),
        decreases ds.len() - i,
    {
        push_line(out, inner);
        write_entry(out, &ds[i], inner);
        proof {
            let t = v.subrange(0, i + 1);
            assert(t.subrange(0, i as int) =~= v.subrange(0, i as int));
            assert(t[i as int] == v[i as int]);
            assert(out@ =~= start + fmt_entries(t, indent as nat));
        }
        i = i + 1;
    }
    assert(v.subrange(0, v.len() as int) =~= v);
}

fn write_arm(out: &mut String, arm: &MatchArm, indent: usize)
    ensures
        final(out)@ == old(out)@ + fmt_arm(view_arms(seq![*arm])[0], indent as nat),
    decreases arm,
{
    let ghost start = out@;
    push_line(out, indent);
    write_pattern(out, &arm.pattern);
    if let Some(c) = &arm.condition {
        out.append(" if ");
        write_expression(out, c, indent);
    }
    out.append(" ->");
    write_block(out, &arm.body.statements, indent);
    assert(out@ =~= start + fmt_arm(view_arms(seq![*arm])[0], indent as nat));
}

fn write_arms(out: &mut String, arms: &Vec<MatchArm>, indent: usize)
    ensures
        final(out)@ == old(out)@ + fmt_arms(view_arms(arms@), indent as nat),
    decreases arms,
{
    let ghost start = out@;
    let ghost v = view_arms(arms@);
    let inner = deeper_indent(indent);
    let mut i: usize = 0;
    while i < arms.len()
        invariant
            i <= arms@.len(),
            v == view_arms(arms@),
            v.len() == arms@.len(),
            inner == deeper(indent as nat),
            out@ == start + fmt_arms(v.subrange(0, i as int), indent as nat),
        decreases arms.len() - i,
    {
        write_arm(out, &arms[i], inner);
        proof {
            let t = v.subrange(0, i + 1);
            assert(t.subrange(0, i as int) =~= v.subrange(0, i as int));
            assert(view_arms(seq![arms@[i as int]])[0] == v[i as int]);
            assert(t[i as int] == v[i as int]);
            assert(out@ =~= start + fmt_arms(t, indent as nat));
        }
        i = i + 1;
    }
    assert(v.subrange(0, v.len() as int) =~= v);
}

fn write_fields(out: &mut String, fields: &Vec<StructField>, indent: usize)
    ensures
        final(out)@ == old(out)@ + fmt_fields(view_fields(fields@), indent as nat),
    decreases fields,
{
    let ghost start = out@;
    let ghost v = view_fields(fields@);
    let mut i: usize = 0;
    while i < fields.len()
        invariant
            i <= fields@.len(),
            v == view_fields(fields@),
            v.len() == fields@.len(),
            out@ == start + fmt_fields(v.subrange(0, i as int), indent as nat),
        decreases fields.len() - i,
    {
        if i > 0 {
            out.append(", ");
        }
        out.append(fields[i].name.name.as_str());
        out.append(": ");
        write_expression(out, &fields[i].value, indent);
        proof {
            assert(v[i as int] == (
                fields@[i as int].name.name@,
                crate::ast::view_expression(fields@[i as int].value),
            ));
            assert(fmt_field(v[i as int], indent as nat) == fields@[i as int].name.name@ + ": "@
                + fmt_expr(crate::ast::view_expression(fields@[i as int].value), indent as nat));
            let t = v.subrange(0, i + 1);
            assert(t.subrange(0, i as int) =~= v.subrange(0, i as int));
            assert(t[i as int] == v[i as int]);
            assert(out@ =~= start + fmt_fields(t, indent as nat));
        }
        i = i + 1;
    }
    assert(v.subrange(0, v.len() as int) =~= v);
}

fn write_declaration(out: &mut String, d: &FunctionDecl)
    ensures
        final(out)@ == old(out)@ + fmt_declaration(*d),
{
    let ghost start = out@;
    out.append(d.name.name.as_str());
    out.append(" = ");
    write_lambda(out, &d.lambda, 0);
    out.append("\n");
    assert(out@ =~= start + fmt_declaration(*d));
}

/// The text of a module: each declaration on its own line.
pub fn format_module(module: &Module) -> (r: String)
    ensures
        r@ == fmt_declarations(module.top_levels@),
{
    let mut out = String::new();
    let ghost v = module.top_levels@;
    let mut i: usize = 0;
    while i < module.top_levels.len()
        invariant
            i <= v.len(),
            v == module.top_levels@,
            out@ == fmt_declarations(v.subrange(0, i as int)),
        decreases module.top_levels.len() - i,
    {
        match &module.top_levels[i] {
            TopLevel::FunctionDecl(d) => write_declaration(&mut out, d),
        }
        proof {
            let t = v.subrange(0, i + 1);
            assert(t.subrange(0, i as int) =~= v.subrange(0, i as int));
            assert(t[i as int] == v[i as int]);
            assert(out@ =~= fmt_declarations(t));
        }
        i = i + 1;
    }
    assert(v.subrange(0, v.len() as int) =~= v);
    out
}

/// The text of a program.
pub fn format_program(program: &Program) -> (r: String)
    ensures
        r@ == fmt_declarations(program.module.top_levels@),
{
    format_module(&program.module)
}

/// A `do` block is printed as written: its text depends only on its entries,
/// never on the calls and callbacks it expands to.
pub proof fn lemma_do_block_formats_as_written(
    entries: Seq<SpecDoStatement>,
    first: Seq<SpecStatement>,
    second: Seq<SpecStatement>,
    indent: nat,
)
    ensures
        fmt_operand(crate::do_expr::do_operand(entries, first), indent) == fmt_operand(
            crate::do_expr::do_operand(entries, second),
            indent,
        ),
        fmt_operand(crate::do_expr::do_operand(entries, first), indent) == "do"@ + fmt_entries(
            entries,
            indent,
        ),
{
}

} // verus!
