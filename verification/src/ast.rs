use vstd::prelude::*;
use crate::lexer::SourceSpan;

verus! {

/// A name as written.
#[derive(Debug)]
pub struct Ident {
    pub name: String,
    pub span: SourceSpan,
}

/// One segment of a path.
#[derive(Debug)]
pub enum IdentOrType {
    Ident(Ident),
    Type(Ident),
}

/// A possibly qualified name, such as `x` or `String::from_str`.
#[derive(Debug)]
pub struct IdentifierPath {
    pub path: Vec<IdentOrType>,
}

#[derive(Debug)]
pub enum LiteralKind {
    Bool(bool),
    /// A number, as written.
    Number(String),
    /// A string literal, quotes included, as written.
    String(String),
}

#[derive(Debug)]
pub struct Literal {
    pub kind: LiteralKind,
    pub span: SourceSpan,
}

/// An operator, as written.
#[derive(Debug)]
pub struct Operator {
    pub value: String,
}

/// `->` returns the body's value; `!->` discards it.
#[derive(Clone, Copy, Debug, PartialEq, Eq, Structural)]
pub enum LambdaArrowKind {
    Normal,
    Unit,
}

#[derive(Debug)]
pub struct IdentPattern {
    pub name: Ident,
    pub mut_: bool,
}

#[derive(Debug)]
pub enum PatternKind {
    Ident(IdentPattern),
    Wildcard,
    Tuple(Vec<Pattern>),
}

#[derive(Debug)]
pub struct Pattern {
    pub kind: PatternKind,
}

#[derive(Debug)]
pub struct Block {
    pub statements: Vec<Statement>,
}

#[derive(Debug)]
pub struct LambdaDecl {
    pub parameters: Vec<Pattern>,
    pub body: Block,
    pub arrow_kind: LambdaArrowKind,
    /// Where the lambda is written (for one a `do` block generates, the bind
    /// it stands for).
    pub span: SourceSpan,
}

#[derive(Debug)]
pub struct Assignment {
    pub pattern: Pattern,
    pub value: Expression,
}

#[derive(Debug)]
pub enum Statement {
    Expression(Expression),
    Assignment(Assignment),
    Return(Option<Expression>),
    Break,
    Continue,
}

#[derive(Debug)]
pub struct Argument {
    pub arg: Expression,
}

/// What may follow an operand.
#[derive(Debug)]
pub enum SecondaryExpr {
    /// A call: juxtaposed arguments, or `!` for none.
    Arguments(Vec<Argument>),
    /// `.member`
    Dot(Ident),
    /// `[index]`
    Index(Box<Expression>),
    /// `?`: propagation of a failed result.
    Interogation,
}

#[derive(Debug)]
pub struct If {
    pub cond: Box<Expression>,
    pub then_branch: Block,
    pub else_: Option<Block>,
}

#[derive(Debug)]
pub struct MatchArm {
    pub pattern: Pattern,
    pub condition: Option<Expression>,
    pub body: Block,
}

#[derive(Debug)]
pub struct Match {
    pub expr: Box<Expression>,
    pub arms: Vec<MatchArm>,
    /// The statements of the `do` block that this match expands, kept for formatting.
    pub do_syntax: Option<Vec<DoStatement>>,
}

#[derive(Debug)]
pub struct StructField {
    pub name: Ident,
    pub value: Expression,
}

#[derive(Debug)]
pub struct StructCtor {
    pub name: IdentifierPath,
    pub fields: Vec<StructField>,
}

#[derive(Debug)]
pub enum Operand {
    Literal(Literal),
    Ident(IdentifierPath),
    /// A parenthesized expression.
    Expression(Box<Expression>),
    Tuple(Vec<Expression>),
    Array(Vec<Expression>),
    ArrayRepeat(Box<Expression>, Box<Expression>),
    LambdaDecl(LambdaDecl),
    If(Box<If>),
    Match(Box<Match>),
    Loop(Block),
    StructCtor(StructCtor),
}

#[derive(Debug)]
pub struct PrimaryExpr {
    pub operand: Operand,
    pub secondaries: Option<Vec<SecondaryExpr>>,
}

#[derive(Debug)]
pub enum UnaryExpr {
    PrimaryExpr(PrimaryExpr),
    UnaryExpr(Operator, Box<UnaryExpr>),
}

#[derive(Debug)]
pub struct RangeExpr {
    pub start: Option<Box<Expression>>,
    pub end: Option<Box<Expression>>,
    pub inclusive: bool,
}

#[derive(Debug)]
pub enum Expression {
    UnaryExpr(UnaryExpr),
    BinopExpr(UnaryExpr, Operator, Box<Expression>),
    CastExpr(Box<Expression>, Ident),
    Range(RangeExpr),
}

/// One line of a `do` block.
#[derive(Debug)]
pub enum DoStatement {
    /// `pattern <- action`, with the place of its line.
    Bind(Pattern, Expression, SourceSpan),
    /// A statement, with the place of its line.
    Statement(Statement, SourceSpan),
    /// A `//` comment line, as written.
    Comment(String),
}

#[derive(Debug)]
pub struct FunctionDecl {
    pub name: Ident,
    pub lambda: LambdaDecl,
}

#[derive(Debug)]
pub enum TopLevel {
    FunctionDecl(FunctionDecl),
}

#[derive(Debug)]
pub struct Module {
    pub top_levels: Vec<TopLevel>,
}

#[derive(Debug)]
pub struct Program {
    pub module: Module,
}

// ---------------------------------------------------------------------------
// The mathematical value of a syntax tree: the same tree, with sequences in
// place of vectors and character sequences in place of strings.
// ---------------------------------------------------------------------------

pub enum SpecSegment {
    Ident(Seq<char>),
    Type(Seq<char>),
}

pub enum SpecLiteral {
    Bool(bool),
    Number(Seq<char>),
    String(Seq<char>),
}

pub enum SpecPattern {
    Ident { name: Seq<char>, mut_: bool },
    Wildcard,
    Tuple(Seq<SpecPattern>),
}

pub enum SpecStatement {
    Expression(SpecExpression),
    Assignment(SpecPattern, SpecExpression),
    Return(Option<SpecExpression>),
    Break,
    Continue,
}

pub enum SpecExpression {
    Unary(SpecUnary),
    Binop(SpecUnary, Seq<char>, Box<SpecExpression>),
    Cast(Box<SpecExpression>, Seq<char>),
    Range { start: Option<Box<SpecExpression>>, end: Option<Box<SpecExpression>>, inclusive: bool },
}

pub enum SpecUnary {
    Primary(SpecPrimary),
    Prefix(Seq<char>, Box<SpecUnary>),
}

pub struct SpecPrimary {
    pub operand: SpecOperand,
    pub secondaries: Option<Seq<SpecSecondary>>,
}

pub enum SpecSecondary {
    Arguments(Seq<SpecExpression>),
    Dot(Seq<char>),
    Index(Box<SpecExpression>),
    Interogation,
}

pub struct SpecArm {
    pub pattern: SpecPattern,
    pub condition: Option<SpecExpression>,
    pub body: Seq<SpecStatement>,
}

pub enum SpecOperand {
    Literal(SpecLiteral),
    Ident(Seq<SpecSegment>),
    Expression(Box<SpecExpression>),
    Tuple(Seq<SpecExpression>),
    Array(Seq<SpecExpression>),
    ArrayRepeat(Box<SpecExpression>, Box<SpecExpression>),
    Lambda { parameters: Seq<SpecPattern>, body: Seq<SpecStatement>, arrow_kind: LambdaArrowKind },
    If { cond: Box<SpecExpression>, then_branch: Seq<SpecStatement>, else_: Option<Seq<SpecStatement>> },
    Match { expr: Box<SpecExpression>, arms: Seq<SpecArm>, do_syntax: Option<Seq<SpecDoStatement>> },
    Loop(Seq<SpecStatement>),
    StructCtor { name: Seq<SpecSegment>, fields: Seq<(Seq<char>, SpecExpression)> },
}

pub enum SpecDoStatement {
    Bind(SpecPattern, SpecExpression),
    Statement(SpecStatement),
    Comment(Seq<char>),
}

pub open spec fn view_segment(s: IdentOrType) -> SpecSegment {
    match s {
        IdentOrType::Ident(i) => SpecSegment::Ident(i.name@),
        IdentOrType::Type(i) => SpecSegment::Type(i.name@),
    }
}

pub open spec fn view_path(p: IdentifierPath) -> Seq<SpecSegment> {
    p.path@.map_values(|s: IdentOrType| view_segment(s))
}

pub open spec fn view_literal(l: Literal) -> SpecLiteral {
    match l.kind {
        LiteralKind::Bool(b) => SpecLiteral::Bool(b),
        LiteralKind::Number(n) => SpecLiteral::Number(n@),
        LiteralKind::String(s) => SpecLiteral::String(s@),
    }
}

pub open spec fn view_pattern(p: Pattern) -> SpecPattern
    decreases p,
{
    match p.kind {
        PatternKind::Ident(ip) => SpecPattern::Ident { name: ip.name.name@, mut_: ip.mut_ },
        PatternKind::Wildcard => SpecPattern::Wildcard,
        PatternKind::Tuple(items) => SpecPattern::Tuple(view_patterns(items@)),
    }
}

pub open spec fn view_patterns(ps: Seq<Pattern>) -> Seq<SpecPattern>
    decreases ps,
{
    Seq::new(ps.len(), |i: int| if 0 <= i < ps.len() { view_pattern(ps[i]) } else { SpecPattern::Wildcard })
}

pub open spec fn view_statement(s: Statement) -> SpecStatement
    decreases s,
{
    match s {
        Statement::Expression(e) => SpecStatement::Expression(view_expression(e)),
        Statement::Assignment(a) => SpecStatement::Assignment(view_pattern(a.pattern), view_expression(a.value)),
        Statement::Return(e) => SpecStatement::Return(
            match e {
                Some(e) => Some(view_expression(e)),
                None => None,
            },
        ),
        Statement::Break => SpecStatement::Break,
        Statement::Continue => SpecStatement::Continue,
    }
}

pub open spec fn view_statements(ss: Seq<Statement>) -> Seq<SpecStatement>
    decreases ss,
{
    Seq::new(ss.len(), |i: int| if 0 <= i < ss.len() { view_statement(ss[i]) } else { SpecStatement::Break })
}

pub open spec fn view_expression(e: Expression) -> SpecExpression
    decreases e,
{
    match e {
        Expression::UnaryExpr(u) => SpecExpression::Unary(view_unary(u)),
        Expression::BinopExpr(l, op, r) => SpecExpression::Binop(view_unary(l), op.value@, Box::new(view_expression(*r))),
        Expression::CastExpr(inner, ty) => SpecExpression::Cast(Box::new(view_expression(*inner)), ty.name@),
        Expression::Range(r) => SpecExpression::Range {
            start: match r.start {
                Some(s) => Some(Box::new(view_expression(*s))),
                None => None,
            },
            end: match r.end {
                Some(x) => Some(Box::new(view_expression(*x))),
                None => None,
            },
            inclusive: r.inclusive,
        },
    }
}

pub open spec fn view_expressions(es: Seq<Expression>) -> Seq<SpecExpression>
    decreases es,
{
    Seq::new(es.len(), |i: int| if 0 <= i < es.len() { view_expression(es[i]) } else { SpecExpression::Range { start: None, end: None, inclusive: false } })
}

pub open spec fn view_arguments(args: Seq<Argument>) -> Seq<SpecExpression>
    decreases args,
{
    Seq::new(args.len(), |i: int| if 0 <= i < args.len() { view_expression(args[i].arg) } else { SpecExpression::Range { start: None, end: None, inclusive: false } })
}

pub open spec fn view_unary(u: UnaryExpr) -> SpecUnary
    decreases u,
{
    match u {
        UnaryExpr::PrimaryExpr(p) => SpecUnary::Primary(view_primary(p)),
        UnaryExpr::UnaryExpr(op, inner) => SpecUnary::Prefix(op.value@, Box::new(view_unary(*inner))),
    }
}

pub open spec fn view_primary(p: PrimaryExpr) -> SpecPrimary
    decreases p,
{
    SpecPrimary {
        operand: view_operand(p.operand),
        secondaries: match p.secondaries {
            Some(ss) => Some(view_secondaries(ss@)),
            None => None,
        },
    }
}

pub open spec fn view_secondary(s: SecondaryExpr) -> SpecSecondary
    decreases s,
{
    match s {
        SecondaryExpr::Arguments(args) => SpecSecondary::Arguments(view_arguments(args@)),
        SecondaryExpr::Dot(id) => SpecSecondary::Dot(id.name@),
        SecondaryExpr::Index(e) => SpecSecondary::Index(Box::new(view_expression(*e))),
        SecondaryExpr::Interogation => SpecSecondary::Interogation,
    }
}

pub open spec fn view_secondaries(ss: Seq<SecondaryExpr>) -> Seq<SpecSecondary>
    decreases ss,
{
    Seq::new(ss.len(), |i: int| if 0 <= i < ss.len() { view_secondary(ss[i]) } else { SpecSecondary::Interogation })
}

pub open spec fn view_arms(arms: Seq<MatchArm>) -> Seq<SpecArm>
    decreases arms,
{
    Seq::new(
        arms.len(),
        |i: int|
            if 0 <= i < arms.len() {
                SpecArm {
                    pattern: view_pattern(arms[i].pattern),
                    condition: match arms[i].condition {
                        Some(c) => Some(view_expression(c)),
                        None => None,
                    },
                    body: view_statements(arms[i].body.statements@),
                }
            } else {
                SpecArm { pattern: SpecPattern::Wildcard, condition: None, body: Seq::empty() }
            },
    )
}

pub open spec fn view_fields(fields: Seq<StructField>) -> Seq<(Seq<char>, SpecExpression)>
    decreases fields,
{
    Seq::new(
        fields.len(),
        |i: int|
            if 0 <= i < fields.len() {
                (fields[i].name.name@, view_expression(fields[i].value))
            } else {
                (Seq::empty(), SpecExpression::Range { start: None, end: None, inclusive: false })
            },
    )
}

pub open spec fn view_do_statement(d: DoStatement) -> SpecDoStatement
    decreases d,
{
    match d {
        DoStatement::Bind(p, e, _) => SpecDoStatement::Bind(view_pattern(p), view_expression(e)),
        DoStatement::Statement(s, _) => SpecDoStatement::Statement(view_statement(s)),
        DoStatement::Comment(c) => SpecDoStatement::Comment(c@),
    }
}

pub open spec fn view_do_statements(ds: Seq<DoStatement>) -> Seq<SpecDoStatement>
    decreases ds,
{
    Seq::new(ds.len(), |i: int| if 0 <= i < ds.len() { view_do_statement(ds[i]) } else { SpecDoStatement::Comment(Seq::empty()) })
}

pub open spec fn view_operand(o: Operand) -> SpecOperand
    decreases o,
{
    match o {
        Operand::Literal(l) => SpecOperand::Literal(view_literal(l)),
        Operand::Ident(p) => SpecOperand::Ident(view_path(p)),
        Operand::Expression(e) => SpecOperand::Expression(Box::new(view_expression(*e))),
        Operand::Tuple(es) => SpecOperand::Tuple(view_expressions(es@)),
        Operand::Array(es) => SpecOperand::Array(view_expressions(es@)),
        Operand::ArrayRepeat(v, n) => SpecOperand::ArrayRepeat(Box::new(view_expression(*v)), Box::new(view_expression(*n))),
        Operand::LambdaDecl(l) => SpecOperand::Lambda {
            parameters: view_patterns(l.parameters@),
            body: view_statements(l.body.statements@),
            arrow_kind: l.arrow_kind,
        },
        Operand::If(i) => SpecOperand::If {
            cond: Box::new(view_expression(*i.cond)),
            then_branch: view_statements(i.then_branch.statements@),
            else_: match i.else_ {
                Some(b) => Some(view_statements(b.statements@)),
                None => None,
            },
        },
        Operand::Match(m) => SpecOperand::Match {
            expr: Box::new(view_expression(*m.expr)),
            arms: view_arms(m.arms@),
            do_syntax: match m.do_syntax {
                Some(ds) => Some(view_do_statements(ds@)),
                None => None,
            },
        },
        Operand::Loop(b) => SpecOperand::Loop(view_statements(b.statements@)),
        Operand::StructCtor(s) => SpecOperand::StructCtor { name: view_path(s.name), fields: view_fields(s.fields@) },
    }
}

impl View for Pattern {
    type V = SpecPattern;

    open spec fn view(&self) -> SpecPattern {
        view_pattern(*self)
    }
}

impl View for Statement {
    type V = SpecStatement;

    open spec fn view(&self) -> SpecStatement {
        view_statement(*self)
    }
}

impl View for Expression {
    type V = SpecExpression;

    open spec fn view(&self) -> SpecExpression {
        view_expression(*self)
    }
}

impl View for Operand {
    type V = SpecOperand;

    open spec fn view(&self) -> SpecOperand {
        view_operand(*self)
    }
}

impl View for DoStatement {
    type V = SpecDoStatement;

    open spec fn view(&self) -> SpecDoStatement {
        view_do_statement(*self)
    }
}

impl View for Block {
    type V = Seq<SpecStatement>;

    open spec fn view(&self) -> Seq<SpecStatement> {
        view_statements(self.statements@)
    }
}

// ---------------------------------------------------------------------------
// Copies that keep the value.
// ---------------------------------------------------------------------------

pub fn clone_ident(i: &Ident) -> (r: Ident)
    ensures
        r.name@ == i.name@,
        r.span == i.span,
{
    Ident { name: i.name.clone(), span: i.span }
}

pub fn clone_path(p: &IdentifierPath) -> (r: IdentifierPath)
    ensures
        view_path(r) == view_path(*p),
{
    let mut path: Vec<IdentOrType> = Vec::new();
    let mut i: usize = 0;
    while i < p.path.len()
        invariant
            i <= p.path@.len(),
            path@.len() == i,
            forall|j: int| 0 <= j < i ==> view_segment(#[trigger] path@[j]) == view_segment(p.path@[j]),
        decreases p.path.len() - i,
    {
        path.push(
            match &p.path[i] {
                IdentOrType::Ident(x) => IdentOrType::Ident(clone_ident(x)),
                IdentOrType::Type(x) => IdentOrType::Type(clone_ident(x)),
            },
        );
        i = i + 1;
    }
    let r = IdentifierPath { path };
    assert(view_path(r) =~= view_path(*p));
    r
}

pub fn clone_literal(l: &Literal) -> (r: Literal)
    ensures
        view_literal(r) == view_literal(*l),
{
    Literal {
        kind: match &l.kind {
            LiteralKind::Bool(b) => LiteralKind::Bool(*b),
            LiteralKind::Number(n) => LiteralKind::Number(n.clone()),
            LiteralKind::String(s) => LiteralKind::String(s.clone()),
        },
        span: l.span,
    }
}

pub fn clone_operator(o: &Operator) -> (r: Operator)
    ensures
        r.value@ == o.value@,
{
    Operator { value: o.value.clone() }
}

pub fn clone_pattern(p: &Pattern) -> (r: Pattern)
    ensures
        r@ == p@,
    decreases p,
{
    Pattern {
        kind: match &p.kind {
            PatternKind::Ident(ip) => PatternKind::Ident(
                IdentPattern { name: clone_ident(&ip.name), mut_: ip.mut_ },
            ),
            PatternKind::Wildcard => PatternKind::Wildcard,
            PatternKind::Tuple(items) => PatternKind::Tuple(clone_patterns(items)),
        },
    }
}

pub fn clone_patterns(ps: &Vec<Pattern>) -> (r: Vec<Pattern>)
    ensures
        view_patterns(r@) == view_patterns(ps@),
    decreases ps,
{
    let mut out: Vec<Pattern> = Vec::new();
    let mut i: usize = 0;
    while i < ps.len()
        invariant
            i <= ps@.len(),
            out@.len() == i,
            forall|j: int| 0 <= j < i ==> view_pattern(#[trigger] out@[j]) == view_pattern(ps@[j]),
        decreases ps.len() - i,
    {
        out.push(clone_pattern(&ps[i]));
        i = i + 1;
    }
    assert(view_patterns(out@) =~= view_patterns(ps@));
    out
}

pub fn clone_block(b: &Block) -> (r: Block)
    ensures
        r@ == b@,
    decreases b,
{
    Block { statements: clone_statements(&b.statements) }
}

pub fn clone_statements(ss: &Vec<Statement>) -> (r: Vec<Statement>)
    ensures
        view_statements(r@) == view_statements(ss@),
    decreases ss,
{
    let mut out: Vec<Statement> = Vec::new();
    let mut i: usize = 0;
    while i < ss.len()
        invariant
            i <= ss@.len(),
            out@.len() == i,
            forall|j: int| 0 <= j < i ==> view_statement(#[trigger] out@[j]) == view_statement(ss@[j]),
        decreases ss.len() - i,
    {
        out.push(clone_statement(&ss[i]));
        i = i + 1;
    }
    assert(view_statements(out@) =~= view_statements(ss@));
    out
}

pub fn clone_statement(s: &Statement) -> (r: Statement)
    ensures
        r@ == s@,
    decreases s,
{
    match s {
        Statement::Expression(e) => Statement::Expression(clone_expression(e)),
        Statement::Assignment(a) => Statement::Assignment(
            Assignment { pattern: clone_pattern(&a.pattern), value: clone_expression(&a.value) },
        ),
        Statement::Return(e) => Statement::Return(
            match e {
                Some(e) => Some(clone_expression(e)),
                None => None,
            },
        ),
        Statement::Break => Statement::Break,
        Statement::Continue => Statement::Continue,
    }
}

pub fn clone_expressions(es: &Vec<Expression>) -> (r: Vec<Expression>)
    ensures
        view_expressions(r@) == view_expressions(es@),
    decreases es,
{
    let mut out: Vec<Expression> = Vec::new();
    let mut i: usize = 0;
    while i < es.len()
        invariant
            i <= es@.len(),
            out@.len() == i,
            forall|j: int| 0 <= j < i ==> view_expression(#[trigger] out@[j]) == view_expression(es@[j]),
        decreases es.len() - i,
    {
        out.push(clone_expression(&es[i]));
        i = i + 1;
    }
    assert(view_expressions(out@) =~= view_expressions(es@));
    out
}

pub fn clone_expression(e: &Expression) -> (r: Expression)
    ensures
        r@ == e@,
    decreases e,
{
    match e {
        Expression::UnaryExpr(u) => Expression::UnaryExpr(clone_unary(u)),
        Expression::BinopExpr(l, op, r) => Expression::BinopExpr(
            clone_unary(l),
            clone_operator(op),
            Box::new(clone_expression(r)),
        ),
        Expression::CastExpr(inner, ty) => Expression::CastExpr(
            Box::new(clone_expression(inner)),
            clone_ident(ty),
        ),
        Expression::Range(r) => Expression::Range(
            RangeExpr {
                start: match &r.start {
                    Some(s) => Some(Box::new(clone_expression(s))),
                    None => None,
                },
                end: match &r.end {
                    Some(s) => Some(Box::new(clone_expression(s))),
                    None => None,
                },
                inclusive: r.inclusive,
            },
        ),
    }
}

pub fn clone_unary(u: &UnaryExpr) -> (r: UnaryExpr)
    ensures
        view_unary(r) == view_unary(*u),
    decreases u,
{
    match u {
        UnaryExpr::PrimaryExpr(p) => UnaryExpr::PrimaryExpr(clone_primary(p)),
        UnaryExpr::UnaryExpr(op, inner) => UnaryExpr::UnaryExpr(
            clone_operator(op),
            Box::new(clone_unary(inner)),
        ),
    }
}

pub fn clone_primary(p: &PrimaryExpr) -> (r: PrimaryExpr)
    ensures
        view_primary(r) == view_primary(*p),
    decreases p,
{
    PrimaryExpr {
        operand: clone_operand(&p.operand),
        secondaries: match &p.secondaries {
            Some(ss) => Some(clone_secondaries(ss)),
            None => None,
        },
    }
}

pub fn clone_secondaries(ss: &Vec<SecondaryExpr>) -> (r: Vec<SecondaryExpr>)
    ensures
        view_secondaries(r@) == view_secondaries(ss@),
    decreases ss,
{
    let mut out: Vec<SecondaryExpr> = Vec::new();
    let mut i: usize = 0;
    while i < ss.len()
        invariant
            i <= ss@.len(),
            out@.len() == i,
            forall|j: int| 0 <= j < i ==> view_secondary(#[trigger] out@[j]) == view_secondary(ss@[j]),
        decreases ss.len() - i,
    {
        out.push(clone_secondary(&ss[i]));
        i = i + 1;
    }
    assert(view_secondaries(out@) =~= view_secondaries(ss@));
    out
}

pub fn clone_secondary(s: &SecondaryExpr) -> (r: SecondaryExpr)
    ensures
        view_secondary(r) == view_secondary(*s),
    decreases s,
{
    match s {
        SecondaryExpr::Arguments(args) => SecondaryExpr::Arguments(clone_arguments(args)),
        SecondaryExpr::Dot(id) => SecondaryExpr::Dot(clone_ident(id)),
        SecondaryExpr::Index(e) => SecondaryExpr::Index(Box::new(clone_expression(e))),
        SecondaryExpr::Interogation => SecondaryExpr::Interogation,
    }
}

/// The place of the line that a `do` entry was read from (none for a comment).
pub open spec fn entry_span(d: DoStatement) -> Option<SourceSpan> {
    match d {
        DoStatement::Bind(_, _, span) => Some(span),
        DoStatement::Statement(_, span) => Some(span),
        DoStatement::Comment(_) => None,
    }
}

/// The places of the lines of `do` entries.
pub open spec fn entry_spans(ds: Seq<DoStatement>) -> Seq<Option<SourceSpan>> {
    ds.map_values(|d: DoStatement| entry_span(d))
}

pub fn clone_do_statement(d: &DoStatement) -> (r: DoStatement)
    ensures
        r@ == d@,
        entry_span(r) == entry_span(*d),
    decreases d,
{
    match d {
        DoStatement::Bind(p, e, span) => DoStatement::Bind(clone_pattern(p), clone_expression(e), *span),
        DoStatement::Statement(s, span) => DoStatement::Statement(clone_statement(s), *span),
        DoStatement::Comment(c) => DoStatement::Comment(c.clone()),
    }
}

pub fn clone_do_statements(ds: &Vec<DoStatement>) -> (r: Vec<DoStatement>)
    ensures
        view_do_statements(r@) == view_do_statements(ds@),
        entry_spans(r@) == entry_spans(ds@),
    decreases ds,
{
    let mut out: Vec<DoStatement> = Vec::new();
    let mut i: usize = 0;
    while i < ds.len()
        invariant
            i <= ds@.len(),
            out@.len() == i,
            forall|j: int| 0 <= j < i ==> view_do_statement(#[trigger] out@[j]) == view_do_statement(ds@[j]),
            forall|j: int| 0 <= j < i ==> entry_span(#[trigger] out@[j]) == entry_span(ds@[j]),
        decreases ds.len() - i,
    {
        out.push(clone_do_statement(&ds[i]));
        i = i + 1;
    }
    assert(view_do_statements(out@) =~= view_do_statements(ds@));
    assert(entry_spans(out@) =~= entry_spans(ds@));
    out
}

pub fn clone_operand(o: &Operand) -> (r: Operand)
    ensures
        r@ == o@,
    decreases o,
{
    match o {
        Operand::Literal(l) => Operand::Literal(clone_literal(l)),
        Operand::Ident(p) => Operand::Ident(clone_path(p)),
        Operand::Expression(e) => Operand::Expression(Box::new(clone_expression(e))),
        Operand::Tuple(es) => Operand::Tuple(clone_expressions(es)),
        Operand::Array(es) => Operand::Array(clone_expressions(es)),
        Operand::ArrayRepeat(v, n) => Operand::ArrayRepeat(
            Box::new(clone_expression(v)),
            Box::new(clone_expression(n)),
        ),
        Operand::LambdaDecl(l) => Operand::LambdaDecl(
            LambdaDecl {
                parameters: clone_patterns(&l.parameters),
                body: clone_block(&l.body),
                arrow_kind: l.arrow_kind,
                span: l.span,
            },
        ),
        Operand::If(i) => Operand::If(
            Box::new(
                If {
                    cond: Box::new(clone_expression(&i.cond)),
                    then_branch: clone_block(&i.then_branch),
                    else_: match &i.else_ {
                        Some(b) => Some(clone_block(b)),
                        None => None,
                    },
                },
            ),
        ),
        Operand::Match(m) => Operand::Match(
            Box::new(
                Match {
                    expr: Box::new(clone_expression(&m.expr)),
                    arms: clone_arms(&m.arms),
                    do_syntax: match &m.do_syntax {
                        Some(ds) => Some(clone_do_statements(ds)),
                        None => None,
                    },
                },
            ),
        ),
        Operand::Loop(b) => Operand::Loop(clone_block(b)),
        Operand::StructCtor(s) => Operand::StructCtor(
            StructCtor { name: clone_path(&s.name), fields: clone_fields(&s.fields) },
        ),
    }
}

pub fn clone_arguments(args: &Vec<Argument>) -> (r: Vec<Argument>)
    ensures
        view_arguments(r@) == view_arguments(args@),
    decreases args,
{
    let mut out: Vec<Argument> = Vec::new();
    let mut i: usize = 0;
    while i < args.len()
        invariant
            i <= args@.len(),
            out@.len() == i,
            forall|j: int| 0 <= j < i ==> view_expression(#[trigger] out@[j].arg) == view_expression(args@[j].arg),
        decreases args.len() - i,
    {
        out.push(Argument { arg: clone_expression(&args[i].arg) });
        i = i + 1;
    }
    assert(view_arguments(out@) =~= view_arguments(args@));
    out
}

pub fn clone_arms(arms: &Vec<MatchArm>) -> (r: Vec<MatchArm>)
    ensures
        view_arms(r@) == view_arms(arms@),
    decreases arms,
{
    let mut out: Vec<MatchArm> = Vec::new();
    let mut i: usize = 0;
    while i < arms.len()
        invariant
            i <= arms@.len(),
            out@.len() == i,
            forall|j: int|
                0 <= j < i ==> view_arms(out@)[j] == #[trigger] view_arms(arms@)[j],
        decreases arms.len() - i,
    {
        let arm = MatchArm {
            pattern: clone_pattern(&arms[i].pattern),
            condition: match &arms[i].condition {
                Some(c) => Some(clone_expression(c)),
                None => None,
            },
            body: clone_block(&arms[i].body),
        };
        let ghost before = out@;
        out.push(arm);
        proof {
            assert forall|j: int| 0 <= j < i + 1 implies view_arms(out@)[j] == #[trigger] view_arms(arms@)[j] by {
                if j < i {
                    assert(out@[j] == before[j]);
                    assert(view_arms(before)[j] == view_arms(arms@)[j]);
                }
            }
        }
        i = i + 1;
    }
    assert(view_arms(out@) =~= view_arms(arms@));
    out
}

pub fn clone_fields(fields: &Vec<StructField>) -> (r: Vec<StructField>)
    ensures
        view_fields(r@) == view_fields(fields@),
    decreases fields,
{
    let mut out: Vec<StructField> = Vec::new();
    let mut i: usize = 0;
    while i < fields.len()
        invariant
            i <= fields@.len(),
            out@.len() == i,
            forall|j: int|
                0 <= j < i ==> (#[trigger] out@[j]).name.name@ == fields@[j].name.name@
                    && view_expression(out@[j].value) == view_expression(fields@[j].value),
        decreases fields.len() - i,
    {
        out.push(
            StructField { name: clone_ident(&fields[i].name), value: clone_expression(&fields[i].value) },
        );
        i = i + 1;
    }
    assert(view_fields(out@) =~= view_fields(fields@));
    out
}

} // verus!
