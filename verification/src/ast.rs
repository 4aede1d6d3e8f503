//! The abstract syntax tree produced by the parser and consumed by the
//! code generator.
//!
//! Every node type has a mathematical twin (suffix `V`) in which strings
//! are character sequences and vectors are sequences; the `view_*`
//! functions map a tree to its twin.  Contracts throughout the crate are
//! stated over the twins.

use vstd::prelude::*;

verus! {

/// Declared type of a variable: a primitive or a class.
#[derive(Clone, PartialEq, Eq, Debug)]
pub enum Type {
    Int,
    Char,
    Boolean,
    ClassName(String),
}

/// Return type of a subroutine: `void`, a primitive, or a class.
#[derive(Clone, PartialEq, Eq, Debug)]
pub enum RetType {
    Void,
    Int,
    Char,
    Boolean,
    ClassName(String),
}

#[derive(Clone, Copy, PartialEq, Eq, Structural, Debug)]
pub enum UnaryOp {
    Negation,
    Not,
}

#[derive(Clone, Copy, PartialEq, Eq, Structural, Debug)]
pub enum BinaryOp {
    Add,
    Minus,
    Mult,
    Div,
    And,
    Or,
    Lt,
    Gt,
    Eq,
}

/// A subroutine call: `Direct` is a bare name (always a method of the
/// same class, on the current receiver); `Indirect` is `qualifier.member`,
/// disambiguated against the symbol table at generation time.
#[derive(PartialEq, Eq, Debug)]
pub enum SubroutineCall {
    Direct(String, Vec<Expression>),
    Indirect(String, String, Vec<Expression>),
}

#[derive(PartialEq, Eq, Debug)]
pub enum Term {
    Array(String, Box<Expression>),
    Parenthesis(Box<Expression>),
    Unary(UnaryOp, Box<Term>),
    SubRoutineCall(SubroutineCall),
    IntegerLiteral(u16),
    StringLiteral(String),
    Variable(String),
    True,
    False,
    Null,
    This,
}

/// A flat left-associative operator chain: `terms[0] ops[0] terms[1] ...`,
/// with no operator precedence.  Valid expressions have
/// `terms.len() == ops.len() + 1`.
#[derive(PartialEq, Eq, Debug)]
pub struct Expression {
    pub ops: Vec<BinaryOp>,
    pub terms: Vec<Term>,
}

#[derive(PartialEq, Eq, Debug)]
pub enum LetStatement {
    Let(String, Expression),
    LetArray(String, Expression, Expression),
}

#[derive(PartialEq, Eq, Debug)]
pub enum IfStatement {
    If(Expression, Vec<Statement>),
    IfElse(Expression, Vec<Statement>, Vec<Statement>),
}

#[derive(PartialEq, Eq, Debug)]
pub struct DoStatement {
    pub call: SubroutineCall,
}

#[derive(PartialEq, Eq, Debug)]
pub struct WhileStatement {
    pub condition: Expression,
    pub statements: Vec<Statement>,
}

#[derive(PartialEq, Eq, Debug)]
pub enum ReturnStatement {
    Return,
    ReturnExpression(Expression),
}

#[derive(PartialEq, Eq, Debug)]
pub enum Statement {
    Let(LetStatement),
    If(IfStatement),
    Do(DoStatement),
    While(WhileStatement),
    Return(ReturnStatement),
}

#[derive(Clone, PartialEq, Eq, Debug)]
pub struct VarDeclaration {
    pub var_type: Type,
    pub var_name: String,
}

#[derive(PartialEq, Eq, Debug)]
pub struct SubRoutineBody {
    pub var_declarations: Vec<VarDeclaration>,
    pub statements: Vec<Statement>,
}

#[derive(PartialEq, Eq, Debug)]
pub enum SubRoutine {
    Constructor(RetType, String, Vec<VarDeclaration>, SubRoutineBody),
    Function(RetType, String, Vec<VarDeclaration>, SubRoutineBody),
    Method(RetType, String, Vec<VarDeclaration>, SubRoutineBody),
}

#[derive(PartialEq, Eq, Debug)]
pub enum ClassVarDeclaration {
    Static(VarDeclaration),
    Field(VarDeclaration),
}

/// One parsed class declaration: the root of the tree.
#[derive(PartialEq, Eq, Debug)]
pub struct ParseTree {
    pub name: String,
    pub var_declarations: Vec<ClassVarDeclaration>,
    pub subroutines: Vec<SubRoutine>,
}

// ---------------------------------------------------------------------
// Mathematical twins.
// ---------------------------------------------------------------------

pub enum TypeV {
    Int,
    Char,
    Boolean,
    ClassName(Seq<char>),
}

pub enum RetTypeV {
    Void,
    Int,
    Char,
    Boolean,
    ClassName(Seq<char>),
}

pub enum SubroutineCallV {
    Direct(Seq<char>, Seq<ExpressionV>),
    Indirect(Seq<char>, Seq<char>, Seq<ExpressionV>),
}

pub enum TermV {
    Array(Seq<char>, Box<ExpressionV>),
    Parenthesis(Box<ExpressionV>),
    Unary(UnaryOp, Box<TermV>),
    SubRoutineCall(SubroutineCallV),
    IntegerLiteral(u16),
    StringLiteral(Seq<char>),
    Variable(Seq<char>),
    True,
    False,
    Null,
    This,
}

pub struct ExpressionV {
    pub ops: Seq<BinaryOp>,
    pub terms: Seq<TermV>,
}

pub enum StatementV {
    Let(Seq<char>, ExpressionV),
    LetArray(Seq<char>, ExpressionV, ExpressionV),
    If(ExpressionV, Seq<StatementV>),
    IfElse(ExpressionV, Seq<StatementV>, Seq<StatementV>),
    Do(SubroutineCallV),
    While(ExpressionV, Seq<StatementV>),
    Return,
    ReturnExpression(ExpressionV),
}

pub struct VarDeclV {
    pub var_type: TypeV,
    pub var_name: Seq<char>,
}

pub struct BodyV {
    pub var_declarations: Seq<VarDeclV>,
    pub statements: Seq<StatementV>,
}

pub enum SubRoutineV {
    Constructor(RetTypeV, Seq<char>, Seq<VarDeclV>, BodyV),
    Function(RetTypeV, Seq<char>, Seq<VarDeclV>, BodyV),
    Method(RetTypeV, Seq<char>, Seq<VarDeclV>, BodyV),
}

pub enum ClassVarDeclV {
    Static(VarDeclV),
    Field(VarDeclV),
}

pub struct TreeV {
    pub name: Seq<char>,
    pub var_declarations: Seq<ClassVarDeclV>,
    pub subroutines: Seq<SubRoutineV>,
}

// ---------------------------------------------------------------------
// Views: from the tree to its twin.
// ---------------------------------------------------------------------

pub open spec fn view_type(t: Type) -> TypeV {
    match t {
        Type::Int => TypeV::Int,
        Type::Char => TypeV::Char,
        Type::Boolean => TypeV::Boolean,
        Type::ClassName(n) => TypeV::ClassName(n@),
    }
}

pub open spec fn view_ret_type(t: RetType) -> RetTypeV {
    match t {
        RetType::Void => RetTypeV::Void,
        RetType::Int => RetTypeV::Int,
        RetType::Char => RetTypeV::Char,
        RetType::Boolean => RetTypeV::Boolean,
        RetType::ClassName(n) => RetTypeV::ClassName(n@),
    }
}

pub open spec fn view_var_decl(d: VarDeclaration) -> VarDeclV {
    VarDeclV { var_type: view_type(d.var_type), var_name: d.var_name@ }
}

pub open spec fn view_var_decls(ds: Seq<VarDeclaration>) -> Seq<VarDeclV> {
    ds.map(|i: int, d: VarDeclaration| view_var_decl(d))
}

pub open spec fn view_expr(e: Expression) -> ExpressionV
    decreases e, 1int,
{
    ExpressionV { ops: e.ops@, terms: view_terms(e.terms@) }
}

pub open spec fn view_terms(ts: Seq<Term>) -> Seq<TermV>
    decreases ts, 1int,
{
    if ts.len() == 0 {
        Seq::empty()
    } else {
        view_terms(ts.drop_last()).push(view_term(ts.last()))
    }
}

pub open spec fn view_term(t: Term) -> TermV
    decreases t, 1int,
{
    match t {
        Term::Array(n, e) => TermV::Array(n@, Box::new(view_expr(*e))),
        Term::Parenthesis(e) => TermV::Parenthesis(Box::new(view_expr(*e))),
        Term::Unary(op, inner) => TermV::Unary(op, Box::new(view_term(*inner))),
        Term::SubRoutineCall(c) => TermV::SubRoutineCall(view_call(c)),
        Term::IntegerLiteral(n) => TermV::IntegerLiteral(n),
        Term::StringLiteral(s) => TermV::StringLiteral(s@),
        Term::Variable(n) => TermV::Variable(n@),
        Term::True => TermV::True,
        Term::False => TermV::False,
        Term::Null => TermV::Null,
        Term::This => TermV::This,
    }
}

pub open spec fn view_call(c: SubroutineCall) -> SubroutineCallV
    decreases c, 1int,
{
    match c {
        SubroutineCall::Direct(n, args) => SubroutineCallV::Direct(n@, view_exprs(args@)),
        SubroutineCall::Indirect(q, n, args) => SubroutineCallV::Indirect(
            q@,
            n@,
            view_exprs(args@),
        ),
    }
}

pub open spec fn view_exprs(es: Seq<Expression>) -> Seq<ExpressionV>
    decreases es, 2int,
{
    if es.len() == 0 {
        Seq::empty()
    } else {
        view_exprs(es.drop_last()).push(view_expr(es.last()))
    }
}

pub open spec fn view_stmt(s: Statement) -> StatementV
    decreases s, 1int,
{
    match s {
        Statement::Let(LetStatement::Let(n, e)) => StatementV::Let(n@, view_expr(e)),
        Statement::Let(LetStatement::LetArray(n, idx, rhs)) => StatementV::LetArray(
            n@,
            view_expr(idx),
            view_expr(rhs),
        ),
        Statement::If(IfStatement::If(c, t)) => StatementV::If(view_expr(c), view_stmts(t@)),
        Statement::If(IfStatement::IfElse(c, t, e)) => StatementV::IfElse(
            view_expr(c),
            view_stmts(t@),
            view_stmts(e@),
        ),
        Statement::Do(d) => StatementV::Do(view_call(d.call)),
        Statement::While(w) => StatementV::While(view_expr(w.condition), view_stmts(w.statements@)),
        Statement::Return(ReturnStatement::Return) => StatementV::Return,
        Statement::Return(ReturnStatement::ReturnExpression(e)) => StatementV::ReturnExpression(
            view_expr(e),
        ),
    }
}

pub open spec fn view_stmts(ss: Seq<Statement>) -> Seq<StatementV>
    decreases ss, 2int,
{
    if ss.len() == 0 {
        Seq::empty()
    } else {
        view_stmts(ss.drop_last()).push(view_stmt(ss.last()))
    }
}

pub open spec fn view_body(b: SubRoutineBody) -> BodyV {
    BodyV { var_declarations: view_var_decls(b.var_declarations@), statements: view_stmts(b.statements@) }
}

pub open spec fn view_subroutine(s: SubRoutine) -> SubRoutineV {
    match s {
        SubRoutine::Constructor(rt, n, ps, b) => SubRoutineV::Constructor(
            view_ret_type(rt),
            n@,
            view_var_decls(ps@),
            view_body(b),
        ),
        SubRoutine::Function(rt, n, ps, b) => SubRoutineV::Function(
            view_ret_type(rt),
            n@,
            view_var_decls(ps@),
            view_body(b),
        ),
        SubRoutine::Method(rt, n, ps, b) => SubRoutineV::Method(
            view_ret_type(rt),
            n@,
            view_var_decls(ps@),
            view_body(b),
        ),
    }
}

pub open spec fn view_class_var(d: ClassVarDeclaration) -> ClassVarDeclV {
    match d {
        ClassVarDeclaration::Static(v) => ClassVarDeclV::Static(view_var_decl(v)),
        ClassVarDeclaration::Field(v) => ClassVarDeclV::Field(view_var_decl(v)),
    }
}

pub open spec fn view_tree(t: ParseTree) -> TreeV {
    TreeV {
        name: t.name@,
        var_declarations: view_class_vars(t.var_declarations@),
        subroutines: view_subroutines(t.subroutines@),
    }
}

impl Type {
    /// A structurally equal copy.
    pub fn dup(&self) -> (r: Type)
        ensures
            r == *self,
    {
        match self {
            Type::Int => Type::Int,
            Type::Char => Type::Char,
            Type::Boolean => Type::Boolean,
            Type::ClassName(s) => Type::ClassName(s.clone()),
        }
    }
}

impl VarDeclaration {
    /// A structurally equal copy.
    pub fn dup(&self) -> (r: VarDeclaration)
        ensures
            r == *self,
    {
        VarDeclaration { var_type: self.var_type.dup(), var_name: self.var_name.clone() }
    }
}

/// The view of a class-variable declaration list.
pub open spec fn view_class_vars(ds: Seq<ClassVarDeclaration>) -> Seq<ClassVarDeclV> {
    ds.map(|i: int, d: ClassVarDeclaration| view_class_var(d))
}

/// The view of a subroutine list.
pub open spec fn view_subroutines(ss: Seq<SubRoutine>) -> Seq<SubRoutineV> {
    ss.map(|i: int, s: SubRoutine| view_subroutine(s))
}

/// Viewing commutes with appending, prepending and concatenating, for
/// each of the list views the parser builds up.
pub proof fn lemma_view_terms_push(ts: Seq<Term>, t: Term)
    ensures
        view_terms(ts.push(t)) == view_terms(ts).push(view_term(t)),
{
    assert(ts.push(t).drop_last() =~= ts);
    assert(view_terms(ts.push(t)) =~= view_terms(ts).push(view_term(t)));
}

pub proof fn lemma_view_stmts_cons(s: Statement, ss: Seq<Statement>)
    ensures
        view_stmts(ss.insert(0, s)) == seq![view_stmt(s)] + view_stmts(ss),
    decreases ss.len(),
{
    let whole = ss.insert(0, s);
    if ss.len() == 0 {
        assert(whole =~= seq![s]);
        assert(whole.drop_last() =~= Seq::<Statement>::empty());
        assert(view_stmts(Seq::<Statement>::empty()) == Seq::<StatementV>::empty());
        assert(view_stmts(whole) == Seq::<StatementV>::empty().push(view_stmt(s)));
        assert(Seq::<StatementV>::empty().push(view_stmt(s)) =~= seq![view_stmt(s)] + view_stmts(
            ss,
        ));
    } else {
        assert(whole.drop_last() =~= ss.drop_last().insert(0, s));
        assert(whole.last() == ss.last());
        lemma_view_stmts_cons(s, ss.drop_last());
        assert(view_stmts(whole) == (seq![view_stmt(s)] + view_stmts(ss.drop_last())).push(
            view_stmt(ss.last()),
        ));
        assert(view_stmts(ss) == view_stmts(ss.drop_last()).push(view_stmt(ss.last())));
        assert((seq![view_stmt(s)] + view_stmts(ss.drop_last())).push(view_stmt(ss.last())) =~= seq![
            view_stmt(s),
        ] + view_stmts(ss.drop_last()).push(view_stmt(ss.last())));
    }
}

pub proof fn lemma_view_var_decls_cons(d: VarDeclaration, ds: Seq<VarDeclaration>)
    ensures
        view_var_decls(ds.insert(0, d)) == seq![view_var_decl(d)] + view_var_decls(ds),
{
    assert(view_var_decls(ds.insert(0, d)) =~= seq![view_var_decl(d)] + view_var_decls(ds));
}

pub proof fn lemma_view_var_decls_concat(a: Seq<VarDeclaration>, b: Seq<VarDeclaration>)
    ensures
        view_var_decls(a + b) == view_var_decls(a) + view_var_decls(b),
{
    assert(view_var_decls(a + b) =~= view_var_decls(a) + view_var_decls(b));
}

pub proof fn lemma_view_class_vars_push(ds: Seq<ClassVarDeclaration>, d: ClassVarDeclaration)
    ensures
        view_class_vars(ds.push(d)) == view_class_vars(ds).push(view_class_var(d)),
{
    assert(view_class_vars(ds.push(d)) =~= view_class_vars(ds).push(view_class_var(d)));
}

pub proof fn lemma_view_class_vars_concat(a: Seq<ClassVarDeclaration>, b: Seq<ClassVarDeclaration>)
    ensures
        view_class_vars(a + b) == view_class_vars(a) + view_class_vars(b),
{
    assert(view_class_vars(a + b) =~= view_class_vars(a) + view_class_vars(b));
}

pub proof fn lemma_view_subroutines_insert0(s: SubRoutine, ss: Seq<SubRoutine>)
    ensures
        view_subroutines(ss.insert(0, s)) == view_subroutines(ss).insert(0, view_subroutine(s)),
{
    assert(view_subroutines(ss.insert(0, s)) =~= view_subroutines(ss).insert(
        0,
        view_subroutine(s),
    ));
}

/// Pointwise reading of `view_stmts`.
pub proof fn lemma_view_stmts_index(ss: Seq<Statement>)
    ensures
        view_stmts(ss).len() == ss.len(),
        forall|k: int| 0 <= k < ss.len() ==> #[trigger] view_stmts(ss)[k] == view_stmt(ss[k]),
    decreases ss.len(),
{
    if ss.len() > 0 {
        lemma_view_stmts_index(ss.drop_last());
    }
}

/// Pointwise reading of `view_terms`.
pub proof fn lemma_view_terms_index(ts: Seq<Term>)
    ensures
        view_terms(ts).len() == ts.len(),
        forall|k: int| 0 <= k < ts.len() ==> #[trigger] view_terms(ts)[k] == view_term(ts[k]),
    decreases ts.len(),
{
    if ts.len() > 0 {
        lemma_view_terms_index(ts.drop_last());
    }
}

/// Pointwise reading of `view_exprs`.
pub proof fn lemma_view_exprs_index(es: Seq<Expression>)
    ensures
        view_exprs(es).len() == es.len(),
        forall|k: int| 0 <= k < es.len() ==> #[trigger] view_exprs(es)[k] == view_expr(es[k]),
    decreases es.len(),
{
    if es.len() > 0 {
        lemma_view_exprs_index(es.drop_last());
    }
}

impl View for Expression {
    type V = ExpressionV;

    open spec fn view(&self) -> ExpressionV {
        view_expr(*self)
    }
}

impl View for Term {
    type V = TermV;

    open spec fn view(&self) -> TermV {
        view_term(*self)
    }
}

impl View for Statement {
    type V = StatementV;

    open spec fn view(&self) -> StatementV {
        view_stmt(*self)
    }
}

impl View for ParseTree {
    type V = TreeV;

    open spec fn view(&self) -> TreeV {
        view_tree(*self)
    }
}


impl Expression {
    pub fn ops(&self) -> (r: &Vec<BinaryOp>)
        ensures
            *r == self.ops,
    {
        &self.ops
    }

    pub fn terms(&self) -> (r: &Vec<Term>)
        ensures
            *r == self.terms,
    {
        &self.terms
    }
}

impl DoStatement {
    pub fn call(&self) -> (r: &SubroutineCall)
        ensures
            *r == self.call,
    {
        &self.call
    }
}

impl WhileStatement {
    pub fn condition(&self) -> (r: &Expression)
        ensures
            *r == self.condition,
    {
        &self.condition
    }

    pub fn statements(&self) -> (r: &Vec<Statement>)
        ensures
            *r == self.statements,
    {
        &self.statements
    }
}

impl VarDeclaration {
    pub fn var_type(&self) -> (r: &Type)
        ensures
            *r == self.var_type,
    {
        &self.var_type
    }

    pub fn var_name(&self) -> (r: &String)
        ensures
            *r == self.var_name,
    {
        &self.var_name
    }
}

impl SubRoutineBody {
    pub fn var_declarations(&self) -> (r: &Vec<VarDeclaration>)
        ensures
            *r == self.var_declarations,
    {
        &self.var_declarations
    }

    pub fn statements(&self) -> (r: &Vec<Statement>)
        ensures
            *r == self.statements,
    {
        &self.statements
    }
}

impl ParseTree {
    pub fn name(&self) -> (r: &String)
        ensures
            *r == self.name,
    {
        &self.name
    }

    pub fn var_declarations(&self) -> (r: &Vec<ClassVarDeclaration>)
        ensures
            *r == self.var_declarations,
    {
        &self.var_declarations
    }

    pub fn subroutines(&self) -> (r: &Vec<SubRoutine>)
        ensures
            *r == self.subroutines,
    {
        &self.subroutines
    }
}
} // verus!
