//! The code generator: lowers a parsed class declaration into
//! stack-machine instructions.
//!
//! The spec functions (`spec_gen_*`) define the generated instruction
//! sequence mathematically; the executable functions produce exactly
//! that sequence, or fail exactly when the spec says no sequence exists
//! (an unresolvable identifier, a method call on a primitive-typed
//! value, a string character above 16 bits, or a malformed tree).

use vstd::prelude::*;

use crate::ast::BinaryOp;
use crate::ast::BodyV;
use crate::ast::ClassVarDeclaration;
use crate::ast::Expression;
use crate::ast::ExpressionV;
use crate::ast::IfStatement;
use crate::ast::LetStatement;
use crate::ast::ParseTree;
use crate::ast::ReturnStatement;
use crate::ast::Statement;
use crate::ast::StatementV;
use crate::ast::SubRoutine;
use crate::ast::SubRoutineBody;
use crate::ast::SubRoutineV;
use crate::ast::SubroutineCall;
use crate::ast::SubroutineCallV;
use crate::ast::Term;
use crate::ast::TermV;
use crate::ast::TreeV;
use crate::ast::TypeV;
use crate::ast::UnaryOp;
use crate::ast::VarDeclV;
use crate::ast::VarDeclaration;
use crate::ast::view_body;
use crate::ast::view_call;
use crate::ast::view_expr;
use crate::ast::view_exprs;
use crate::ast::view_stmt;
use crate::ast::view_stmts;
use crate::ast::view_subroutine;
use crate::ast::view_term;
use crate::ast::view_terms;
use crate::ast::view_tree;
use crate::ast::view_var_decls;
use crate::errors::CodegenError;
use crate::symbols::ClassSymbolTable;
use crate::symbols::LocalSymbolTable;
use crate::symbols::SymEntry;
use crate::symbols::SymEntryV;
use crate::symbols::SymView;
use crate::symbols::SymbolTable;
use crate::symbols::VarKind;
use crate::symbols::VarKindV;
use crate::symbols::entry_field_count;
use crate::symbols::spec_class_entries;
use crate::symbols::spec_local_entries;
use crate::symbols::view_entry;
use crate::vm::InsV;
use crate::vm::Segment;
use crate::vm::VmInstruction;
use crate::vm::dec_seq;
use crate::vm::dec_str;
use crate::vm::view_code;

verus! {

// ---------------------------------------------------------------------
// Spec: small mappings.
// ---------------------------------------------------------------------

/// The storage segment a symbol of the given kind lives in.
pub open spec fn spec_seg_of(k: VarKindV) -> Segment {
    match k {
        VarKindV::Static(_) => Segment::Static,
        VarKindV::Field(_) => Segment::This,
        VarKindV::Arg(_) => Segment::Argument,
        VarKindV::Var(_) => Segment::Local,
    }
}

/// The instruction for a binary operator.  Multiplication and division
/// are calls, because the machine has no native instruction for them.
pub open spec fn spec_op_ins(op: BinaryOp) -> InsV {
    match op {
        BinaryOp::Add => InsV::Add,
        BinaryOp::Minus => InsV::Sub,
        BinaryOp::Mult => InsV::Call("Math.multiply"@, 2),
        BinaryOp::Div => InsV::Call("Math.divide"@, 2),
        BinaryOp::And => InsV::And,
        BinaryOp::Or => InsV::Or,
        BinaryOp::Lt => InsV::Lt,
        BinaryOp::Gt => InsV::Gt,
        BinaryOp::Eq => InsV::Eq,
    }
}

/// The class name of a symbol's declared type, if that type is a class.
pub open spec fn spec_type_class(k: VarKindV) -> Option<Seq<char>> {
    let t = match k {
        VarKindV::Static(t) => t,
        VarKindV::Field(t) => t,
        VarKindV::Arg(t) => t,
        VarKindV::Var(t) => t,
    };
    match t {
        TypeV::ClassName(c) => Some(c),
        _ => None,
    }
}

pub open spec fn push_of(e: SymEntryV) -> InsV {
    InsV::Push(spec_seg_of(e.kind), e.index)
}

pub open spec fn pop_of(e: SymEntryV) -> InsV {
    InsV::Pop(spec_seg_of(e.kind), e.index)
}

/// `a.b`: a subroutine's fully qualified name.
pub open spec fn qual_name(a: Seq<char>, b: Seq<char>) -> Seq<char> {
    a + "."@ + b
}

/// A structured-control-flow label, namespaced by the subroutine's full
/// name so that labels never collide across subroutines.
pub open spec fn label_name(full: Seq<char>, kind: Seq<char>, c: int) -> Seq<char> {
    full + "$"@ + kind + dec_seq(c as nat)
}

/// Resolution, as the code generator sees it.
pub open spec fn spec_resolve(st: SymView, name: Seq<char>) -> Option<SymEntryV> {
    crate::symbols::spec_resolve(st, name)
}

// ---------------------------------------------------------------------
// Spec: expressions and calls.
// ---------------------------------------------------------------------

/// Code for the string-literal character loop: for each character, push
/// its code and append it to the string under construction.  No sequence
/// exists if a character does not fit in 16 bits.
pub open spec fn spec_gen_string(s: Seq<char>) -> Option<Seq<InsV>>
    decreases s.len(),
{
    if s.len() == 0 {
        Some(Seq::empty())
    } else {
        match spec_gen_string(s.drop_last()) {
            Some(pre) => if (s.last() as u32) > 0xffff {
                None
            } else {
                Some(
                    pre + seq![
                        InsV::Push(Segment::Constant, (s.last() as u32) as int),
                        InsV::Call("String.appendChar"@, 2),
                    ],
                )
            },
            None => None,
        }
    }
}

/// Code for one term: leaves exactly one value on the stack.
pub open spec fn spec_gen_term(st: SymView, class: Seq<char>, t: TermV) -> Option<Seq<InsV>>
    decreases t, 3int, 0int,
{
    match t {
        TermV::Array(name, e) => match spec_resolve(st, name) {
            Some(en) => match spec_gen_expr(st, class, *e) {
                Some(ec) => Some(
                    seq![push_of(en)] + ec + seq![
                        InsV::Add,
                        InsV::Pop(Segment::Pointer, 1),
                        InsV::Push(Segment::That, 0),
                    ],
                ),
                None => None,
            },
            None => None,
        },
        TermV::Parenthesis(e) => spec_gen_expr(st, class, *e),
        TermV::Unary(op, inner) => match spec_gen_term(st, class, *inner) {
            Some(tc) => Some(
                tc + seq![
                    match op {
                        UnaryOp::Negation => InsV::Neg,
                        UnaryOp::Not => InsV::Not,
                    },
                ],
            ),
            None => None,
        },
        TermV::SubRoutineCall(c) => spec_gen_call(st, class, c),
        TermV::IntegerLiteral(n) => Some(seq![InsV::Push(Segment::Constant, n as int)]),
        TermV::StringLiteral(s) => match spec_gen_string(s) {
            Some(chars) => Some(
                seq![
                    InsV::Push(Segment::Constant, s.len() as int),
                    InsV::Call("String.new"@, 1),
                ] + chars,
            ),
            None => None,
        },
        TermV::Variable(name) => match spec_resolve(st, name) {
            Some(en) => Some(seq![push_of(en)]),
            None => None,
        },
        TermV::True => Some(seq![InsV::Push(Segment::Constant, 1), InsV::Neg]),
        TermV::False => Some(seq![InsV::Push(Segment::Constant, 0)]),
        TermV::Null => Some(seq![InsV::Push(Segment::Constant, 0)]),
        TermV::This => Some(seq![InsV::Push(Segment::Pointer, 0)]),
    }
}

/// Code for the first `k` terms of a flat operator chain, evaluated
/// strictly left to right with no precedence.
pub open spec fn spec_gen_chain(st: SymView, class: Seq<char>, e: ExpressionV, k: int) -> Option<
    Seq<InsV>,
>
    decreases e.terms, 1int, k,
{
    if k <= 0 || k > e.terms.len() {
        None
    } else if k == 1 {
        spec_gen_term(st, class, e.terms[0])
    } else {
        match spec_gen_chain(st, class, e, k - 1) {
            Some(pre) => match spec_gen_term(st, class, e.terms[k - 1]) {
                Some(tc) => Some(pre + tc + seq![spec_op_ins(e.ops[k - 2])]),
                None => None,
            },
            None => None,
        }
    }
}

/// Code for one expression: the whole chain.  A structurally malformed
/// expression (term and operator counts out of step) has no code.
pub open spec fn spec_gen_expr(st: SymView, class: Seq<char>, e: ExpressionV) -> Option<Seq<InsV>>
    decreases e, 2int, 0int,
{
    if e.terms.len() == e.ops.len() + 1 {
        spec_gen_chain(st, class, e, e.terms.len() as int)
    } else {
        None
    }
}

/// Code for an argument list: each argument's value, left to right.
pub open spec fn spec_gen_args(st: SymView, class: Seq<char>, es: Seq<ExpressionV>) -> Option<
    Seq<InsV>,
>
    decreases es, 1int, 0int,
{
    if es.len() == 0 {
        Some(Seq::empty())
    } else {
        match spec_gen_args(st, class, es.drop_last()) {
            Some(pre) => match spec_gen_expr(st, class, es.last()) {
                Some(ec) => Some(pre + ec),
                None => None,
            },
            None => None,
        }
    }
}

/// Code for a subroutine call.
///
/// A bare name is always a method of the same class on the current
/// receiver.  A qualified name is a method call on a variable if the
/// qualifier resolves (using the variable's declared class as the
/// callee's class; primitives expose no methods), and otherwise a
/// class-level call with no receiver.
pub open spec fn spec_gen_call(st: SymView, class: Seq<char>, c: SubroutineCallV) -> Option<
    Seq<InsV>,
>
    decreases c, 2int, 0int,
{
    match c {
        SubroutineCallV::Direct(name, args) => match spec_gen_args(st, class, args) {
            Some(ac) => if args.len() + 1 <= usize::MAX {
                Some(
                    seq![InsV::Push(Segment::Pointer, 0)] + ac + seq![
                        InsV::Call(qual_name(class, name), args.len() as int + 1),
                    ],
                )
            } else {
                None
            },
            None => None,
        },
        SubroutineCallV::Indirect(q, m, args) => match spec_resolve(st, q) {
            Some(en) => match spec_type_class(en.kind) {
                Some(cn) => match spec_gen_args(st, class, args) {
                    Some(ac) => if args.len() + 1 <= usize::MAX {
                        Some(
                            seq![push_of(en)] + ac + seq![
                                InsV::Call(qual_name(cn, m), args.len() as int + 1),
                            ],
                        )
                    } else {
                        None
                    },
                    None => None,
                },
                None => None,
            },
            None => match spec_gen_args(st, class, args) {
                Some(ac) => Some(ac + seq![InsV::Call(qual_name(q, m), args.len() as int)]),
                None => None,
            },
        },
    }
}

// ---------------------------------------------------------------------
// Spec: statements.
// ---------------------------------------------------------------------

/// Code for one statement, threading the subroutine's label counter:
/// the result pairs the instructions with the counter value after the
/// statement.  Fresh labels use counter values starting at `c`.
pub open spec fn spec_gen_stmt(
    st: SymView,
    class: Seq<char>,
    full: Seq<char>,
    s: StatementV,
    c: int,
) -> Option<(Seq<InsV>, int)>
    decreases s, 2int, 0int,
{
    match s {
        StatementV::Let(name, e) => match spec_resolve(st, name) {
            Some(en) => match spec_gen_expr(st, class, e) {
                Some(ec) => Some((ec + seq![pop_of(en)], c)),
                None => None,
            },
            None => None,
        },
        StatementV::LetArray(name, idx, rhs) => match spec_resolve(st, name) {
            Some(en) => match spec_gen_expr(st, class, idx) {
                Some(ic) => match spec_gen_expr(st, class, rhs) {
                    Some(rc) => Some(
                        (
                            seq![push_of(en)] + ic + seq![InsV::Add] + rc + seq![
                                InsV::Pop(Segment::Temp, 0),
                                InsV::Pop(Segment::Pointer, 1),
                                InsV::Push(Segment::Temp, 0),
                                InsV::Pop(Segment::That, 0),
                            ],
                            c,
                        ),
                    ),
                    None => None,
                },
                None => None,
            },
            None => None,
        },
        StatementV::If(cond, then) => if c >= u32::MAX as int {
            None
        } else {
            let end_l = label_name(full, "end"@, c);
            match spec_gen_expr(st, class, cond) {
                Some(cc) => match spec_gen_stmts(st, class, full, then, c + 1) {
                    Some((tc, c1)) => Some(
                        (
                            cc + seq![InsV::Not, InsV::IfGoto(end_l)] + tc + seq![
                                InsV::Label(end_l),
                            ],
                            c1,
                        ),
                    ),
                    None => None,
                },
                None => None,
            }
        },
        StatementV::IfElse(cond, then, els) => if c + 1 >= u32::MAX as int {
            None
        } else {
            let else_l = label_name(full, "else"@, c);
            let end_l = label_name(full, "end"@, c + 1);
            match spec_gen_expr(st, class, cond) {
                Some(cc) => match spec_gen_stmts(st, class, full, then, c + 2) {
                    Some((tc, c1)) => match spec_gen_stmts(st, class, full, els, c1) {
                        Some((ec, c2)) => Some(
                            (
                                cc + seq![InsV::Not, InsV::IfGoto(else_l)] + tc + seq![
                                    InsV::Goto(end_l),
                                    InsV::Label(else_l),
                                ] + ec + seq![InsV::Label(end_l)],
                                c2,
                            ),
                        ),
                        None => None,
                    },
                    None => None,
                },
                None => None,
            }
        },
        StatementV::Do(call) => match spec_gen_call(st, class, call) {
            Some(cc) => Some((cc + seq![InsV::Pop(Segment::Temp, 0)], c)),
            None => None,
        },
        StatementV::While(cond, body) => if c + 1 >= u32::MAX as int {
            None
        } else {
            let start_l = label_name(full, "start"@, c);
            let end_l = label_name(full, "end"@, c + 1);
            match spec_gen_expr(st, class, cond) {
                Some(cc) => match spec_gen_stmts(st, class, full, body, c + 2) {
                    Some((bc, c1)) => Some(
                        (
                            seq![InsV::Label(start_l)] + cc + seq![InsV::Not, InsV::IfGoto(end_l)]
                                + bc + seq![InsV::Goto(start_l), InsV::Label(end_l)],
                            c1,
                        ),
                    ),
                    None => None,
                },
                None => None,
            }
        },
        StatementV::Return => Some((seq![InsV::Push(Segment::Constant, 0), InsV::Return], c)),
        StatementV::ReturnExpression(e) => match spec_gen_expr(st, class, e) {
            Some(ec) => Some((ec + seq![InsV::Return], c)),
            None => None,
        },
    }
}

/// Code for a statement list, left to right, threading the counter.
pub open spec fn spec_gen_stmts(
    st: SymView,
    class: Seq<char>,
    full: Seq<char>,
    ss: Seq<StatementV>,
    c: int,
) -> Option<(Seq<InsV>, int)>
    decreases ss, 1int, 0int,
{
    if ss.len() == 0 {
        Some((Seq::empty(), c))
    } else {
        match spec_gen_stmts(st, class, full, ss.drop_last(), c) {
            Some((pre, c1)) => match spec_gen_stmt(st, class, full, ss.last(), c1) {
                Some((sc, c2)) => Some((pre + sc, c2)),
                None => None,
            },
            None => None,
        }
    }
}

// ---------------------------------------------------------------------
// Spec: subroutines and the whole class.
// ---------------------------------------------------------------------

/// Code for a constructor: header, allocation of one word per field,
/// binding of the fresh address as the receiver, then the body.
pub open spec fn spec_gen_constructor(
    class: Seq<char>,
    ct: Seq<SymEntryV>,
    name: Seq<char>,
    params: Seq<VarDeclV>,
    body: BodyV,
) -> Option<Seq<InsV>> {
    let full = qual_name(class, name);
    let st = SymView {
        class: ct,
        local: spec_local_entries(params, body.var_declarations, None),
        filter_field: false,
    };
    match spec_gen_stmts(st, class, full, body.statements, 0) {
        Some((code, _)) => Some(
            seq![
                InsV::Function(full, body.var_declarations.len() as int),
                InsV::Push(Segment::Constant, entry_field_count(ct)),
                InsV::Call("Memory.alloc"@, 1),
                InsV::Pop(Segment::Pointer, 0),
            ] + code,
        ),
        None => None,
    }
}

/// Code for a class-level function: header only; no receiver exists and
/// `field` entries are invisible to the body.
pub open spec fn spec_gen_function(
    class: Seq<char>,
    ct: Seq<SymEntryV>,
    name: Seq<char>,
    params: Seq<VarDeclV>,
    body: BodyV,
) -> Option<Seq<InsV>> {
    let full = qual_name(class, name);
    let st = SymView {
        class: ct,
        local: spec_local_entries(params, body.var_declarations, None),
        filter_field: true,
    };
    match spec_gen_stmts(st, class, full, body.statements, 0) {
        Some((code, _)) => Some(
            seq![InsV::Function(full, body.var_declarations.len() as int)] + code,
        ),
        None => None,
    }
}

/// Code for a method: header, then binding of the first incoming
/// argument (the receiver) before the body; the receiver is also
/// argument 0 in the local table.
pub open spec fn spec_gen_method(
    class: Seq<char>,
    ct: Seq<SymEntryV>,
    name: Seq<char>,
    params: Seq<VarDeclV>,
    body: BodyV,
) -> Option<Seq<InsV>> {
    let full = qual_name(class, name);
    let st = SymView {
        class: ct,
        local: spec_local_entries(params, body.var_declarations, Some(class)),
        filter_field: false,
    };
    match spec_gen_stmts(st, class, full, body.statements, 0) {
        Some((code, _)) => Some(
            seq![
                InsV::Function(full, body.var_declarations.len() as int),
                InsV::Push(Segment::Argument, 0),
                InsV::Pop(Segment::Pointer, 0),
            ] + code,
        ),
        None => None,
    }
}

pub open spec fn spec_gen_subroutine(class: Seq<char>, ct: Seq<SymEntryV>, s: SubRoutineV) -> Option<
    Seq<InsV>,
> {
    match s {
        SubRoutineV::Constructor(_, name, params, body) => spec_gen_constructor(
            class,
            ct,
            name,
            params,
            body,
        ),
        SubRoutineV::Function(_, name, params, body) => spec_gen_function(
            class,
            ct,
            name,
            params,
            body,
        ),
        SubRoutineV::Method(_, name, params, body) => spec_gen_method(class, ct, name, params, body),
    }
}

/// Code for a list of subroutines, in order.
pub open spec fn spec_gen_subs(class: Seq<char>, ct: Seq<SymEntryV>, subs: Seq<SubRoutineV>) -> Option<
    Seq<InsV>,
>
    decreases subs.len(),
{
    if subs.len() == 0 {
        Some(Seq::empty())
    } else {
        match spec_gen_subs(class, ct, subs.drop_last()) {
            Some(pre) => match spec_gen_subroutine(class, ct, subs.last()) {
                Some(sc) => Some(pre + sc),
                None => None,
            },
            None => None,
        }
    }
}

/// Code for a whole class declaration: the class table is built once,
/// and each subroutine is generated against it with a fresh local table
/// and a fresh label counter.
pub open spec fn spec_generate(t: TreeV) -> Option<Seq<InsV>> {
    spec_gen_subs(t.name, spec_class_entries(t.var_declarations), t.subroutines)
}

/// The first subroutine of the class whose generation fails, if any:
/// generation aborts there, and the error is wrapped with that
/// subroutine's name.
pub open spec fn spec_failing_sub(
    class: Seq<char>,
    ct: Seq<SymEntryV>,
    subs: Seq<SubRoutineV>,
) -> Option<SubRoutineV>
    decreases subs.len(),
{
    if subs.len() == 0 {
        None
    } else if spec_failing_sub(class, ct, subs.drop_last()) is Some {
        spec_failing_sub(class, ct, subs.drop_last())
    } else if spec_gen_subroutine(class, ct, subs.last()) is None {
        Some(subs.last())
    } else {
        None
    }
}

/// The context that `generate` wraps a failing subroutine's error in:
/// its kind and its qualified name.
pub open spec fn gen_context_msg(class: Seq<char>, s: SubRoutineV) -> Seq<char> {
    match s {
        SubRoutineV::Constructor(_, name, _, _) => "Failed to generate code for constructor "@
            + qual_name(class, name),
        SubRoutineV::Function(_, name, _, _) => "Failed to generate code for function "@
            + qual_name(class, name),
        SubRoutineV::Method(_, name, _, _) => "Failed to generate code for method "@ + qual_name(
            class,
            name,
        ),
    }
}

// ---------------------------------------------------------------------
// None propagates forward through the list-shaped spec functions.
// ---------------------------------------------------------------------

proof fn lemma_chain_none(st: SymView, class: Seq<char>, e: ExpressionV, k: int, n: int)
    requires
        1 <= k <= n,
        spec_gen_chain(st, class, e, k) is None,
    ensures
        spec_gen_chain(st, class, e, n) is None,
    decreases n - k,
{
    if k < n {
        lemma_chain_none(st, class, e, k + 1, n);
    }
}

proof fn lemma_args_none(st: SymView, class: Seq<char>, es: Seq<ExpressionV>, k: int, n: int)
    requires
        0 <= k <= n <= es.len(),
        spec_gen_args(st, class, es.take(k)) is None,
    ensures
        spec_gen_args(st, class, es.take(n)) is None,
    decreases n - k,
{
    if k < n {
        assert(es.take(k + 1).drop_last() =~= es.take(k));
        lemma_args_none(st, class, es, k + 1, n);
    }
}

proof fn lemma_string_none(s: Seq<char>, k: int, n: int)
    requires
        0 <= k <= n <= s.len(),
        spec_gen_string(s.take(k)) is None,
    ensures
        spec_gen_string(s.take(n)) is None,
    decreases n - k,
{
    if k < n {
        assert(s.take(k + 1).drop_last() =~= s.take(k));
        lemma_string_none(s, k + 1, n);
    }
}

proof fn lemma_stmts_none(
    st: SymView,
    class: Seq<char>,
    full: Seq<char>,
    ss: Seq<StatementV>,
    c: int,
    k: int,
    n: int,
)
    requires
        0 <= k <= n <= ss.len(),
        spec_gen_stmts(st, class, full, ss.take(k), c) is None,
    ensures
        spec_gen_stmts(st, class, full, ss.take(n), c) is None,
    decreases n - k,
{
    if k < n {
        assert(ss.take(k + 1).drop_last() =~= ss.take(k));
        lemma_stmts_none(st, class, full, ss, c, k + 1, n);
    }
}

proof fn lemma_subs_none(class: Seq<char>, ct: Seq<SymEntryV>, subs: Seq<SubRoutineV>, k: int, n: int)
    requires
        0 <= k <= n <= subs.len(),
        spec_gen_subs(class, ct, subs.take(k)) is None,
    ensures
        spec_gen_subs(class, ct, subs.take(n)) is None,
    decreases n - k,
{
    if k < n {
        assert(subs.take(k + 1).drop_last() =~= subs.take(k));
        lemma_subs_none(class, ct, subs, k + 1, n);
    }
}

/// A list that generates whole has no failing subroutine.
proof fn lemma_subs_ok_no_failing(class: Seq<char>, ct: Seq<SymEntryV>, subs: Seq<SubRoutineV>)
    requires
        spec_gen_subs(class, ct, subs) is Some,
    ensures
        spec_failing_sub(class, ct, subs) is None,
    decreases subs.len(),
{
    if subs.len() > 0 {
        lemma_subs_ok_no_failing(class, ct, subs.drop_last());
    }
}

/// Once a prefix has a failing subroutine, every longer prefix fails at
/// the same one.
proof fn lemma_failing_persists(
    class: Seq<char>,
    ct: Seq<SymEntryV>,
    subs: Seq<SubRoutineV>,
    k: int,
    n: int,
)
    requires
        0 < k <= n <= subs.len(),
        spec_failing_sub(class, ct, subs.take(k)) is Some,
    ensures
        spec_failing_sub(class, ct, subs.take(n)) == spec_failing_sub(class, ct, subs.take(k)),
    decreases n - k,
{
    if k < n {
        lemma_failing_persists(class, ct, subs, k, n - 1);
        assert(subs.take(n).drop_last() =~= subs.take(n - 1));
    }
}

/// When every subroutine before `i` generates and the one at `i` does
/// not, the whole class's first failing subroutine is the one at `i`.
proof fn lemma_first_failing(class: Seq<char>, ct: Seq<SymEntryV>, subs: Seq<SubRoutineV>, i: int)
    requires
        0 <= i < subs.len(),
        spec_gen_subs(class, ct, subs.take(i)) is Some,
        spec_gen_subroutine(class, ct, subs[i]) is None,
    ensures
        spec_failing_sub(class, ct, subs) == Some(subs[i]),
{
    lemma_subs_ok_no_failing(class, ct, subs.take(i));
    assert(subs.take(i + 1).drop_last() =~= subs.take(i));
    assert(subs.take(i + 1).last() == subs[i]);
    assert(spec_failing_sub(class, ct, subs.take(i + 1)) == Some(subs[i]));
    lemma_failing_persists(class, ct, subs, i + 1, subs.len() as int);
    assert(subs.take(subs.len() as int) =~= subs);
}

// ---------------------------------------------------------------------
// Executable helpers.
// ---------------------------------------------------------------------

/// The storage segment a symbol lives in.
pub fn get_segment(kind: &VarKind) -> (s: Segment)
    ensures
        s == spec_seg_of(crate::symbols::view_var_kind(*kind)),
{
    match kind {
        VarKind::Static(_) => Segment::Static,
        VarKind::Field(_) => Segment::This,
        VarKind::Arg(_) => Segment::Argument,
        VarKind::Var(_) => Segment::Local,
    }
}

/// The instruction emitted for a binary operator.
pub fn get_binary_op_ins(binary_op: &BinaryOp) -> (r: VmInstruction)
    ensures
        r@ == spec_op_ins(*binary_op),
{
    match binary_op {
        BinaryOp::Add => VmInstruction::Add,
        BinaryOp::Minus => VmInstruction::Sub,
        BinaryOp::Mult => VmInstruction::Call(String::from_str("Math.multiply"), 2),
        BinaryOp::Div => VmInstruction::Call(String::from_str("Math.divide"), 2),
        BinaryOp::And => VmInstruction::And,
        BinaryOp::Or => VmInstruction::Or,
        BinaryOp::Lt => VmInstruction::Lt,
        BinaryOp::Gt => VmInstruction::Gt,
        BinaryOp::Eq => VmInstruction::Eq,
    }
}

fn push_for(e: &SymEntry) -> (r: VmInstruction)
    ensures
        r@ == push_of(view_entry(*e)),
{
    VmInstruction::Push(get_segment(&e.kind), e.index)
}

fn pop_for(e: &SymEntry) -> (r: VmInstruction)
    ensures
        r@ == pop_of(view_entry(*e)),
{
    VmInstruction::Pop(get_segment(&e.kind), e.index)
}

/// Append one instruction, keeping the view equation.
fn push_ins(code: &mut Vec<VmInstruction>, i: VmInstruction)
    ensures
        view_code(final(code)@) == view_code(old(code)@).push(i@),
{
    let ghost pre = code@;
    code.push(i);
    proof {
        crate::vm::lemma_view_code_push(pre, code@.last());
    }
}

/// Append a block of instructions, keeping the view equation.
fn append_code(code: &mut Vec<VmInstruction>, other: Vec<VmInstruction>)
    ensures
        view_code(final(code)@) == view_code(old(code)@) + view_code(other@),
{
    let ghost pre = code@;
    let ghost o = other@;
    let mut other = other;
    code.append(&mut other);
    proof {
        crate::vm::lemma_view_code_concat(pre, o);
    }
}

/// `a.b`, as a fresh string.
fn qualify(a: &str, b: &str) -> (r: String)
    ensures
        r@ == qual_name(a@, b@),
{
    let mut s = String::from_str(a);
    s.append(".");
    s.append(b);
    s
}

// ---------------------------------------------------------------------
// The per-subroutine generation context.
// ---------------------------------------------------------------------

/// Twin of the generation context.
pub struct CtxV {
    pub class: Seq<char>,
    pub full: Seq<char>,
    pub st: SymView,
    pub counter: int,
}

/// Per-subroutine generation state: the enclosing class name, the
/// subroutine's fully qualified name (for label namespacing), the
/// combined symbol table, and the monotonically increasing counter used
/// to mint fresh labels.
pub struct FunctionContext<'c> {
    pub class_name: &'c String,
    pub full_name: String,
    pub symbols: SymbolTable<'c>,
    pub counter: u32,
}

impl<'c> View for FunctionContext<'c> {
    type V = CtxV;

    open spec fn view(&self) -> CtxV {
        CtxV {
            class: self.class_name@,
            full: self.full_name@,
            st: self.symbols@,
            counter: self.counter as int,
        }
    }
}

impl<'c> FunctionContext<'c> {
    pub fn new(class_name: &'c String, full_name: String, symbols: SymbolTable<'c>) -> (r:
        FunctionContext<'c>)
        ensures
            r@.class == class_name@,
            r@.full == full_name@,
            r@.st == symbols@,
            r@.counter == 0,
    {
        FunctionContext { class_name, full_name, symbols, counter: 0 }
    }

    /// Resolve a name against the combined table.
    pub fn get_symbol<'s>(&'s self, name: &str) -> (r: Option<&'s SymEntry>)
        ensures
            match r {
                Some(e) => spec_resolve(self@.st, name@) == Some(view_entry(*e)),
                None => spec_resolve(self@.st, name@) is None,
            },
    {
        self.symbols.get(name)
    }

    /// Hand out the next fresh label number.
    pub fn consume_counter(&mut self) -> (c: u32)
        requires
            old(self).counter < u32::MAX,
        ensures
            c == old(self).counter,
            final(self).counter == old(self).counter + 1,
            final(self).class_name == old(self).class_name,
            final(self).full_name == old(self).full_name,
            final(self).symbols == old(self).symbols,
    {
        let old_c = self.counter;
        self.counter = self.counter + 1;
        old_c
    }

    /// The label minted for this subroutine, kind and number.
    pub fn label_for(&self, kind: &str, c: u32) -> (s: String)
        ensures
            s@ == label_name(self@.full, kind@, c as int),
    {
        let mut s = self.full_name.clone();
        s.append("$");
        s.append(kind);
        let d = dec_str(c as usize);
        s.append(d.as_str());
        s
    }
}

// ---------------------------------------------------------------------
// Executable generation: expressions and calls.
// ---------------------------------------------------------------------

/// Code for an argument list, left to right.
fn generate_args(ctx: &FunctionContext, args: &Vec<Expression>) -> (r: Result<
    Vec<VmInstruction>,
    CodegenError,
>)
    ensures
        match r {
            Ok(code) => spec_gen_args(ctx@.st, ctx@.class, view_exprs(args@)) == Some(
                view_code(code@),
            ),
            Err(_) => spec_gen_args(ctx@.st, ctx@.class, view_exprs(args@)) is None,
        },
    decreases args@, 0int,
{
    let ghost av = view_exprs(args@);
    proof {
        crate::ast::lemma_view_exprs_index(args@);
        assert(av.take(0) =~= Seq::<ExpressionV>::empty());
        assert(view_code(Seq::<VmInstruction>::empty()) =~= Seq::<InsV>::empty());
    }
    let mut code: Vec<VmInstruction> = Vec::new();
    let n = args.len();
    let mut i: usize = 0;
    while i < n
        invariant
            i <= n,
            n == args@.len(),
            av == view_exprs(args@),
            av.len() == n,
            forall|k: int| 0 <= k < n ==> #[trigger] av[k] == crate::ast::view_expr(args@[k]),
            spec_gen_args(ctx@.st, ctx@.class, av.take(i as int)) == Some(view_code(code@)),
        decreases n - i,
    {
        proof {
            assert(decreases_to!(args@ => args@[i as int]));
        }
        let ec = match generate_expression(ctx, &args[i]) {
            Ok(c) => c,
            Err(er) => {
                proof {
                    assert(av.take(i + 1).drop_last() =~= av.take(i as int));
                    assert(av.take(i + 1).last() == av[i as int]);
                    lemma_args_none(ctx@.st, ctx@.class, av, i + 1, n as int);
                    assert(av.take(n as int) =~= av);
                }
                return Err(er);
            },
        };
        append_code(&mut code, ec);
        proof {
            assert(av.take(i + 1).drop_last() =~= av.take(i as int));
            assert(av.take(i + 1).last() == av[i as int]);
        }
        i = i + 1;
    }
    proof {
        assert(av.take(n as int) =~= av);
    }
    Ok(code)
}

/// Code for one expression: first term, then each further term followed
/// by its operator's instruction, strictly left to right.
pub fn generate_expression(ctx: &FunctionContext, expr: &Expression) -> (r: Result<
    Vec<VmInstruction>,
    CodegenError,
>)
    ensures
        match r {
            Ok(code) => spec_gen_expr(ctx@.st, ctx@.class, view_expr(*expr)) == Some(
                view_code(code@),
            ),
            Err(_) => spec_gen_expr(ctx@.st, ctx@.class, view_expr(*expr)) is None,
        },
    decreases *expr, 1int,
{
    let ghost e = view_expr(*expr);
    let n = expr.terms.len();
    if n == 0 || expr.ops.len() != n - 1 {
        proof {
            crate::ast::lemma_view_terms_index(expr.terms@);
        }
        return Err(CodegenError::new("malformed expression: term and operator counts disagree"));
    }
    proof {
        crate::ast::lemma_view_terms_index(expr.terms@);
        assert(decreases_to!(*expr => expr.terms));
        assert(decreases_to!(expr.terms => expr.terms@));
        assert(decreases_to!(expr.terms@ => expr.terms@[0]));
        assert(decreases_to!(*expr => expr.terms@[0]));
    }
    let mut code = match generate_term(ctx, &expr.terms[0]) {
        Ok(c) => c,
        Err(er) => {
            proof {
                lemma_chain_none(ctx@.st, ctx@.class, e, 1, n as int);
            }
            return Err(er);
        },
    };
    let mut k: usize = 1;
    while k < n
        invariant
            1 <= k <= n,
            n == expr.terms@.len(),
            expr.ops@.len() == n - 1,
            e == view_expr(*expr),
            e.terms.len() == n,
            e.ops == expr.ops@,
            forall|j: int|
                0 <= j < n ==> #[trigger] e.terms[j] == crate::ast::view_term(expr.terms@[j]),
            spec_gen_chain(ctx@.st, ctx@.class, e, k as int) == Some(view_code(code@)),
        decreases n - k,
    {
        proof {
            assert(decreases_to!(*expr => expr.terms));
            assert(decreases_to!(expr.terms => expr.terms@));
            assert(decreases_to!(expr.terms@ => expr.terms@[k as int]));
            assert(decreases_to!(*expr => expr.terms@[k as int]));
        }
        let tc = match generate_term(ctx, &expr.terms[k]) {
            Ok(c) => c,
            Err(er) => {
                proof {
                    lemma_chain_none(ctx@.st, ctx@.class, e, k as int + 1, n as int);
                }
                return Err(er);
            },
        };
        let ghost pre = view_code(code@);
        let ghost tcv = view_code(tc@);
        append_code(&mut code, tc);
        push_ins(&mut code, get_binary_op_ins(&expr.ops[k - 1]));
        proof {
            assert(view_code(code@) =~= pre + tcv + seq![spec_op_ins(expr.ops@[k - 1])]);
        }
        k = k + 1;
    }
    Ok(code)
}

/// Code for one term.
pub fn generate_term(ctx: &FunctionContext, term: &Term) -> (r: Result<
    Vec<VmInstruction>,
    CodegenError,
>)
    ensures
        match r {
            Ok(code) => spec_gen_term(ctx@.st, ctx@.class, view_term(*term)) == Some(
                view_code(code@),
            ),
            Err(_) => spec_gen_term(ctx@.st, ctx@.class, view_term(*term)) is None,
        },
    decreases *term, 0int,
{
    match term {
        Term::Array(var_name, e) => {
            let var = match ctx.get_symbol(var_name.as_str()) {
                Some(v) => v,
                None => {
                    return Err(CodegenError::new("failed to find variable for array access"));
                },
            };
            let mut code: Vec<VmInstruction> = Vec::new();
            proof {
                assert(view_code(Seq::<VmInstruction>::empty()) =~= Seq::<InsV>::empty());
            }
            push_ins(&mut code, push_for(var));
            let ec = match generate_expression(ctx, e) {
                Ok(c) => c,
                Err(er) => {
                    return Err(er);
                },
            };
            let ghost pre = view_code(code@);
            let ghost ecv = view_code(ec@);
            append_code(&mut code, ec);
            push_ins(&mut code, VmInstruction::Add);
            push_ins(&mut code, VmInstruction::Pop(Segment::Pointer, 1));
            push_ins(&mut code, VmInstruction::Push(Segment::That, 0));
            proof {
                assert(view_code(code@) =~= seq![push_of(view_entry(*var))] + ecv + seq![
                    InsV::Add,
                    InsV::Pop(Segment::Pointer, 1),
                    InsV::Push(Segment::That, 0),
                ]);
            }
            Ok(code)
        },
        Term::Parenthesis(e) => generate_expression(ctx, e),
        Term::Unary(unary_op, inner) => {
            let mut code = match generate_term(ctx, inner) {
                Ok(c) => c,
                Err(er) => {
                    return Err(er);
                },
            };
            let ghost pre = view_code(code@);
            match unary_op {
                UnaryOp::Negation => push_ins(&mut code, VmInstruction::Neg),
                UnaryOp::Not => push_ins(&mut code, VmInstruction::Not),
            }
            proof {
                assert(view_code(code@) =~= pre + seq![
                    match unary_op {
                        UnaryOp::Negation => InsV::Neg,
                        UnaryOp::Not => InsV::Not,
                    },
                ]);
            }
            Ok(code)
        },
        Term::SubRoutineCall(call) => generate_subroutine_call(ctx, call),
        Term::IntegerLiteral(int_lit) => {
            let mut code: Vec<VmInstruction> = Vec::new();
            proof {
                assert(view_code(Seq::<VmInstruction>::empty()) =~= Seq::<InsV>::empty());
            }
            push_ins(&mut code, VmInstruction::Push(Segment::Constant, *int_lit as usize));
            proof {
                assert(view_code(code@) =~= seq![
                    InsV::Push(Segment::Constant, *int_lit as int),
                ]);
            }
            Ok(code)
        },
        Term::StringLiteral(s) => {
            let ghost sv = s@;
            let slen = s.as_str().unicode_len();
            let mut chars_code: Vec<VmInstruction> = Vec::new();
            proof {
                assert(sv.take(0) =~= Seq::<char>::empty());
                assert(view_code(Seq::<VmInstruction>::empty()) =~= Seq::<InsV>::empty());
            }
            let mut i: usize = 0;
            while i < slen
                invariant
                    i <= slen,
                    slen == sv.len(),
                    sv == s@,
                    *term == Term::StringLiteral(*s),
                    spec_gen_string(sv.take(i as int)) == Some(view_code(chars_code@)),
                decreases slen - i,
            {
                let c = s.as_str().get_char(i);
                let cv = c as u32;
                proof {
                    assert(sv.take(i + 1).drop_last() =~= sv.take(i as int));
                    assert(sv.take(i + 1).last() == sv[i as int]);
                }
                if cv > 0xffff {
                    proof {
                        assert(spec_gen_string(sv.take(i + 1)) is None);
                        lemma_string_none(sv, i + 1, slen as int);
                        assert(sv.take(slen as int) =~= sv);
                    }
                    return Err(
                        CodegenError::new("failed to handle character: size > 16 bits"),
                    );
                }
                let ghost pre = view_code(chars_code@);
                push_ins(&mut chars_code, VmInstruction::Push(Segment::Constant, cv as usize));
                push_ins(
                    &mut chars_code,
                    VmInstruction::Call(String::from_str("String.appendChar"), 2),
                );
                proof {
                    assert(view_code(chars_code@) =~= pre + seq![
                        InsV::Push(Segment::Constant, (sv[i as int] as u32) as int),
                        InsV::Call("String.appendChar"@, 2),
                    ]);
                }
                i = i + 1;
            }
            proof {
                assert(sv.take(slen as int) =~= sv);
            }
            let mut code: Vec<VmInstruction> = Vec::new();
            proof {
                assert(view_code(Seq::<VmInstruction>::empty()) =~= Seq::<InsV>::empty());
            }
            push_ins(&mut code, VmInstruction::Push(Segment::Constant, slen));
            push_ins(&mut code, VmInstruction::Call(String::from_str("String.new"), 1));
            let ghost hdr = view_code(code@);
            let ghost ccv = view_code(chars_code@);
            append_code(&mut code, chars_code);
            proof {
                assert(view_code(code@) =~= seq![
                    InsV::Push(Segment::Constant, sv.len() as int),
                    InsV::Call("String.new"@, 1),
                ] + ccv);
            }
            Ok(code)
        },
        Term::Variable(var_name) => {
            let var = match ctx.get_symbol(var_name.as_str()) {
                Some(v) => v,
                None => {
                    return Err(CodegenError::new("failed to find variable"));
                },
            };
            let mut code: Vec<VmInstruction> = Vec::new();
            proof {
                assert(view_code(Seq::<VmInstruction>::empty()) =~= Seq::<InsV>::empty());
            }
            push_ins(&mut code, push_for(var));
            proof {
                assert(view_code(code@) =~= seq![push_of(view_entry(*var))]);
            }
            Ok(code)
        },
        Term::True => {
            let mut code: Vec<VmInstruction> = Vec::new();
            proof {
                assert(view_code(Seq::<VmInstruction>::empty()) =~= Seq::<InsV>::empty());
            }
            push_ins(&mut code, VmInstruction::Push(Segment::Constant, 1));
            push_ins(&mut code, VmInstruction::Neg);
            proof {
                assert(view_code(code@) =~= seq![InsV::Push(Segment::Constant, 1), InsV::Neg]);
            }
            Ok(code)
        },
        Term::False | Term::Null => {
            let mut code: Vec<VmInstruction> = Vec::new();
            proof {
                assert(view_code(Seq::<VmInstruction>::empty()) =~= Seq::<InsV>::empty());
            }
            push_ins(&mut code, VmInstruction::Push(Segment::Constant, 0));
            proof {
                assert(view_code(code@) =~= seq![InsV::Push(Segment::Constant, 0)]);
            }
            Ok(code)
        },
        Term::This => {
            let mut code: Vec<VmInstruction> = Vec::new();
            proof {
                assert(view_code(Seq::<VmInstruction>::empty()) =~= Seq::<InsV>::empty());
            }
            push_ins(&mut code, VmInstruction::Push(Segment::Pointer, 0));
            proof {
                assert(view_code(code@) =~= seq![InsV::Push(Segment::Pointer, 0)]);
            }
            Ok(code)
        },
    }
}

/// Code for a subroutine call, with the call-kind decision of the
/// qualifier resolved against the symbol table.
pub fn generate_subroutine_call(ctx: &FunctionContext, subroutine_call: &SubroutineCall) -> (r:
    Result<Vec<VmInstruction>, CodegenError>)
    ensures
        match r {
            Ok(code) => spec_gen_call(ctx@.st, ctx@.class, view_call(*subroutine_call)) == Some(
                view_code(code@),
            ),
            Err(_) => spec_gen_call(ctx@.st, ctx@.class, view_call(*subroutine_call)) is None,
        },
    decreases *subroutine_call, 1int,
{
    match subroutine_call {
        SubroutineCall::Direct(func_name, expr_list) => {
            let mut code: Vec<VmInstruction> = Vec::new();
            proof {
                assert(view_code(Seq::<VmInstruction>::empty()) =~= Seq::<InsV>::empty());
            }
            push_ins(&mut code, VmInstruction::Push(Segment::Pointer, 0));
            proof {
                assert(decreases_to!(*subroutine_call => *expr_list));
                assert(decreases_to!(*expr_list => expr_list@));
            }
            proof {
                crate::ast::lemma_view_exprs_index(expr_list@);
            }
            let ac = match generate_args(ctx, expr_list) {
                Ok(c) => c,
                Err(er) => {
                    return Err(er);
                },
            };
            if expr_list.len() == usize::MAX {
                return Err(CodegenError::new("too many arguments"));
            }
            let ghost acv = view_code(ac@);
            append_code(&mut code, ac);
            push_ins(
                &mut code,
                VmInstruction::Call(
                    qualify(ctx.class_name.as_str(), func_name.as_str()),
                    expr_list.len() + 1,
                ),
            );
            proof {
                crate::ast::lemma_view_exprs_index(expr_list@);
                assert(view_code(code@) =~= seq![InsV::Push(Segment::Pointer, 0)] + acv + seq![
                    InsV::Call(
                        qual_name(ctx@.class, func_name@),
                        view_exprs(expr_list@).len() as int + 1,
                    ),
                ]);
            }
            Ok(code)
        },
        SubroutineCall::Indirect(name, func_name, expr_list) => {
            let potential_var = ctx.get_symbol(name.as_str());
            let mut code: Vec<VmInstruction> = Vec::new();
            proof {
                assert(view_code(Seq::<VmInstruction>::empty()) =~= Seq::<InsV>::empty());
            }
            if let Some(var) = potential_var {
                push_ins(&mut code, push_for(var));
            }
            proof {
                assert(decreases_to!(*subroutine_call => *expr_list));
                assert(decreases_to!(*expr_list => expr_list@));
            }
            proof {
                crate::ast::lemma_view_exprs_index(expr_list@);
            }
            let ac = match generate_args(ctx, expr_list) {
                Ok(c) => c,
                Err(er) => {
                    return Err(er);
                },
            };
            let ghost acv = view_code(ac@);
            append_code(&mut code, ac);
            match potential_var {
                Some(var) => {
                    let t = match &var.kind {
                        VarKind::Static(t) => t,
                        VarKind::Field(t) => t,
                        VarKind::Arg(t) => t,
                        VarKind::Var(t) => t,
                    };
                    let classname = match t {
                        crate::ast::Type::ClassName(classname) => classname,
                        crate::ast::Type::Int => {
                            return Err(CodegenError::new("`int` type has no method"));
                        },
                        crate::ast::Type::Char => {
                            return Err(CodegenError::new("`char` type has no method"));
                        },
                        crate::ast::Type::Boolean => {
                            return Err(CodegenError::new("`boolean` type has no method"));
                        },
                    };
                    if expr_list.len() == usize::MAX {
                        return Err(CodegenError::new("too many arguments"));
                    }
                    push_ins(
                        &mut code,
                        VmInstruction::Call(
                            qualify(classname.as_str(), func_name.as_str()),
                            expr_list.len() + 1,
                        ),
                    );
                    proof {
                        assert(view_code(code@) =~= seq![
                            push_of(view_entry(*var)),
                        ] + acv + seq![
                            InsV::Call(
                                qual_name(classname@, func_name@),
                                view_exprs(expr_list@).len() as int + 1,
                            ),
                        ]);
                    }
                    Ok(code)
                },
                None => {
                    push_ins(
                        &mut code,
                        VmInstruction::Call(
                            qualify(name.as_str(), func_name.as_str()),
                            expr_list.len(),
                        ),
                    );
                    proof {
                        assert(view_code(code@) =~= acv + seq![
                            InsV::Call(
                                qual_name(name@, func_name@),
                                view_exprs(expr_list@).len() as int,
                            ),
                        ]);
                    }
                    Ok(code)
                },
            }
        },
    }
}

// ---------------------------------------------------------------------
// Executable generation: statements.
// ---------------------------------------------------------------------

/// Code for one statement; mints labels from the context's counter.
#[verifier::rlimit(100)]
pub fn generate_statement(ctx: &mut FunctionContext, statement: &Statement) -> (r: Result<
    Vec<VmInstruction>,
    CodegenError,
>)
    ensures
        final(ctx)@.st == old(ctx)@.st,
        final(ctx)@.class == old(ctx)@.class,
        final(ctx)@.full == old(ctx)@.full,
        ({
            let s0 = spec_gen_stmt(
                old(ctx)@.st,
                old(ctx)@.class,
                old(ctx)@.full,
                view_stmt(*statement),
                old(ctx)@.counter,
            );
            match r {
                Ok(code) => s0 == Some((view_code(code@), final(ctx)@.counter)),
                Err(_) => s0 is None,
            }
        }),
    decreases *statement, 2int,
{
    match statement {
        Statement::Let(LetStatement::Let(var_name, expr)) => {
            let pop = match ctx.get_symbol(var_name.as_str()) {
                Some(var) => pop_for(var),
                None => {
                    return Err(CodegenError::new("failed to find variable"));
                },
            };
            let mut code = match generate_expression(ctx, expr) {
                Ok(c) => c,
                Err(er) => {
                    return Err(er);
                },
            };
            let ghost pre = view_code(code@);
            push_ins(&mut code, pop);
            Ok(code)
        },
        Statement::Let(LetStatement::LetArray(var_name, expr_lhs, expr_rhs)) => {
            let push0 = match ctx.get_symbol(var_name.as_str()) {
                Some(var) => push_for(var),
                None => {
                    return Err(CodegenError::new("failed to find variable"));
                },
            };
            let ghost en = match spec_resolve(ctx@.st, var_name@) {
                Some(en) => en,
                None => arbitrary(),
            };
            let mut code: Vec<VmInstruction> = Vec::new();
            proof {
                assert(view_code(Seq::<VmInstruction>::empty()) =~= Seq::<InsV>::empty());
            }
            push_ins(&mut code, push0);
            let lhs = match generate_expression(ctx, expr_lhs) {
                Ok(c) => c,
                Err(er) => {
                    return Err(er);
                },
            };
            let ghost lhsv = view_code(lhs@);
            append_code(&mut code, lhs);
            push_ins(&mut code, VmInstruction::Add);
            let rhs = match generate_expression(ctx, expr_rhs) {
                Ok(c) => c,
                Err(er) => {
                    return Err(er);
                },
            };
            let ghost rhsv = view_code(rhs@);
            append_code(&mut code, rhs);
            push_ins(&mut code, VmInstruction::Pop(Segment::Temp, 0));
            push_ins(&mut code, VmInstruction::Pop(Segment::Pointer, 1));
            push_ins(&mut code, VmInstruction::Push(Segment::Temp, 0));
            push_ins(&mut code, VmInstruction::Pop(Segment::That, 0));
            proof {
                assert(view_code(code@) =~= seq![push_of(en)] + lhsv + seq![InsV::Add] + rhsv
                    + seq![
                    InsV::Pop(Segment::Temp, 0),
                    InsV::Pop(Segment::Pointer, 1),
                    InsV::Push(Segment::Temp, 0),
                    InsV::Pop(Segment::That, 0),
                ]);
            }
            Ok(code)
        },
        Statement::If(IfStatement::If(expr, if_statements)) => {
            if ctx.counter == u32::MAX {
                return Err(CodegenError::new("label counter exhausted"));
            }
            let if_end_counter = ctx.consume_counter();
            let end_label = ctx.label_for("end", if_end_counter);
            let mut code = match generate_expression(ctx, expr) {
                Ok(c) => c,
                Err(er) => {
                    return Err(er);
                },
            };
            let ghost condv = view_code(code@);
            push_ins(&mut code, VmInstruction::Not);
            push_ins(&mut code, VmInstruction::IfGoto(end_label.clone()));
            proof {
                assert(decreases_to!(*statement => *if_statements));
                assert(decreases_to!(*if_statements => if_statements@));
            }
            let body = match generate_statements(ctx, if_statements) {
                Ok(c) => c,
                Err(er) => {
                    return Err(er);
                },
            };
            let ghost bodyv = view_code(body@);
            append_code(&mut code, body);
            push_ins(&mut code, VmInstruction::Label(end_label));
            proof {
                let ghost el = label_name(old(ctx)@.full, "end"@, old(ctx)@.counter);
                assert(view_code(code@) =~= condv + seq![InsV::Not, InsV::IfGoto(el)] + bodyv
                    + seq![InsV::Label(el)]);
            }
            Ok(code)
        },
        Statement::If(IfStatement::IfElse(expr, if_statements, else_statements)) => {
            if ctx.counter >= u32::MAX - 1 {
                return Err(CodegenError::new("label counter exhausted"));
            }
            let else_start_counter = ctx.consume_counter();
            let else_end_counter = ctx.consume_counter();
            let else_label = ctx.label_for("else", else_start_counter);
            let end_label = ctx.label_for("end", else_end_counter);
            let mut code = match generate_expression(ctx, expr) {
                Ok(c) => c,
                Err(er) => {
                    return Err(er);
                },
            };
            let ghost condv = view_code(code@);
            push_ins(&mut code, VmInstruction::Not);
            push_ins(&mut code, VmInstruction::IfGoto(else_label.clone()));
            proof {
                assert(decreases_to!(*statement => *if_statements));
                assert(decreases_to!(*if_statements => if_statements@));
            }
            let then_code = match generate_statements(ctx, if_statements) {
                Ok(c) => c,
                Err(er) => {
                    return Err(er);
                },
            };
            let ghost thenv = view_code(then_code@);
            append_code(&mut code, then_code);
            push_ins(&mut code, VmInstruction::Goto(end_label.clone()));
            push_ins(&mut code, VmInstruction::Label(else_label));
            proof {
                assert(decreases_to!(*statement => *else_statements));
                assert(decreases_to!(*else_statements => else_statements@));
            }
            let else_code = match generate_statements(ctx, else_statements) {
                Ok(c) => c,
                Err(er) => {
                    return Err(er);
                },
            };
            let ghost elsev = view_code(else_code@);
            append_code(&mut code, else_code);
            push_ins(&mut code, VmInstruction::Label(end_label));
            proof {
                let ghost el = label_name(old(ctx)@.full, "else"@, old(ctx)@.counter);
                let ghost nl = label_name(old(ctx)@.full, "end"@, old(ctx)@.counter + 1);
                assert(view_code(code@) =~= condv + seq![InsV::Not, InsV::IfGoto(el)] + thenv
                    + seq![InsV::Goto(nl), InsV::Label(el)] + elsev + seq![InsV::Label(nl)]);
            }
            Ok(code)
        },
        Statement::Do(do_statement) => {
            let mut code = match generate_subroutine_call(ctx, &do_statement.call) {
                Ok(c) => c,
                Err(er) => {
                    return Err(er);
                },
            };
            let ghost pre = view_code(code@);
            push_ins(&mut code, VmInstruction::Pop(Segment::Temp, 0));
            Ok(code)
        },
        Statement::While(while_statement) => {
            if ctx.counter >= u32::MAX - 1 {
                return Err(CodegenError::new("label counter exhausted"));
            }
            let while_start_counter = ctx.consume_counter();
            let while_end_counter = ctx.consume_counter();
            let start_label = ctx.label_for("start", while_start_counter);
            let end_label = ctx.label_for("end", while_end_counter);
            let mut code: Vec<VmInstruction> = Vec::new();
            proof {
                assert(view_code(Seq::<VmInstruction>::empty()) =~= Seq::<InsV>::empty());
            }
            push_ins(&mut code, VmInstruction::Label(start_label.clone()));
            let cond = match generate_expression(ctx, &while_statement.condition) {
                Ok(c) => c,
                Err(er) => {
                    return Err(er);
                },
            };
            let ghost condv = view_code(cond@);
            append_code(&mut code, cond);
            push_ins(&mut code, VmInstruction::Not);
            push_ins(&mut code, VmInstruction::IfGoto(end_label.clone()));
            proof {
                assert(decreases_to!(*statement => *while_statement));
                assert(decreases_to!(*while_statement => while_statement.statements));
                assert(decreases_to!(while_statement.statements => while_statement.statements@));
            }
            let body = match generate_statements(ctx, &while_statement.statements) {
                Ok(c) => c,
                Err(er) => {
                    return Err(er);
                },
            };
            let ghost bodyv = view_code(body@);
            append_code(&mut code, body);
            push_ins(&mut code, VmInstruction::Goto(start_label));
            push_ins(&mut code, VmInstruction::Label(end_label));
            proof {
                let ghost sl = label_name(old(ctx)@.full, "start"@, old(ctx)@.counter);
                let ghost el = label_name(old(ctx)@.full, "end"@, old(ctx)@.counter + 1);
                assert(view_code(code@) =~= seq![InsV::Label(sl)] + condv + seq![
                    InsV::Not,
                    InsV::IfGoto(el),
                ] + bodyv + seq![InsV::Goto(sl), InsV::Label(el)]);
            }
            Ok(code)
        },
        Statement::Return(ReturnStatement::Return) => {
            let mut code: Vec<VmInstruction> = Vec::new();
            proof {
                assert(view_code(Seq::<VmInstruction>::empty()) =~= Seq::<InsV>::empty());
            }
            push_ins(&mut code, VmInstruction::Push(Segment::Constant, 0));
            push_ins(&mut code, VmInstruction::Return);
            proof {
                assert(view_code(code@) =~= seq![
                    InsV::Push(Segment::Constant, 0),
                    InsV::Return,
                ]);
            }
            Ok(code)
        },
        Statement::Return(ReturnStatement::ReturnExpression(expr)) => {
            let mut code = match generate_expression(ctx, expr) {
                Ok(c) => c,
                Err(er) => {
                    return Err(er);
                },
            };
            let ghost pre = view_code(code@);
            push_ins(&mut code, VmInstruction::Return);
            Ok(code)
        },
    }
}

/// Code for a statement list, in order.
pub fn generate_statements(ctx: &mut FunctionContext, statements: &Vec<Statement>) -> (r: Result<
    Vec<VmInstruction>,
    CodegenError,
>)
    ensures
        final(ctx)@.st == old(ctx)@.st,
        final(ctx)@.class == old(ctx)@.class,
        final(ctx)@.full == old(ctx)@.full,
        ({
            let s0 = spec_gen_stmts(
                old(ctx)@.st,
                old(ctx)@.class,
                old(ctx)@.full,
                view_stmts(statements@),
                old(ctx)@.counter,
            );
            match r {
                Ok(code) => s0 == Some((view_code(code@), final(ctx)@.counter)),
                Err(_) => s0 is None,
            }
        }),
    decreases statements@, 3int,
{
    let ghost sv = view_stmts(statements@);
    proof {
        crate::ast::lemma_view_stmts_index(statements@);
        assert(sv.take(0) =~= Seq::<StatementV>::empty());
        assert(view_code(Seq::<VmInstruction>::empty()) =~= Seq::<InsV>::empty());
    }
    let mut code: Vec<VmInstruction> = Vec::new();
    let n = statements.len();
    let mut i: usize = 0;
    while i < n
        invariant
            i <= n,
            n == statements@.len(),
            sv == view_stmts(statements@),
            sv.len() == n,
            forall|k: int|
                0 <= k < n ==> #[trigger] sv[k] == crate::ast::view_stmt(statements@[k]),
            ctx@.st == old(ctx)@.st,
            ctx@.class == old(ctx)@.class,
            ctx@.full == old(ctx)@.full,
            spec_gen_stmts(old(ctx)@.st, old(ctx)@.class, old(ctx)@.full, sv.take(i as int), old(
                ctx,
            )@.counter) == Some((view_code(code@), ctx@.counter)),
        decreases n - i,
    {
        proof {
            assert(decreases_to!(statements@ => statements@[i as int]));
            assert(sv.take(i + 1).drop_last() =~= sv.take(i as int));
            assert(sv.take(i + 1).last() == sv[i as int]);
        }
        let sc = match generate_statement(ctx, &statements[i]) {
            Ok(c) => c,
            Err(er) => {
                proof {
                    lemma_stmts_none(
                        old(ctx)@.st,
                        old(ctx)@.class,
                        old(ctx)@.full,
                        sv,
                        old(ctx)@.counter,
                        i + 1,
                        n as int,
                    );
                    assert(sv.take(n as int) =~= sv);
                }
                return Err(er);
            },
        };
        append_code(&mut code, sc);
        i = i + 1;
    }
    proof {
        assert(sv.take(n as int) =~= sv);
    }
    Ok(code)
}

// ---------------------------------------------------------------------
// Executable generation: subroutines and the whole class.
// ---------------------------------------------------------------------

/// The combined symbol table for one subroutine.
pub fn get_symbol_table<'a>(
    class_table: &'a ClassSymbolTable,
    args: &Vec<VarDeclaration>,
    vars: &Vec<VarDeclaration>,
    this: Option<String>,
    filter_field: bool,
) -> (st: SymbolTable<'a>)
    ensures
        st@ == (SymView {
            class: class_table@,
            local: spec_local_entries(
                view_var_decls(args@),
                view_var_decls(vars@),
                match this {
                    Some(c) => Some(c@),
                    None => None,
                },
            ),
            filter_field,
        }),
{
    SymbolTable::new(class_table, LocalSymbolTable::new(args, vars, this), filter_field)
}

/// Code for a constructor: allocate one heap word per field and bind the
/// returned address as the receiver.
pub fn generate_constructor(
    class_name: &String,
    class_symbols: &ClassSymbolTable,
    func_name: &String,
    params: &Vec<VarDeclaration>,
    body: &SubRoutineBody,
) -> (r: Result<Vec<VmInstruction>, CodegenError>)
    ensures
        ({
            let s0 = spec_gen_constructor(
                class_name@,
                class_symbols@,
                func_name@,
                view_var_decls(params@),
                view_body(*body),
            );
            match r {
                Ok(code) => s0 == Some(view_code(code@)),
                Err(_) => s0 is None,
            }
        }),
{
    let class_len = class_symbols.field_count();
    let symbols = get_symbol_table(class_symbols, params, &body.var_declarations, None, false);
    let full = qualify(class_name.as_str(), func_name.as_str());
    let mut context = FunctionContext::new(class_name, full, symbols);
    let mut code: Vec<VmInstruction> = Vec::new();
    proof {
        assert(view_code(Seq::<VmInstruction>::empty()) =~= Seq::<InsV>::empty());
    }
    push_ins(
        &mut code,
        VmInstruction::Function(context.full_name.clone(), body.var_declarations.len()),
    );
    push_ins(&mut code, VmInstruction::Push(Segment::Constant, class_len));
    push_ins(&mut code, VmInstruction::Call(String::from_str("Memory.alloc"), 1));
    push_ins(&mut code, VmInstruction::Pop(Segment::Pointer, 0));
    let statement_code = match generate_statements(&mut context, &body.statements) {
        Ok(c) => c,
        Err(er) => {
            return Err(er);
        },
    };
    let ghost sv = view_code(statement_code@);
    append_code(&mut code, statement_code);
    proof {
        let ghost full_n = qual_name(class_name@, func_name@);
        assert(view_code(code@) =~= seq![
            InsV::Function(full_n, body.var_declarations@.len() as int),
            InsV::Push(Segment::Constant, entry_field_count(class_symbols@)),
            InsV::Call("Memory.alloc"@, 1),
            InsV::Pop(Segment::Pointer, 0),
        ] + sv);
    }
    Ok(code)
}

/// Code for a class-level function: no receiver; `field` entries are
/// invisible to the body.
pub fn generate_function(
    class_name: &String,
    class_symbols: &ClassSymbolTable,
    func_name: &String,
    params: &Vec<VarDeclaration>,
    body: &SubRoutineBody,
) -> (r: Result<Vec<VmInstruction>, CodegenError>)
    ensures
        ({
            let s0 = spec_gen_function(
                class_name@,
                class_symbols@,
                func_name@,
                view_var_decls(params@),
                view_body(*body),
            );
            match r {
                Ok(code) => s0 == Some(view_code(code@)),
                Err(_) => s0 is None,
            }
        }),
{
    let symbols = get_symbol_table(class_symbols, params, &body.var_declarations, None, true);
    let full = qualify(class_name.as_str(), func_name.as_str());
    let mut context = FunctionContext::new(class_name, full, symbols);
    let mut code: Vec<VmInstruction> = Vec::new();
    proof {
        assert(view_code(Seq::<VmInstruction>::empty()) =~= Seq::<InsV>::empty());
    }
    push_ins(
        &mut code,
        VmInstruction::Function(context.full_name.clone(), body.var_declarations.len()),
    );
    let statement_code = match generate_statements(&mut context, &body.statements) {
        Ok(c) => c,
        Err(er) => {
            return Err(er);
        },
    };
    let ghost sv = view_code(statement_code@);
    append_code(&mut code, statement_code);
    proof {
        let ghost full_n = qual_name(class_name@, func_name@);
        assert(view_code(code@) =~= seq![
            InsV::Function(full_n, body.var_declarations@.len() as int),
        ] + sv);
    }
    Ok(code)
}

/// Code for a method: bind the first incoming argument (the receiver
/// passed by the caller) as the implicit receiver.
pub fn generate_method(
    class_name: &String,
    class_symbols: &ClassSymbolTable,
    func_name: &String,
    params: &Vec<VarDeclaration>,
    body: &SubRoutineBody,
) -> (r: Result<Vec<VmInstruction>, CodegenError>)
    ensures
        ({
            let s0 = spec_gen_method(
                class_name@,
                class_symbols@,
                func_name@,
                view_var_decls(params@),
                view_body(*body),
            );
            match r {
                Ok(code) => s0 == Some(view_code(code@)),
                Err(_) => s0 is None,
            }
        }),
{
    let symbols = get_symbol_table(
        class_symbols,
        params,
        &body.var_declarations,
        Some(class_name.clone()),
        false,
    );
    let full = qualify(class_name.as_str(), func_name.as_str());
    let mut context = FunctionContext::new(class_name, full, symbols);
    let mut code: Vec<VmInstruction> = Vec::new();
    proof {
        assert(view_code(Seq::<VmInstruction>::empty()) =~= Seq::<InsV>::empty());
    }
    push_ins(
        &mut code,
        VmInstruction::Function(context.full_name.clone(), body.var_declarations.len()),
    );
    push_ins(&mut code, VmInstruction::Push(Segment::Argument, 0));
    push_ins(&mut code, VmInstruction::Pop(Segment::Pointer, 0));
    let statement_code = match generate_statements(&mut context, &body.statements) {
        Ok(c) => c,
        Err(er) => {
            return Err(er);
        },
    };
    let ghost sv = view_code(statement_code@);
    append_code(&mut code, statement_code);
    proof {
        let ghost full_n = qual_name(class_name@, func_name@);
        assert(view_code(code@) =~= seq![
            InsV::Function(full_n, body.var_declarations@.len() as int),
            InsV::Push(Segment::Argument, 0),
            InsV::Pop(Segment::Pointer, 0),
        ] + sv);
    }
    Ok(code)
}

/// Code for a whole class declaration, subroutine by subroutine.  The
/// first subroutine whose generation fails aborts the whole class: no
/// partial instruction sequence comes back, and the error is the
/// failing subroutine's, wrapped with a context naming its kind and its
/// qualified name.
pub fn generate(tree: &ParseTree) -> (r: Result<Vec<VmInstruction>, CodegenError>)
    ensures
        ({
            let tv = view_tree(*tree);
            let ctv = spec_class_entries(tv.var_declarations);
            match r {
                Ok(code) => spec_generate(tv) == Some(view_code(code@)),
                Err(e) => {
                    &&& spec_generate(tv) is None
                    &&& e.context@.len() >= 1
                    &&& (spec_failing_sub(tv.name, ctv, tv.subroutines) matches Some(s)
                        && e.context@.last()@ == gen_context_msg(tv.name, s))
                },
            }
        }),
{
    let class_table = ClassSymbolTable::new(&tree.var_declarations);
    let ghost subsv = view_tree(*tree).subroutines;
    let ghost ct = class_table@;
    proof {
        assert(subsv.take(0) =~= Seq::<SubRoutineV>::empty());
        assert(view_code(Seq::<VmInstruction>::empty()) =~= Seq::<InsV>::empty());
        assert(tree.var_declarations@.map(
            |i: int, d: ClassVarDeclaration| crate::ast::view_class_var(d),
        ) =~= view_tree(*tree).var_declarations);
    }
    let mut code: Vec<VmInstruction> = Vec::new();
    let n = tree.subroutines.len();
    let mut i: usize = 0;
    while i < n
        invariant
            i <= n,
            n == tree.subroutines@.len(),
            subsv == view_tree(*tree).subroutines,
            subsv.len() == n,
            ct == class_table@,
            ct == spec_class_entries(view_tree(*tree).var_declarations),
            spec_gen_subs(tree.name@, ct, subsv.take(i as int)) == Some(view_code(code@)),
        decreases n - i,
    {
        proof {
            assert(subsv.take(i + 1).drop_last() =~= subsv.take(i as int));
            assert(subsv.take(i + 1).last() == subsv[i as int]);
            assert(subsv[i as int] == crate::ast::view_subroutine(tree.subroutines@[i as int]));
        }
        let sub_code = match &tree.subroutines[i] {
            SubRoutine::Constructor(_, name, params, body) => {
                match generate_constructor(&tree.name, &class_table, name, params, body) {
                    Ok(c) => c,
                    Err(er) => {
                        proof {
                            lemma_subs_none(tree.name@, ct, subsv, i + 1, n as int);
                            assert(subsv.take(n as int) =~= subsv);
                            assert(spec_gen_subroutine(tree.name@, ct, subsv[i as int]) is None);
                            lemma_first_failing(tree.name@, ct, subsv, i as int);
                        }
                        let mut m = String::from_str("Failed to generate code for constructor ");
                        let full = qualify(tree.name.as_str(), name.as_str());
                        m.append(full.as_str());
                        return Err(er.with_context(m.as_str()));
                    },
                }
            },
            SubRoutine::Function(_, name, params, body) => {
                match generate_function(&tree.name, &class_table, name, params, body) {
                    Ok(c) => c,
                    Err(er) => {
                        proof {
                            lemma_subs_none(tree.name@, ct, subsv, i + 1, n as int);
                            assert(subsv.take(n as int) =~= subsv);
                            assert(spec_gen_subroutine(tree.name@, ct, subsv[i as int]) is None);
                            lemma_first_failing(tree.name@, ct, subsv, i as int);
                        }
                        let mut m = String::from_str("Failed to generate code for function ");
                        let full = qualify(tree.name.as_str(), name.as_str());
                        m.append(full.as_str());
                        return Err(er.with_context(m.as_str()));
                    },
                }
            },
            SubRoutine::Method(_, name, params, body) => {
                match generate_method(&tree.name, &class_table, name, params, body) {
                    Ok(c) => c,
                    Err(er) => {
                        proof {
                            lemma_subs_none(tree.name@, ct, subsv, i + 1, n as int);
                            assert(subsv.take(n as int) =~= subsv);
                            assert(spec_gen_subroutine(tree.name@, ct, subsv[i as int]) is None);
                            lemma_first_failing(tree.name@, ct, subsv, i as int);
                        }
                        let mut m = String::from_str("Failed to generate code for method ");
                        let full = qualify(tree.name.as_str(), name.as_str());
                        m.append(full.as_str());
                        return Err(er.with_context(m.as_str()));
                    },
                }
            },
        };
        append_code(&mut code, sub_code);
        i = i + 1;
    }
    proof {
        assert(subsv.take(n as int) =~= subsv);
    }
    Ok(code)
}

} // verus!
