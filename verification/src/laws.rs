//! Properties of the code generator, proved once and for all:
//! determinism, per-subroutine label uniqueness and well-targetedness,
//! operand-stack balance, field invisibility inside class-level
//! functions, and shadowing.

use vstd::prelude::*;

use crate::ast::ExpressionV;
use crate::ast::ParseTree;
use crate::ast::StatementV;
use crate::ast::SubRoutineV;
use crate::ast::SubroutineCallV;
use crate::ast::TermV;
use crate::ast::view_tree;
use crate::generator::label_name;
use crate::generator::spec_gen_args;
use crate::generator::spec_gen_call;
use crate::generator::spec_gen_chain;
use crate::generator::spec_gen_expr;
use crate::generator::spec_gen_string;
use crate::generator::spec_gen_term;
use crate::generator::spec_gen_stmt;
use crate::generator::spec_gen_stmts;
use crate::generator::spec_gen_subroutine;
use crate::generator::spec_generate;
use crate::generator::spec_resolve;
use crate::symbols::SymEntryV;
use crate::symbols::SymView;
use crate::symbols::lookup;
use crate::vm::InsV;
use crate::vm::code_effect;
use crate::vm::dec_seq;
use crate::vm::ins_effect;
use crate::vm::lemma_code_effect_concat;

verus! {

// ---------------------------------------------------------------------
// Small sequence facts.
// ---------------------------------------------------------------------

proof fn lemma_effect_singleton(x: InsV)
    ensures
        code_effect(seq![x]) == ins_effect(x),
{
    assert(seq![x].drop_first() =~= Seq::<InsV>::empty());
    assert(code_effect(Seq::<InsV>::empty()) == 0);
    assert(seq![x][0] == x);
}

/// The names of the `label` instructions in a code block, in order.
pub open spec fn labels_of(c: Seq<InsV>) -> Seq<Seq<char>>
    decreases c.len(),
{
    if c.len() == 0 {
        Seq::empty()
    } else {
        labels_of(c.drop_last()) + (match c.last() {
            InsV::Label(l) => seq![l],
            _ => Seq::empty(),
        })
    }
}

/// The names referenced by `goto`/`if-goto` instructions in a code
/// block, in order.
pub open spec fn targets_of(c: Seq<InsV>) -> Seq<Seq<char>>
    decreases c.len(),
{
    if c.len() == 0 {
        Seq::empty()
    } else {
        targets_of(c.drop_last()) + (match c.last() {
            InsV::Goto(l) => seq![l],
            InsV::IfGoto(l) => seq![l],
            _ => Seq::empty(),
        })
    }
}

proof fn lemma_labels_of_concat(a: Seq<InsV>, b: Seq<InsV>)
    ensures
        labels_of(a + b) == labels_of(a) + labels_of(b),
    decreases b.len(),
{
    if b.len() == 0 {
        assert(a + b =~= a);
        assert(labels_of(a) + labels_of(b) =~= labels_of(a));
    } else {
        assert((a + b).drop_last() =~= a + b.drop_last());
        assert((a + b).last() == b.last());
        lemma_labels_of_concat(a, b.drop_last());
        assert(labels_of(a) + labels_of(b.drop_last()) + (match b.last() {
            InsV::Label(l) => seq![l],
            _ => Seq::empty(),
        }) =~= labels_of(a) + (labels_of(b.drop_last()) + (match b.last() {
            InsV::Label(l) => seq![l],
            _ => Seq::empty(),
        })));
    }
}

proof fn lemma_targets_of_concat(a: Seq<InsV>, b: Seq<InsV>)
    ensures
        targets_of(a + b) == targets_of(a) + targets_of(b),
    decreases b.len(),
{
    if b.len() == 0 {
        assert(a + b =~= a);
        assert(targets_of(a) + targets_of(b) =~= targets_of(a));
    } else {
        assert((a + b).drop_last() =~= a + b.drop_last());
        assert((a + b).last() == b.last());
        lemma_targets_of_concat(a, b.drop_last());
        assert(targets_of(a) + targets_of(b.drop_last()) + (match b.last() {
            InsV::Goto(l) => seq![l],
            InsV::IfGoto(l) => seq![l],
            _ => Seq::empty(),
        }) =~= targets_of(a) + (targets_of(b.drop_last()) + (match b.last() {
            InsV::Goto(l) => seq![l],
            InsV::IfGoto(l) => seq![l],
            _ => Seq::empty(),
        })));
    }
}

proof fn lemma_contains_concat<T>(a: Seq<T>, b: Seq<T>, x: T)
    ensures
        (a + b).contains(x) <==> a.contains(x) || b.contains(x),
{
    if a.contains(x) {
        let i = choose|i: int| 0 <= i < a.len() && a[i] == x;
        assert((a + b)[i] == x);
    }
    if b.contains(x) {
        let i = choose|i: int| 0 <= i < b.len() && b[i] == x;
        assert((a + b)[a.len() + i] == x);
    }
    if (a + b).contains(x) {
        let i = choose|i: int| 0 <= i < (a + b).len() && (a + b)[i] == x;
        if i < a.len() {
            assert(a[i] == x);
        } else {
            assert(b[i - a.len()] == x);
        }
    }
}

// ---------------------------------------------------------------------
// Label names are injective in their kind and counter.
// ---------------------------------------------------------------------

/// The three label kinds the generator mints.
pub open spec fn is_label_kind(k: Seq<char>) -> bool {
    k == "end"@ || k == "else"@ || k == "start"@
}

proof fn lemma_dec_len_pos(n: nat)
    ensures
        dec_seq(n).len() >= 1,
    decreases n,
{
    if n >= 10 {
        lemma_dec_len_pos(n / 10);
    }
}

proof fn lemma_dec_seq_injective(a: nat, b: nat)
    requires
        dec_seq(a) == dec_seq(b),
    ensures
        a == b,
    decreases a,
{
    if a < 10 && b < 10 {
        assert(dec_seq(a)[0] == crate::vm::digit_char(a));
        assert(dec_seq(b)[0] == crate::vm::digit_char(b));
    } else if a < 10 && b >= 10 {
        lemma_dec_len_pos(b / 10);
        assert(dec_seq(b).len() >= 2);
    } else if a >= 10 && b < 10 {
        lemma_dec_len_pos(a / 10);
        assert(dec_seq(a).len() >= 2);
    } else {
        assert(dec_seq(a).last() == crate::vm::digit_char(a % 10));
        assert(dec_seq(b).last() == crate::vm::digit_char(b % 10));
        assert(a % 10 == b % 10);
        assert(dec_seq(a).drop_last() =~= dec_seq(a / 10));
        assert(dec_seq(b).drop_last() =~= dec_seq(b / 10));
        lemma_dec_seq_injective(a / 10, b / 10);
    }
}

proof fn lemma_concat_cancel_left(a: Seq<char>, x: Seq<char>, y: Seq<char>)
    requires
        a + x == a + y,
    ensures
        x == y,
{
    assert(x =~= (a + x).subrange(a.len() as int, (a + x).len() as int));
    assert(y =~= (a + y).subrange(a.len() as int, (a + y).len() as int));
}

// ---------------------------------------------------------------------
// Expression code is jump-free and leaves exactly one value.
// ---------------------------------------------------------------------

/// The instruction neither defines nor references a label.
pub open spec fn no_jump(i: InsV) -> bool {
    !(i matches InsV::Label(_)) && !(i matches InsV::Goto(_)) && !(i matches InsV::IfGoto(_))
}

proof fn lemma_no_jump_free(c: Seq<InsV>)
    requires
        forall|i: int| 0 <= i < c.len() ==> no_jump(#[trigger] c[i]),
    ensures
        labels_of(c) == Seq::<Seq<char>>::empty(),
        targets_of(c) == Seq::<Seq<char>>::empty(),
    decreases c.len(),
{
    if c.len() > 0 {
        assert(forall|i: int| 0 <= i < c.drop_last().len() ==> no_jump(#[trigger] c.drop_last()[i]));
        lemma_no_jump_free(c.drop_last());
        assert(no_jump(c.last()));
        assert(labels_of(c) =~= Seq::<Seq<char>>::empty());
        assert(targets_of(c) =~= Seq::<Seq<char>>::empty());
    }
}

proof fn lemma_effect2(a: InsV, b: InsV)
    ensures
        code_effect(seq![a, b]) == ins_effect(a) + ins_effect(b),
{
    assert(seq![a, b] =~= seq![a] + seq![b]);
    lemma_code_effect_concat(seq![a], seq![b]);
    lemma_effect_singleton(a);
    lemma_effect_singleton(b);
}

proof fn lemma_effect3(a: InsV, b: InsV, c: InsV)
    ensures
        code_effect(seq![a, b, c]) == ins_effect(a) + ins_effect(b) + ins_effect(c),
{
    assert(seq![a, b, c] =~= seq![a, b] + seq![c]);
    lemma_code_effect_concat(seq![a, b], seq![c]);
    lemma_effect2(a, b);
    lemma_effect_singleton(c);
}

proof fn lemma_effect4(a: InsV, b: InsV, c: InsV, d: InsV)
    ensures
        code_effect(seq![a, b, c, d]) == ins_effect(a) + ins_effect(b) + ins_effect(c)
            + ins_effect(d),
{
    assert(seq![a, b, c, d] =~= seq![a, b, c] + seq![d]);
    lemma_code_effect_concat(seq![a, b, c], seq![d]);
    lemma_effect3(a, b, c);
    lemma_effect_singleton(d);
}

/// A code block is balanced-and-branch-free if it neither defines nor
/// references labels and has the given net stack effect.
pub open spec fn plain_code(c: Seq<InsV>, effect: int) -> bool {
    &&& code_effect(c) == effect
    &&& labels_of(c) == Seq::<Seq<char>>::empty()
    &&& targets_of(c) == Seq::<Seq<char>>::empty()
}

proof fn lemma_plain_concat(a: Seq<InsV>, ea: int, b: Seq<InsV>, eb: int)
    requires
        plain_code(a, ea),
        plain_code(b, eb),
    ensures
        plain_code(a + b, ea + eb),
{
    lemma_code_effect_concat(a, b);
    lemma_labels_of_concat(a, b);
    lemma_targets_of_concat(a, b);
    assert(labels_of(a) + labels_of(b) =~= Seq::<Seq<char>>::empty());
    assert(targets_of(a) + targets_of(b) =~= Seq::<Seq<char>>::empty());
}

proof fn lemma_plain_ins(c: Seq<InsV>)
    requires
        forall|i: int| 0 <= i < c.len() ==> no_jump(#[trigger] c[i]),
    ensures
        plain_code(c, code_effect(c)),
{
    lemma_no_jump_free(c);
}

proof fn lemma_string_props(s: Seq<char>)
    ensures
        spec_gen_string(s) matches Some(c) ==> plain_code(c, 0),
    decreases s.len(),
{
    if s.len() > 0 {
        lemma_string_props(s.drop_last());
        match spec_gen_string(s.drop_last()) {
            Some(pre) => {
                if !((s.last() as u32) > 0xffff) {
                    let tail = seq![
                        InsV::Push(crate::vm::Segment::Constant, (s.last() as u32) as int),
                        InsV::Call("String.appendChar"@, 2),
                    ];
                    lemma_effect2(tail[0], tail[1]);
                    assert(tail =~= seq![tail[0], tail[1]]);
                    assert(forall|i: int| 0 <= i < tail.len() ==> no_jump(#[trigger] tail[i]));
                    lemma_plain_ins(tail);
                    lemma_plain_concat(pre, 0, tail, 0);
                }
            },
            None => {},
        }
    }
}

proof fn lemma_term_props(st: SymView, class: Seq<char>, t: TermV)
    ensures
        spec_gen_term(st, class, t) matches Some(c) ==> plain_code(c, 1),
    decreases t, 3int, 1int,
{
    match t {
        TermV::Array(name, e) => {
            lemma_expr_props(st, class, *e);
            match spec_resolve(st, name) {
                Some(en) => match spec_gen_expr(st, class, *e) {
                    Some(ec) => {
                        let head = seq![crate::generator::push_of(en)];
                        let tail = seq![
                            InsV::Add,
                            InsV::Pop(crate::vm::Segment::Pointer, 1),
                            InsV::Push(crate::vm::Segment::That, 0),
                        ];
                        lemma_effect_singleton(head[0]);
                        assert(head =~= seq![head[0]]);
                        assert(forall|i: int| 0 <= i < head.len() ==> no_jump(#[trigger] head[i]));
                        lemma_plain_ins(head);
                        lemma_effect3(tail[0], tail[1], tail[2]);
                        assert(tail =~= seq![tail[0], tail[1], tail[2]]);
                        assert(forall|i: int| 0 <= i < tail.len() ==> no_jump(#[trigger] tail[i]));
                        lemma_plain_ins(tail);
                        lemma_plain_concat(head, 1, ec, 1);
                        lemma_plain_concat(head + ec, 2, tail, -1);
                    },
                    None => {},
                },
                None => {},
            }
        },
        TermV::Parenthesis(e) => {
            lemma_expr_props(st, class, *e);
        },
        TermV::Unary(op, inner) => {
            lemma_term_props(st, class, *inner);
            match spec_gen_term(st, class, *inner) {
                Some(tc) => {
                    let tail = seq![
                        match op {
                            crate::ast::UnaryOp::Negation => InsV::Neg,
                            crate::ast::UnaryOp::Not => InsV::Not,
                        },
                    ];
                    lemma_effect_singleton(tail[0]);
                    assert(tail =~= seq![tail[0]]);
                    assert(forall|i: int| 0 <= i < tail.len() ==> no_jump(#[trigger] tail[i]));
                    lemma_plain_ins(tail);
                    lemma_plain_concat(tc, 1, tail, 0);
                },
                None => {},
            }
        },
        TermV::SubRoutineCall(call) => {
            lemma_call_props(st, class, call);
        },
        TermV::StringLiteral(s) => {
            lemma_string_props(s);
            match spec_gen_string(s) {
                Some(chars) => {
                    let head = seq![
                        InsV::Push(crate::vm::Segment::Constant, s.len() as int),
                        InsV::Call("String.new"@, 1),
                    ];
                    lemma_effect2(head[0], head[1]);
                    assert(head =~= seq![head[0], head[1]]);
                    assert(forall|i: int| 0 <= i < head.len() ==> no_jump(#[trigger] head[i]));
                    lemma_plain_ins(head);
                    lemma_plain_concat(head, 1, chars, 0);
                },
                None => {},
            }
        },
        _ => {
            match spec_gen_term(st, class, t) {
                Some(c) => {
                    assert(forall|i: int| 0 <= i < c.len() ==> no_jump(#[trigger] c[i]));
                    lemma_no_jump_free(c);
                    if c.len() == 1 {
                        lemma_effect_singleton(c[0]);
                        assert(c =~= seq![c[0]]);
                    } else {
                        lemma_effect2(c[0], c[1]);
                        assert(c =~= seq![c[0], c[1]]);
                    }
                },
                None => {},
            }
        },
    }
}

proof fn lemma_chain_props(st: SymView, class: Seq<char>, e: ExpressionV, k: int)
    ensures
        spec_gen_chain(st, class, e, k) matches Some(c) ==> plain_code(c, 1),
    decreases e.terms, 1int, k,
{
    if k <= 0 || k > e.terms.len() {
    } else if k == 1 {
        lemma_term_props(st, class, e.terms[0]);
    } else {
        lemma_chain_props(st, class, e, k - 1);
        lemma_term_props(st, class, e.terms[k - 1]);
        match spec_gen_chain(st, class, e, k - 1) {
            Some(pre) => match spec_gen_term(st, class, e.terms[k - 1]) {
                Some(tc) => {
                    let opv = seq![crate::generator::spec_op_ins(e.ops[k - 2])];
                    lemma_effect_singleton(opv[0]);
                    assert(opv =~= seq![opv[0]]);
                    assert(forall|i: int| 0 <= i < opv.len() ==> no_jump(#[trigger] opv[i]));
                    lemma_plain_ins(opv);
                    lemma_plain_concat(pre, 1, tc, 1);
                    lemma_plain_concat(pre + tc, 2, opv, -1);
                },
                None => {},
            },
            None => {},
        }
    }
}

proof fn lemma_expr_props(st: SymView, class: Seq<char>, e: ExpressionV)
    ensures
        spec_gen_expr(st, class, e) matches Some(c) ==> plain_code(c, 1),
    decreases e, 2int, 0int,
{
    if e.terms.len() == e.ops.len() + 1 {
        lemma_chain_props(st, class, e, e.terms.len() as int);
    }
}

proof fn lemma_args_props(st: SymView, class: Seq<char>, es: Seq<ExpressionV>)
    ensures
        spec_gen_args(st, class, es) matches Some(c) ==> plain_code(c, es.len() as int),
    decreases es, 1int, 0int,
{
    if es.len() > 0 {
        lemma_args_props(st, class, es.drop_last());
        lemma_expr_props(st, class, es.last());
        match spec_gen_args(st, class, es.drop_last()) {
            Some(pre) => match spec_gen_expr(st, class, es.last()) {
                Some(ec) => {
                    lemma_plain_concat(pre, es.len() - 1, ec, 1);
                },
                None => {},
            },
            None => {},
        }
    } else {
        assert(spec_gen_args(st, class, es) == Some(Seq::<InsV>::empty()));
        assert(labels_of(Seq::<InsV>::empty()) == Seq::<Seq<char>>::empty());
        assert(targets_of(Seq::<InsV>::empty()) == Seq::<Seq<char>>::empty());
    }
}

proof fn lemma_call_props(st: SymView, class: Seq<char>, call: SubroutineCallV)
    ensures
        spec_gen_call(st, class, call) matches Some(c) ==> plain_code(c, 1),
    decreases call, 2int, 0int,
{
    match call {
        SubroutineCallV::Direct(name, args) => {
            lemma_args_props(st, class, args);
            match spec_gen_args(st, class, args) {
                Some(ac) => {
                    if args.len() + 1 <= usize::MAX {
                        let head = seq![InsV::Push(crate::vm::Segment::Pointer, 0)];
                        let tail = seq![
                            InsV::Call(
                                crate::generator::qual_name(class, name),
                                args.len() as int + 1,
                            ),
                        ];
                        lemma_effect_singleton(head[0]);
                        assert(head =~= seq![head[0]]);
                        assert(forall|i: int| 0 <= i < head.len() ==> no_jump(#[trigger] head[i]));
                        lemma_plain_ins(head);
                        lemma_effect_singleton(tail[0]);
                        assert(tail =~= seq![tail[0]]);
                        assert(forall|i: int| 0 <= i < tail.len() ==> no_jump(#[trigger] tail[i]));
                        lemma_plain_ins(tail);
                        lemma_plain_concat(head, 1, ac, args.len() as int);
                        lemma_plain_concat(head + ac, 1 + args.len() as int, tail, -(args.len() as int));
                    }
                },
                None => {},
            }
        },
        SubroutineCallV::Indirect(q, m, args) => {
            lemma_args_props(st, class, args);
            match spec_resolve(st, q) {
                Some(en) => {
                    match crate::generator::spec_type_class(en.kind) {
                        Some(cn) => match spec_gen_args(st, class, args) {
                            Some(ac) => {
                                if args.len() + 1 <= usize::MAX {
                                    let head = seq![crate::generator::push_of(en)];
                                    let tail = seq![
                                        InsV::Call(
                                            crate::generator::qual_name(cn, m),
                                            args.len() as int + 1,
                                        ),
                                    ];
                                    lemma_effect_singleton(head[0]);
                                    assert(head =~= seq![head[0]]);
                                    assert(forall|i: int|
                                        0 <= i < head.len() ==> no_jump(#[trigger] head[i]));
                                    lemma_plain_ins(head);
                                    lemma_effect_singleton(tail[0]);
                                    assert(tail =~= seq![tail[0]]);
                                    assert(forall|i: int|
                                        0 <= i < tail.len() ==> no_jump(#[trigger] tail[i]));
                                    lemma_plain_ins(tail);
                                    lemma_plain_concat(head, 1, ac, args.len() as int);
                                    lemma_plain_concat(
                                        head + ac,
                                        1 + args.len() as int,
                                        tail,
                                        -(args.len() as int),
                                    );
                                }
                            },
                            None => {},
                        },
                        None => {},
                    }
                },
                None => match spec_gen_args(st, class, args) {
                    Some(ac) => {
                        let tail = seq![
                            InsV::Call(crate::generator::qual_name(q, m), args.len() as int),
                        ];
                        lemma_effect_singleton(tail[0]);
                        assert(tail =~= seq![tail[0]]);
                        assert(forall|i: int| 0 <= i < tail.len() ==> no_jump(#[trigger] tail[i]));
                        lemma_plain_ins(tail);
                        lemma_plain_concat(ac, args.len() as int, tail, 1 - args.len());
                    },
                    None => {},
                },
            }
        },
    }
}

/// Within one subroutine, distinct (kind, counter) pairs give distinct
/// label names.
pub proof fn lemma_label_name_injective(full: Seq<char>, k1: Seq<char>, n1: int, k2: Seq<char>, n2: int)
    requires
        is_label_kind(k1),
        is_label_kind(k2),
        n1 >= 0,
        n2 >= 0,
        label_name(full, k1, n1) == label_name(full, k2, n2),
    ensures
        k1 == k2,
        n1 == n2,
{
    let p = full + "$"@;
    assert(label_name(full, k1, n1) == p + (k1 + dec_seq(n1 as nat))) by {
        assert(p + (k1 + dec_seq(n1 as nat)) =~= full + "$"@ + k1 + dec_seq(n1 as nat));
    }
    assert(label_name(full, k2, n2) == p + (k2 + dec_seq(n2 as nat))) by {
        assert(p + (k2 + dec_seq(n2 as nat)) =~= full + "$"@ + k2 + dec_seq(n2 as nat));
    }
    lemma_concat_cancel_left(p, k1 + dec_seq(n1 as nat), k2 + dec_seq(n2 as nat));
    let x = k1 + dec_seq(n1 as nat);
    reveal_strlit("end");
    reveal_strlit("else");
    reveal_strlit("start");
    lemma_dec_len_pos(n1 as nat);
    lemma_dec_len_pos(n2 as nat);
    if k1 == k2 {
        lemma_concat_cancel_left(k1, dec_seq(n1 as nat), dec_seq(n2 as nat));
        lemma_dec_seq_injective(n1 as nat, n2 as nat);
    } else {
        // Any two different kinds disagree at index 0 or 1, and both
        // occupy positions inside `x` because a numeral is nonempty.
        assert(x[0] == k1[0]);
        assert(x[0] == k2[0]);
        if k1.len() >= 2 && k2.len() >= 2 {
            assert(x[1] == k1[1]);
            assert(x[1] == k2[1]);
        }
        assert(false);
    }
}

// ---------------------------------------------------------------------
// Per-subroutine label discipline.
// ---------------------------------------------------------------------

/// `l` is a label this subroutine minted from a counter in `[lo, hi)`.
pub open spec fn label_in_range(full: Seq<char>, l: Seq<char>, lo: int, hi: int) -> bool {
    exists|kind: Seq<char>, c: int|
        is_label_kind(kind) && lo <= c < hi && l == #[trigger] label_name(full, kind, c)
}

/// The label discipline of a code block: every defined label was minted
/// from a counter in `[lo, hi)`, no label name is defined twice, and
/// every branch target is defined in the same block.
pub open spec fn wf_labels(full: Seq<char>, code: Seq<InsV>, lo: int, hi: int) -> bool {
    &&& forall|l: Seq<char>| #[trigger] labels_of(code).contains(l) ==> label_in_range(
        full,
        l,
        lo,
        hi,
    )
    &&& forall|i1: int, i2: int|
        0 <= i1 < i2 < labels_of(code).len() ==> labels_of(code)[i1] != labels_of(code)[i2]
    &&& forall|l: Seq<char>| #[trigger] targets_of(code).contains(l) ==> labels_of(code).contains(
        l,
    )
}

proof fn lemma_wf_widen(full: Seq<char>, code: Seq<InsV>, lo: int, hi: int, lo2: int, hi2: int)
    requires
        wf_labels(full, code, lo, hi),
        lo2 <= lo,
        hi <= hi2,
    ensures
        wf_labels(full, code, lo2, hi2),
{
    assert forall|l: Seq<char>| #[trigger] labels_of(code).contains(l) implies label_in_range(
        full,
        l,
        lo2,
        hi2,
    ) by {
        let (kind, c) = choose|kind: Seq<char>, c: int|
            is_label_kind(kind) && lo <= c < hi && l == #[trigger] label_name(full, kind, c);
        assert(is_label_kind(kind) && lo2 <= c < hi2 && l == label_name(full, kind, c));
    }
}

proof fn lemma_wf_plain(full: Seq<char>, code: Seq<InsV>, lo: int, hi: int)
    requires
        labels_of(code) == Seq::<Seq<char>>::empty(),
        targets_of(code) == Seq::<Seq<char>>::empty(),
    ensures
        wf_labels(full, code, lo, hi),
{
}

/// Concatenating blocks whose counters come from adjacent ranges keeps
/// the discipline.
proof fn lemma_wf_concat(
    full: Seq<char>,
    a: Seq<InsV>,
    b: Seq<InsV>,
    lo: int,
    mid: int,
    hi: int,
)
    requires
        wf_labels(full, a, lo, mid),
        wf_labels(full, b, mid, hi),
        0 <= lo <= mid <= hi,
    ensures
        wf_labels(full, a + b, lo, hi),
{
    lemma_labels_of_concat(a, b);
    lemma_targets_of_concat(a, b);
    let la = labels_of(a);
    let lb = labels_of(b);
    let lc = labels_of(a + b);
    assert forall|l: Seq<char>| #[trigger] lc.contains(l) implies label_in_range(
        full,
        l,
        lo,
        hi,
    ) by {
        lemma_contains_concat(la, lb, l);
        if la.contains(l) {
            lemma_wf_widen(full, a, lo, mid, lo, hi);
        } else {
            lemma_wf_widen(full, b, mid, hi, lo, hi);
        }
    }
    assert forall|i1: int, i2: int| 0 <= i1 < i2 < lc.len() implies lc[i1] != lc[i2] by {
        if i1 < la.len() && i2 >= la.len() {
            assert(lc[i1] == la[i1]);
            assert(lc[i2] == lb[i2 - la.len()]);
            assert(la.contains(la[i1]));
            assert(lb.contains(lb[i2 - la.len()]));
            let (k1, c1) = choose|kind: Seq<char>, c: int|
                is_label_kind(kind) && lo <= c < mid && la[i1] == #[trigger] label_name(
                    full,
                    kind,
                    c,
                );
            let (k2, c2) = choose|kind: Seq<char>, c: int|
                is_label_kind(kind) && mid <= c < hi && lb[i2 - la.len()] == #[trigger] label_name(
                    full,
                    kind,
                    c,
                );
            if lc[i1] == lc[i2] {
                lemma_label_name_injective(full, k1, c1, k2, c2);
            }
        } else if i2 < la.len() {
            assert(lc[i1] == la[i1]);
            assert(lc[i2] == la[i2]);
        } else {
            assert(lc[i1] == lb[i1 - la.len()]);
            assert(lc[i2] == lb[i2 - la.len()]);
        }
    }
    assert forall|l: Seq<char>| #[trigger] targets_of(a + b).contains(l) implies lc.contains(
        l,
    ) by {
        lemma_contains_concat(targets_of(a), targets_of(b), l);
        lemma_contains_concat(la, lb, l);
    }
}

/// Appending one freshly minted label to a block keeps the discipline,
/// provided the label's counter lies outside the block's range.
proof fn lemma_wf_push_label(
    full: Seq<char>,
    code: Seq<InsV>,
    lo: int,
    hi: int,
    kind: Seq<char>,
    c: int,
    lo2: int,
    hi2: int,
)
    requires
        wf_labels(full, code, lo, hi),
        is_label_kind(kind),
        0 <= lo2 <= lo <= hi <= hi2,
        c < lo || hi <= c,
        lo2 <= c < hi2,
    ensures
        wf_labels(full, code + seq![InsV::Label(label_name(full, kind, c))], lo2, hi2),
{
    let el = label_name(full, kind, c);
    let lab = seq![InsV::Label(el)];
    lemma_labels_of_concat(code, lab);
    lemma_targets_of_concat(code, lab);
    assert(lab.drop_last() =~= Seq::<InsV>::empty());
    assert(labels_of(Seq::<InsV>::empty()) == Seq::<Seq<char>>::empty());
    assert(targets_of(Seq::<InsV>::empty()) == Seq::<Seq<char>>::empty());
    assert(labels_of(lab) =~= seq![el]);
    assert(targets_of(lab) =~= Seq::<Seq<char>>::empty());
    let la = labels_of(code);
    let lc = labels_of(code + lab);
    assert(lc =~= la.push(el));
    assert forall|l: Seq<char>| #[trigger] lc.contains(l) implies label_in_range(
        full,
        l,
        lo2,
        hi2,
    ) by {
        lemma_contains_concat(la, seq![el], l);
        if la.contains(l) {
            lemma_wf_widen(full, code, lo, hi, lo2, hi2);
        } else {
            assert(seq![el][0] == l);
            assert(is_label_kind(kind) && lo2 <= c < hi2 && l == label_name(full, kind, c));
        }
    }
    assert forall|i1: int, i2: int| 0 <= i1 < i2 < lc.len() implies lc[i1] != lc[i2] by {
        if i2 == la.len() {
            assert(lc[i1] == la[i1]);
            assert(la.contains(la[i1]));
            let (k1, c1) = choose|k: Seq<char>, cc: int|
                is_label_kind(k) && lo <= cc < hi && la[i1] == #[trigger] label_name(full, k, cc);
            if lc[i1] == lc[i2] {
                lemma_label_name_injective(full, k1, c1, kind, c);
            }
        } else {
            assert(lc[i1] == la[i1]);
            assert(lc[i2] == la[i2]);
        }
    }
    assert forall|l: Seq<char>| #[trigger] targets_of(code + lab).contains(l) implies lc.contains(
        l,
    ) by {
        lemma_contains_concat(targets_of(code), targets_of(lab), l);
        assert(targets_of(code).contains(l));
        assert(la.contains(l));
        lemma_contains_concat(la, seq![el], l);
    }
}


// ---------------------------------------------------------------------
// Statement code: balanced, and label-disciplined.
// ---------------------------------------------------------------------

#[verifier::rlimit(100)]
proof fn lemma_stmt_props(st: SymView, class: Seq<char>, full: Seq<char>, s: StatementV, c0: int)
    requires
        c0 >= 0,
    ensures
        spec_gen_stmt(st, class, full, s, c0) matches Some((code, c1)) ==> c0 <= c1
            && code_effect(code) == 0 && wf_labels(full, code, c0, c1),
    decreases s, 2int, 0int,
{
    match s {
        StatementV::Let(name, e) => {
            lemma_expr_props(st, class, e);
            match spec_resolve(st, name) {
                Some(en) => match spec_gen_expr(st, class, e) {
                    Some(ec) => {
                        let tail = seq![crate::generator::pop_of(en)];
                        lemma_effect_singleton(tail[0]);
                        assert(tail =~= seq![tail[0]]);
                        assert(forall|i: int| 0 <= i < tail.len() ==> no_jump(#[trigger] tail[i]));
                        lemma_plain_ins(tail);
                        lemma_plain_concat(ec, 1, tail, -1);
                        lemma_wf_plain(full, ec + tail, c0, c0);
                    },
                    None => {},
                },
                None => {},
            }
        },
        StatementV::LetArray(name, idx, rhs) => {
            lemma_expr_props(st, class, idx);
            lemma_expr_props(st, class, rhs);
            match spec_resolve(st, name) {
                Some(en) => match spec_gen_expr(st, class, idx) {
                    Some(ic) => match spec_gen_expr(st, class, rhs) {
                        Some(rc) => {
                            let head = seq![crate::generator::push_of(en)];
                            let add = seq![InsV::Add];
                            let tail = seq![
                                InsV::Pop(crate::vm::Segment::Temp, 0),
                                InsV::Pop(crate::vm::Segment::Pointer, 1),
                                InsV::Push(crate::vm::Segment::Temp, 0),
                                InsV::Pop(crate::vm::Segment::That, 0),
                            ];
                            lemma_effect_singleton(head[0]);
                            assert(head =~= seq![head[0]]);
                            assert(forall|i: int|
                                0 <= i < head.len() ==> no_jump(#[trigger] head[i]));
                            lemma_plain_ins(head);
                            lemma_effect_singleton(add[0]);
                            assert(add =~= seq![add[0]]);
                            assert(forall|i: int| 0 <= i < add.len() ==> no_jump(#[trigger] add[i]));
                            lemma_plain_ins(add);
                            lemma_effect4(tail[0], tail[1], tail[2], tail[3]);
                            assert(tail =~= seq![tail[0], tail[1], tail[2], tail[3]]);
                            assert(forall|i: int|
                                0 <= i < tail.len() ==> no_jump(#[trigger] tail[i]));
                            lemma_plain_ins(tail);
                            lemma_plain_concat(head, 1, ic, 1);
                            lemma_plain_concat(head + ic, 2, add, -1);
                            lemma_plain_concat(head + ic + add, 1, rc, 1);
                            lemma_plain_concat(head + ic + add + rc, 2, tail, -2);
                            lemma_wf_plain(full, head + ic + add + rc + tail, c0, c0);
                        },
                        None => {},
                    },
                    None => {},
                },
                None => {},
            }
        },
        StatementV::If(cond, then) => {
            if !(c0 >= u32::MAX as int) {
                lemma_expr_props(st, class, cond);
                lemma_stmts_props(st, class, full, then, c0 + 1);
                let el = label_name(full, "end"@, c0);
                match spec_gen_expr(st, class, cond) {
                    Some(cc) => match spec_gen_stmts(st, class, full, then, c0 + 1) {
                        Some((tc, c1)) => {
                            let mid = seq![InsV::Not, InsV::IfGoto(el)];
                            lemma_effect2(mid[0], mid[1]);
                            assert(mid =~= seq![mid[0], mid[1]]);
                            lemma_code_effect_concat(cc, mid);
                            lemma_code_effect_concat(cc + mid, tc);
                            lemma_code_effect_concat(cc + mid + tc, seq![InsV::Label(el)]);
                            lemma_effect_singleton(InsV::Label(el));
                            lemma_labels_of_concat(cc, mid);
                            lemma_targets_of_concat(cc, mid);
                            assert(mid.drop_last() =~= seq![mid[0]]);
                            assert(seq![mid[0]].drop_last() =~= Seq::<InsV>::empty());
                            assert(labels_of(Seq::<InsV>::empty()) == Seq::<Seq<char>>::empty());
                            assert(targets_of(Seq::<InsV>::empty()) == Seq::<Seq<char>>::empty());
                            assert(labels_of(seq![mid[0]]) =~= Seq::<Seq<char>>::empty());
                            assert(targets_of(seq![mid[0]]) =~= Seq::<Seq<char>>::empty());
                            assert(labels_of(mid) =~= Seq::<Seq<char>>::empty());
                            assert(targets_of(mid) =~= seq![el]);
                            lemma_labels_of_concat(cc + mid, tc);
                            lemma_targets_of_concat(cc + mid, tc);
                            let body = cc + mid + tc;
                            assert(labels_of(body) =~= labels_of(tc));
                            assert(targets_of(body) =~= seq![el] + targets_of(tc));
                            let lab = seq![InsV::Label(el)];
                            lemma_labels_of_concat(body, lab);
                            lemma_targets_of_concat(body, lab);
                            assert(lab.drop_last() =~= Seq::<InsV>::empty());
                            assert(labels_of(lab) =~= seq![el]);
                            assert(targets_of(lab) =~= Seq::<Seq<char>>::empty());
                            let code = body + lab;
                            let lc = labels_of(code);
                            assert(lc =~= labels_of(tc).push(el));
                            assert forall|l: Seq<char>| #[trigger] lc.contains(l)
                                implies label_in_range(full, l, c0, c1) by {
                                lemma_contains_concat(labels_of(tc), seq![el], l);
                                if labels_of(tc).contains(l) {
                                    lemma_wf_widen(full, tc, c0 + 1, c1, c0, c1);
                                } else {
                                    assert(seq![el][0] == el);
                                    assert(is_label_kind("end"@) && c0 <= c0 < c1 && l
                                        == label_name(full, "end"@, c0));
                                }
                            }
                            assert forall|i1: int, i2: int| 0 <= i1 < i2 < lc.len()
                                implies lc[i1] != lc[i2] by {
                                let lt = labels_of(tc);
                                if i2 == lt.len() {
                                    assert(lc[i1] == lt[i1]);
                                    assert(lt.contains(lt[i1]));
                                    let (k1, cc1) = choose|k: Seq<char>, cc1: int|
                                        is_label_kind(k) && c0 + 1 <= cc1 < c1 && lt[i1]
                                            == #[trigger] label_name(full, k, cc1);
                                    if lc[i1] == lc[i2] {
                                        lemma_label_name_injective(full, k1, cc1, "end"@, c0);
                                    }
                                } else {
                                    assert(lc[i1] == labels_of(tc)[i1]);
                                    assert(lc[i2] == labels_of(tc)[i2]);
                                }
                            }
                            assert forall|l: Seq<char>| #[trigger] targets_of(code).contains(l)
                                implies lc.contains(l) by {
                                lemma_contains_concat(targets_of(body), targets_of(lab), l);
                                lemma_contains_concat(seq![el], targets_of(tc), l);
                                lemma_contains_concat(labels_of(tc), seq![el], l);
                                if targets_of(tc).contains(l) {
                                    assert(labels_of(tc).contains(l));
                                } else {
                                    assert(seq![el][0] == el);
                                }
                            }
                        },
                        None => {},
                    },
                    None => {},
                }
            }
        },
        StatementV::IfElse(cond, then, els) => {
            if !(c0 + 1 >= u32::MAX as int) {
                lemma_expr_props(st, class, cond);
                lemma_stmts_props(st, class, full, then, c0 + 2);
                let else_l = label_name(full, "else"@, c0);
                let end_l = label_name(full, "end"@, c0 + 1);
                match spec_gen_expr(st, class, cond) {
                    Some(cc) => match spec_gen_stmts(st, class, full, then, c0 + 2) {
                        Some((tc, c1)) => {
                            lemma_stmts_props(st, class, full, els, c1);
                            match spec_gen_stmts(st, class, full, els, c1) {
                                Some((ec, c2)) => {
                                    let mid = seq![InsV::Not, InsV::IfGoto(else_l)];
                                    let mid2 = seq![InsV::Goto(end_l), InsV::Label(else_l)];
                                    let lab = seq![InsV::Label(end_l)];
                                    lemma_effect2(mid[0], mid[1]);
                                    assert(mid =~= seq![mid[0], mid[1]]);
                                    lemma_effect2(mid2[0], mid2[1]);
                                    assert(mid2 =~= seq![mid2[0], mid2[1]]);
                                    lemma_effect_singleton(lab[0]);
                                    assert(lab =~= seq![lab[0]]);
                                    let code = cc + mid + tc + mid2 + ec + lab;
                                    lemma_code_effect_concat(cc, mid);
                                    lemma_code_effect_concat(cc + mid, tc);
                                    lemma_code_effect_concat(cc + mid + tc, mid2);
                                    lemma_code_effect_concat(cc + mid + tc + mid2, ec);
                                    lemma_code_effect_concat(cc + mid + tc + mid2 + ec, lab);
                                    assert(mid.drop_last() =~= seq![mid[0]]);
                                    assert(seq![mid[0]].drop_last() =~= Seq::<InsV>::empty());
                                    assert(labels_of(Seq::<InsV>::empty()) == Seq::<
                                        Seq<char>,
                                    >::empty());
                                    assert(targets_of(Seq::<InsV>::empty()) == Seq::<
                                        Seq<char>,
                                    >::empty());
                                    assert(labels_of(seq![mid[0]]) =~= Seq::<Seq<char>>::empty());
                                    assert(targets_of(seq![mid[0]]) =~= Seq::<Seq<char>>::empty());
                                    assert(labels_of(mid) =~= Seq::<Seq<char>>::empty());
                                    assert(targets_of(mid) =~= seq![else_l]);
                                    assert(mid2.drop_last() =~= seq![mid2[0]]);
                                    assert(seq![mid2[0]].drop_last() =~= Seq::<InsV>::empty());
                                    assert(labels_of(seq![mid2[0]]) =~= Seq::<Seq<char>>::empty());
                                    assert(targets_of(seq![mid2[0]]) =~= seq![end_l]);
                                    assert(labels_of(mid2) =~= seq![else_l]);
                                    assert(targets_of(mid2) =~= seq![end_l]);
                                    assert(lab.drop_last() =~= Seq::<InsV>::empty());
                                    assert(labels_of(lab) =~= seq![end_l]);
                                    assert(targets_of(lab) =~= Seq::<Seq<char>>::empty());
                                    lemma_labels_of_concat(cc, mid);
                                    lemma_targets_of_concat(cc, mid);
                                    lemma_labels_of_concat(cc + mid, tc);
                                    lemma_targets_of_concat(cc + mid, tc);
                                    lemma_labels_of_concat(cc + mid + tc, mid2);
                                    lemma_targets_of_concat(cc + mid + tc, mid2);
                                    lemma_labels_of_concat(cc + mid + tc + mid2, ec);
                                    lemma_targets_of_concat(cc + mid + tc + mid2, ec);
                                    lemma_labels_of_concat(cc + mid + tc + mid2 + ec, lab);
                                    lemma_targets_of_concat(cc + mid + tc + mid2 + ec, lab);
                                    let lc = labels_of(code);
                                    assert(lc =~= labels_of(tc) + seq![else_l] + labels_of(ec)
                                        + seq![end_l]);
                                    assert(targets_of(code) =~= seq![else_l] + targets_of(tc)
                                        + seq![end_l] + targets_of(ec));
                                    assert forall|l: Seq<char>| #[trigger] lc.contains(l)
                                        implies label_in_range(full, l, c0, c2) by {
                                        lemma_contains_concat(
                                            labels_of(tc) + seq![else_l] + labels_of(ec),
                                            seq![end_l],
                                            l,
                                        );
                                        lemma_contains_concat(
                                            labels_of(tc) + seq![else_l],
                                            labels_of(ec),
                                            l,
                                        );
                                        lemma_contains_concat(labels_of(tc), seq![else_l], l);
                                        if labels_of(tc).contains(l) {
                                            lemma_wf_widen(full, tc, c0 + 2, c1, c0, c2);
                                        } else if labels_of(ec).contains(l) {
                                            lemma_wf_widen(full, ec, c1, c2, c0, c2);
                                        } else if l == else_l {
                                            assert(is_label_kind("else"@) && c0 <= c0 < c2 && l
                                                == label_name(full, "else"@, c0));
                                        } else {
                                            assert(seq![end_l][0] == end_l);
                                            assert(is_label_kind("end"@) && c0 <= c0 + 1 < c2 && l
                                                == label_name(full, "end"@, c0 + 1));
                                        }
                                    }
                                    assert forall|i1: int, i2: int| 0 <= i1 < i2 < lc.len()
                                        implies lc[i1] != lc[i2] by {
                                        lemma_ifelse_distinct(
                                            full, tc, ec, else_l, end_l, c0, c1, c2, i1, i2,
                                        );
                                    }
                                    assert forall|l: Seq<char>| #[trigger] targets_of(
                                        code,
                                    ).contains(l) implies lc.contains(l) by {
                                        lemma_contains_concat(
                                            seq![else_l] + targets_of(tc) + seq![end_l],
                                            targets_of(ec),
                                            l,
                                        );
                                        lemma_contains_concat(
                                            seq![else_l] + targets_of(tc),
                                            seq![end_l],
                                            l,
                                        );
                                        lemma_contains_concat(seq![else_l], targets_of(tc), l);
                                        lemma_contains_concat(
                                            labels_of(tc) + seq![else_l] + labels_of(ec),
                                            seq![end_l],
                                            l,
                                        );
                                        lemma_contains_concat(
                                            labels_of(tc) + seq![else_l],
                                            labels_of(ec),
                                            l,
                                        );
                                        lemma_contains_concat(labels_of(tc), seq![else_l], l);
                                        assert(seq![else_l][0] == else_l);
                                        assert(seq![end_l][0] == end_l);
                                    }
                                },
                                None => {},
                            }
                        },
                        None => {},
                    },
                    None => {},
                }
            }
        },
        StatementV::While(cond, body) => {
            if !(c0 + 1 >= u32::MAX as int) {
                lemma_expr_props(st, class, cond);
                lemma_stmts_props(st, class, full, body, c0 + 2);
                let start_l = label_name(full, "start"@, c0);
                let end_l = label_name(full, "end"@, c0 + 1);
                match spec_gen_expr(st, class, cond) {
                    Some(cc) => match spec_gen_stmts(st, class, full, body, c0 + 2) {
                        Some((bc, c1)) => {
                            let head = seq![InsV::Label(start_l)];
                            let mid = seq![InsV::Not, InsV::IfGoto(end_l)];
                            let tail = seq![InsV::Goto(start_l), InsV::Label(end_l)];
                            lemma_effect_singleton(head[0]);
                            assert(head =~= seq![head[0]]);
                            lemma_effect2(mid[0], mid[1]);
                            assert(mid =~= seq![mid[0], mid[1]]);
                            lemma_effect2(tail[0], tail[1]);
                            assert(tail =~= seq![tail[0], tail[1]]);
                            let code = head + cc + mid + bc + tail;
                            lemma_code_effect_concat(head, cc);
                            lemma_code_effect_concat(head + cc, mid);
                            lemma_code_effect_concat(head + cc + mid, bc);
                            lemma_code_effect_concat(head + cc + mid + bc, tail);
                            assert(head.drop_last() =~= Seq::<InsV>::empty());
                            assert(labels_of(Seq::<InsV>::empty()) == Seq::<Seq<char>>::empty());
                            assert(targets_of(Seq::<InsV>::empty()) == Seq::<Seq<char>>::empty());
                            assert(labels_of(head) =~= seq![start_l]);
                            assert(targets_of(head) =~= Seq::<Seq<char>>::empty());
                            assert(mid.drop_last() =~= seq![mid[0]]);
                            assert(seq![mid[0]].drop_last() =~= Seq::<InsV>::empty());
                            assert(labels_of(seq![mid[0]]) =~= Seq::<Seq<char>>::empty());
                            assert(targets_of(seq![mid[0]]) =~= Seq::<Seq<char>>::empty());
                            assert(labels_of(mid) =~= Seq::<Seq<char>>::empty());
                            assert(targets_of(mid) =~= seq![end_l]);
                            assert(tail.drop_last() =~= seq![tail[0]]);
                            assert(seq![tail[0]].drop_last() =~= Seq::<InsV>::empty());
                            assert(labels_of(seq![tail[0]]) =~= Seq::<Seq<char>>::empty());
                            assert(targets_of(seq![tail[0]]) =~= seq![start_l]);
                            assert(labels_of(tail) =~= seq![end_l]);
                            assert(targets_of(tail) =~= seq![start_l]);
                            lemma_labels_of_concat(head, cc);
                            lemma_targets_of_concat(head, cc);
                            lemma_labels_of_concat(head + cc, mid);
                            lemma_targets_of_concat(head + cc, mid);
                            lemma_labels_of_concat(head + cc + mid, bc);
                            lemma_targets_of_concat(head + cc + mid, bc);
                            lemma_labels_of_concat(head + cc + mid + bc, tail);
                            lemma_targets_of_concat(head + cc + mid + bc, tail);
                            let lc = labels_of(code);
                            assert(lc =~= seq![start_l] + labels_of(bc) + seq![end_l]);
                            assert(targets_of(code) =~= seq![end_l] + targets_of(bc)
                                + seq![start_l]);
                            assert forall|l: Seq<char>| #[trigger] lc.contains(l)
                                implies label_in_range(full, l, c0, c1) by {
                                lemma_contains_concat(seq![start_l] + labels_of(bc), seq![end_l], l);
                                lemma_contains_concat(seq![start_l], labels_of(bc), l);
                                if labels_of(bc).contains(l) {
                                    lemma_wf_widen(full, bc, c0 + 2, c1, c0, c1);
                                } else if l == start_l {
                                    assert(is_label_kind("start"@) && c0 <= c0 < c1 && l
                                        == label_name(full, "start"@, c0));
                                } else {
                                    assert(seq![end_l][0] == end_l);
                                    assert(is_label_kind("end"@) && c0 <= c0 + 1 < c1 && l
                                        == label_name(full, "end"@, c0 + 1));
                                }
                            }
                            assert forall|i1: int, i2: int| 0 <= i1 < i2 < lc.len()
                                implies lc[i1] != lc[i2] by {
                                lemma_while_distinct(full, bc, start_l, end_l, c0, c1, i1, i2);
                            }
                            assert forall|l: Seq<char>| #[trigger] targets_of(code).contains(l)
                                implies lc.contains(l) by {
                                lemma_contains_concat(seq![end_l] + targets_of(bc), seq![start_l], l);
                                lemma_contains_concat(seq![end_l], targets_of(bc), l);
                                lemma_contains_concat(seq![start_l] + labels_of(bc), seq![end_l], l);
                                lemma_contains_concat(seq![start_l], labels_of(bc), l);
                                assert(seq![start_l][0] == start_l);
                                assert(seq![end_l][0] == end_l);
                            }
                        },
                        None => {},
                    },
                    None => {},
                }
            }
        },
        StatementV::Do(call) => {
            lemma_call_props(st, class, call);
            match spec_gen_call(st, class, call) {
                Some(cc) => {
                    let tail = seq![InsV::Pop(crate::vm::Segment::Temp, 0)];
                    lemma_effect_singleton(tail[0]);
                    assert(tail =~= seq![tail[0]]);
                    assert(forall|i: int| 0 <= i < tail.len() ==> no_jump(#[trigger] tail[i]));
                    lemma_plain_ins(tail);
                    lemma_plain_concat(cc, 1, tail, -1);
                    lemma_wf_plain(full, cc + tail, c0, c0);
                },
                None => {},
            }
        },
        StatementV::Return => {
            let code = seq![InsV::Push(crate::vm::Segment::Constant, 0), InsV::Return];
            lemma_effect2(code[0], code[1]);
            assert(code =~= seq![code[0], code[1]]);
            assert(forall|i: int| 0 <= i < code.len() ==> no_jump(#[trigger] code[i]));
            lemma_plain_ins(code);
            lemma_wf_plain(full, code, c0, c0);
        },
        StatementV::ReturnExpression(e) => {
            lemma_expr_props(st, class, e);
            match spec_gen_expr(st, class, e) {
                Some(ec) => {
                    let tail = seq![InsV::Return];
                    lemma_effect_singleton(tail[0]);
                    assert(tail =~= seq![tail[0]]);
                    assert(forall|i: int| 0 <= i < tail.len() ==> no_jump(#[trigger] tail[i]));
                    lemma_plain_ins(tail);
                    lemma_plain_concat(ec, 1, tail, -1);
                    lemma_wf_plain(full, ec + tail, c0, c0);
                },
                None => {},
            }
        },
    }
}

/// Distinctness for the `if`/`else` label layout.
proof fn lemma_ifelse_distinct(
    full: Seq<char>,
    tc: Seq<InsV>,
    ec: Seq<InsV>,
    else_l: Seq<char>,
    end_l: Seq<char>,
    c0: int,
    c1: int,
    c2: int,
    i1: int,
    i2: int,
)
    requires
        0 <= c0,
        c0 + 2 <= c1 <= c2,
        wf_labels(full, tc, c0 + 2, c1),
        wf_labels(full, ec, c1, c2),
        else_l == label_name(full, "else"@, c0),
        end_l == label_name(full, "end"@, c0 + 1),
        0 <= i1 < i2 < (labels_of(tc) + seq![else_l] + labels_of(ec) + seq![end_l]).len(),
    ensures
        (labels_of(tc) + seq![else_l] + labels_of(ec) + seq![end_l])[i1] != (labels_of(tc)
            + seq![else_l] + labels_of(ec) + seq![end_l])[i2],
{
    let lt = labels_of(tc);
    let le = labels_of(ec);
    let lc = lt + seq![else_l] + le + seq![end_l];
    if lc[i1] == lc[i2] {
        let w1 = lemma_ifelse_witness(full, lt, le, else_l, end_l, c0, c1, c2, i1);
        let w2 = lemma_ifelse_witness(full, lt, le, else_l, end_l, c0, c1, c2, i2);
        lemma_label_name_injective(full, w1.0, w1.1, w2.0, w2.1);
        assert(false);
    }
}

/// The counter witness for one position of the `if`/`else` label list.
proof fn lemma_ifelse_witness(
    full: Seq<char>,
    lt: Seq<Seq<char>>,
    le: Seq<Seq<char>>,
    else_l: Seq<char>,
    end_l: Seq<char>,
    c0: int,
    c1: int,
    c2: int,
    i: int,
) -> (r: (Seq<char>, int))
    requires
        0 <= c0,
        c0 + 2 <= c1 <= c2,
        forall|l: Seq<char>| #[trigger] lt.contains(l) ==> label_in_range(full, l, c0 + 2, c1),
        forall|l: Seq<char>| #[trigger] le.contains(l) ==> label_in_range(full, l, c1, c2),
        else_l == label_name(full, "else"@, c0),
        end_l == label_name(full, "end"@, c0 + 1),
        0 <= i < (lt + seq![else_l] + le + seq![end_l]).len(),
    ensures
        is_label_kind(r.0),
        r.1 >= 0,
        (lt + seq![else_l] + le + seq![end_l])[i] == label_name(full, r.0, r.1),
        i < lt.len() ==> c0 + 2 <= r.1 < c1,
        i == lt.len() ==> r.1 == c0,
        lt.len() < i < lt.len() + 1 + le.len() ==> c1 <= r.1 < c2,
        i >= lt.len() + 1 + le.len() ==> r.1 == c0 + 1,
{
    let lc = lt + seq![else_l] + le + seq![end_l];
    if i < lt.len() {
        assert(lc[i] == lt[i]);
        assert(lt.contains(lt[i]));
        let (k, c) = choose|k: Seq<char>, c: int|
            is_label_kind(k) && c0 + 2 <= c < c1 && lt[i] == #[trigger] label_name(full, k, c);
        (k, c)
    } else if i == lt.len() {
        assert(lc[i] == else_l);
        ("else"@, c0)
    } else if i < lt.len() + 1 + le.len() {
        assert(lc[i] == le[i - lt.len() - 1]);
        assert(le.contains(le[i - lt.len() - 1]));
        let (k, c) = choose|k: Seq<char>, c: int|
            is_label_kind(k) && c1 <= c < c2 && le[i - lt.len() - 1] == #[trigger] label_name(
                full,
                k,
                c,
            );
        (k, c)
    } else {
        assert(lc[i] == end_l);
        ("end"@, c0 + 1)
    }
}

/// Distinctness for the `while` label layout.
proof fn lemma_while_distinct(
    full: Seq<char>,
    bc: Seq<InsV>,
    start_l: Seq<char>,
    end_l: Seq<char>,
    c0: int,
    c1: int,
    i1: int,
    i2: int,
)
    requires
        0 <= c0,
        c0 + 2 <= c1,
        wf_labels(full, bc, c0 + 2, c1),
        start_l == label_name(full, "start"@, c0),
        end_l == label_name(full, "end"@, c0 + 1),
        0 <= i1 < i2 < (seq![start_l] + labels_of(bc) + seq![end_l]).len(),
    ensures
        (seq![start_l] + labels_of(bc) + seq![end_l])[i1] != (seq![start_l] + labels_of(bc)
            + seq![end_l])[i2],
{
    let lb = labels_of(bc);
    let lc = seq![start_l] + lb + seq![end_l];
    if lc[i1] == lc[i2] {
        let w1 = lemma_while_witness(full, lb, start_l, end_l, c0, c1, i1);
        let w2 = lemma_while_witness(full, lb, start_l, end_l, c0, c1, i2);
        lemma_label_name_injective(full, w1.0, w1.1, w2.0, w2.1);
        assert(false);
    }
}

proof fn lemma_while_witness(
    full: Seq<char>,
    lb: Seq<Seq<char>>,
    start_l: Seq<char>,
    end_l: Seq<char>,
    c0: int,
    c1: int,
    i: int,
) -> (r: (Seq<char>, int))
    requires
        0 <= c0,
        c0 + 2 <= c1,
        forall|l: Seq<char>| #[trigger] lb.contains(l) ==> label_in_range(full, l, c0 + 2, c1),
        start_l == label_name(full, "start"@, c0),
        end_l == label_name(full, "end"@, c0 + 1),
        0 <= i < (seq![start_l] + lb + seq![end_l]).len(),
    ensures
        is_label_kind(r.0),
        r.1 >= 0,
        (seq![start_l] + lb + seq![end_l])[i] == label_name(full, r.0, r.1),
        i == 0 ==> r.1 == c0,
        0 < i < 1 + lb.len() ==> c0 + 2 <= r.1 < c1,
        i >= 1 + lb.len() ==> r.1 == c0 + 1,
{
    let lc = seq![start_l] + lb + seq![end_l];
    if i == 0 {
        assert(lc[i] == start_l);
        ("start"@, c0)
    } else if i < 1 + lb.len() {
        assert(lc[i] == lb[i - 1]);
        assert(lb.contains(lb[i - 1]));
        let (k, c) = choose|k: Seq<char>, c: int|
            is_label_kind(k) && c0 + 2 <= c < c1 && lb[i - 1] == #[trigger] label_name(full, k, c);
        (k, c)
    } else {
        assert(lc[i] == end_l);
        ("end"@, c0 + 1)
    }
}

proof fn lemma_stmts_props(
    st: SymView,
    class: Seq<char>,
    full: Seq<char>,
    ss: Seq<StatementV>,
    c0: int,
)
    requires
        c0 >= 0,
    ensures
        spec_gen_stmts(st, class, full, ss, c0) matches Some((code, c1)) ==> c0 <= c1
            && code_effect(code) == 0 && wf_labels(full, code, c0, c1),
    decreases ss, 1int, 0int,
{
    if ss.len() > 0 {
        lemma_stmts_props(st, class, full, ss.drop_last(), c0);
        match spec_gen_stmts(st, class, full, ss.drop_last(), c0) {
            Some((pre, c1)) => {
                lemma_stmt_props(st, class, full, ss.last(), c1);
                match spec_gen_stmt(st, class, full, ss.last(), c1) {
                    Some((sc, c2)) => {
                        lemma_code_effect_concat(pre, sc);
                        lemma_wf_concat(full, pre, sc, c0, c1, c2);
                    },
                    None => {},
                }
            },
            None => {},
        }
    } else {
        assert(labels_of(Seq::<InsV>::empty()) == Seq::<Seq<char>>::empty());
        assert(targets_of(Seq::<InsV>::empty()) == Seq::<Seq<char>>::empty());
    }
}


// ---------------------------------------------------------------------
// The laws.
// ---------------------------------------------------------------------

/// Determinism: the generated instruction sequence is a function of the
/// class declaration alone, so compiling equal declarations yields
/// identical sequences, and hence byte-identical listings.
pub proof fn lemma_generate_deterministic(t1: ParseTree, t2: ParseTree)
    requires
        view_tree(t1) == view_tree(t2),
    ensures
        spec_generate(view_tree(t1)) == spec_generate(view_tree(t2)),
        spec_generate(view_tree(t1)) is Some ==> crate::vm::render_lines(
            spec_generate(view_tree(t1)).unwrap(),
        ) == crate::vm::render_lines(spec_generate(view_tree(t2)).unwrap()),
{
}

/// Stack balance for expressions: the code generated for an expression
/// leaves exactly one net value on the operand stack, and contains no
/// labels or branches.
pub proof fn lemma_expression_stack_balance(st: SymView, class: Seq<char>, e: ExpressionV)
    ensures
        spec_gen_expr(st, class, e) matches Some(c) ==> code_effect(c) == 1 && labels_of(c)
            == Seq::<Seq<char>>::empty() && targets_of(c) == Seq::<Seq<char>>::empty(),
{
    lemma_expr_props(st, class, e);
}

/// Stack balance for statements: the code generated for a statement
/// leaves the stack depth unchanged.  A `do` discards its call's value
/// with the trailing pop; `return` hands the value on top of the stack
/// to the caller, which `ins_effect` counts as consuming it.
pub proof fn lemma_statement_stack_balance(
    st: SymView,
    class: Seq<char>,
    full: Seq<char>,
    s: StatementV,
    c0: int,
)
    requires
        c0 >= 0,
    ensures
        spec_gen_stmt(st, class, full, s, c0) matches Some((code, _)) ==> code_effect(code) == 0,
{
    lemma_stmt_props(st, class, full, s, c0);
}

/// Label uniqueness: within one subroutine's generated code, every
/// `label` name is defined exactly once, and every `goto`/`if-goto`
/// references a label defined in that same subroutine's code.
pub proof fn lemma_subroutine_label_uniqueness(
    class: Seq<char>,
    ct: Seq<SymEntryV>,
    s: SubRoutineV,
)
    ensures
        spec_gen_subroutine(class, ct, s) matches Some(code) ==> (forall|i1: int, i2: int|
            0 <= i1 < i2 < labels_of(code).len() ==> labels_of(code)[i1] != labels_of(code)[i2])
            && (forall|l: Seq<char>| #[trigger] targets_of(code).contains(l) ==> labels_of(
            code,
        ).contains(l)),
{
    match s {
        SubRoutineV::Constructor(_, name, params, body) => {
            let full = crate::generator::qual_name(class, name);
            let st = SymView {
                class: ct,
                local: crate::symbols::spec_local_entries(params, body.var_declarations, None),
                filter_field: false,
            };
            lemma_stmts_props(st, class, full, body.statements, 0);
            match spec_gen_stmts(st, class, full, body.statements, 0) {
                Some((bc, c1)) => {
                    let head = seq![
                        InsV::Function(full, body.var_declarations.len() as int),
                        InsV::Push(crate::vm::Segment::Constant, crate::symbols::entry_field_count(ct)),
                        InsV::Call("Memory.alloc"@, 1),
                        InsV::Pop(crate::vm::Segment::Pointer, 0),
                    ];
                    assert(forall|i: int| 0 <= i < head.len() ==> no_jump(#[trigger] head[i]));
                    lemma_no_jump_free(head);
                    lemma_wf_plain(full, head, 0, 0);
                    lemma_wf_concat(full, head, bc, 0, 0, c1);
                },
                None => {},
            }
        },
        SubRoutineV::Function(_, name, params, body) => {
            let full = crate::generator::qual_name(class, name);
            let st = SymView {
                class: ct,
                local: crate::symbols::spec_local_entries(params, body.var_declarations, None),
                filter_field: true,
            };
            lemma_stmts_props(st, class, full, body.statements, 0);
            match spec_gen_stmts(st, class, full, body.statements, 0) {
                Some((bc, c1)) => {
                    let head = seq![InsV::Function(full, body.var_declarations.len() as int)];
                    assert(forall|i: int| 0 <= i < head.len() ==> no_jump(#[trigger] head[i]));
                    lemma_no_jump_free(head);
                    lemma_wf_plain(full, head, 0, 0);
                    lemma_wf_concat(full, head, bc, 0, 0, c1);
                },
                None => {},
            }
        },
        SubRoutineV::Method(_, name, params, body) => {
            let full = crate::generator::qual_name(class, name);
            let st = SymView {
                class: ct,
                local: crate::symbols::spec_local_entries(
                    params,
                    body.var_declarations,
                    Some(class),
                ),
                filter_field: false,
            };
            lemma_stmts_props(st, class, full, body.statements, 0);
            match spec_gen_stmts(st, class, full, body.statements, 0) {
                Some((bc, c1)) => {
                    let head = seq![
                        InsV::Function(full, body.var_declarations.len() as int),
                        InsV::Push(crate::vm::Segment::Argument, 0),
                        InsV::Pop(crate::vm::Segment::Pointer, 0),
                    ];
                    assert(forall|i: int| 0 <= i < head.len() ==> no_jump(#[trigger] head[i]));
                    lemma_no_jump_free(head);
                    lemma_wf_plain(full, head, 0, 0);
                    lemma_wf_concat(full, head, bc, 0, 0, c1);
                },
                None => {},
            }
        },
    }
}

/// Field invisibility: a class-level `field` identifier referenced
/// inside a `function` body does not resolve, so generating code for a
/// term that reads it fails.
pub proof fn lemma_field_invisible_in_function(st: SymView, class: Seq<char>, name: Seq<char>)
    requires
        st.filter_field,
        lookup(st.local, name) is None,
        lookup(st.class, name) matches Some(e) && e.kind matches crate::symbols::VarKindV::Field(_),
    ensures
        spec_resolve(st, name) is None,
        spec_gen_term(st, class, TermV::Variable(name)) is None,
{
}

/// Shadowing: a local variable or parameter with the same name as a
/// class entry resolves to the local entry.
pub proof fn lemma_local_shadows_class(st: SymView, name: Seq<char>)
    requires
        lookup(st.local, name) is Some,
    ensures
        spec_resolve(st, name) == lookup(st.local, name),
{
}

} // verus!
