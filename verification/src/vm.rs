//! The stack-machine instruction set that the code generator emits.
//!
//! Instructions are modeled as structured values; `render_instruction`
//! produces the textual line for each one (`push constant 2`,
//! `call String.new 1`, ...), and `render_program` the whole newline-joined
//! listing.  Spec-level twins (`InsV`) carry the same data with
//! mathematical sequences in place of heap strings, so that contracts and
//! laws can speak about emitted code.

use vstd::prelude::*;

verus! {

/// The eight named storage segments of the virtual machine.
#[derive(Clone, Copy, PartialEq, Eq, Structural, Debug)]
pub enum Segment {
    Argument,
    Local,
    Static,
    Constant,
    This,
    That,
    Pointer,
    Temp,
}

/// One stack-machine instruction, as emitted by the code generator.
#[derive(PartialEq, Eq, Debug)]
pub enum VmInstruction {
    Push(Segment, usize),
    Pop(Segment, usize),
    Add,
    Sub,
    Neg,
    Eq,
    Gt,
    Lt,
    And,
    Or,
    Not,
    Label(String),
    Goto(String),
    IfGoto(String),
    Function(String, usize),
    Call(String, usize),
    Return,
}

/// Mathematical twin of `VmInstruction`: names are character sequences,
/// indices unbounded integers.
pub enum InsV {
    Push(Segment, int),
    Pop(Segment, int),
    Add,
    Sub,
    Neg,
    Eq,
    Gt,
    Lt,
    And,
    Or,
    Not,
    Label(Seq<char>),
    Goto(Seq<char>),
    IfGoto(Seq<char>),
    Function(Seq<char>, int),
    Call(Seq<char>, int),
    Return,
}

pub open spec fn view_ins(i: VmInstruction) -> InsV {
    match i {
        VmInstruction::Push(s, n) => InsV::Push(s, n as int),
        VmInstruction::Pop(s, n) => InsV::Pop(s, n as int),
        VmInstruction::Add => InsV::Add,
        VmInstruction::Sub => InsV::Sub,
        VmInstruction::Neg => InsV::Neg,
        VmInstruction::Eq => InsV::Eq,
        VmInstruction::Gt => InsV::Gt,
        VmInstruction::Lt => InsV::Lt,
        VmInstruction::And => InsV::And,
        VmInstruction::Or => InsV::Or,
        VmInstruction::Not => InsV::Not,
        VmInstruction::Label(l) => InsV::Label(l@),
        VmInstruction::Goto(l) => InsV::Goto(l@),
        VmInstruction::IfGoto(l) => InsV::IfGoto(l@),
        VmInstruction::Function(f, n) => InsV::Function(f@, n as int),
        VmInstruction::Call(f, n) => InsV::Call(f@, n as int),
        VmInstruction::Return => InsV::Return,
    }
}

/// The view of a whole instruction vector.
pub open spec fn view_code(v: Seq<VmInstruction>) -> Seq<InsV> {
    v.map(|i: int, x: VmInstruction| view_ins(x))
}

impl View for VmInstruction {
    type V = InsV;

    open spec fn view(&self) -> InsV {
        view_ins(*self)
    }
}

/// Viewing an instruction vector commutes with appending an instruction.
pub proof fn lemma_view_code_push(pre: Seq<VmInstruction>, x: VmInstruction)
    ensures
        view_code(pre.push(x)) == view_code(pre).push(view_ins(x)),
{
    assert(view_code(pre.push(x)) =~= view_code(pre).push(view_ins(x)));
}

/// Viewing an instruction vector commutes with concatenation.
pub proof fn lemma_view_code_concat(a: Seq<VmInstruction>, b: Seq<VmInstruction>)
    ensures
        view_code(a + b) == view_code(a) + view_code(b),
{
    assert(view_code(a + b) =~= view_code(a) + view_code(b));
}

/// Net number of words an instruction leaves on the operand stack.
/// `return` hands the subroutine's result to the caller, so from the
/// callee's point of view it consumes the one value on top.
pub open spec fn ins_effect(i: InsV) -> int {
    match i {
        InsV::Push(_, _) => 1,
        InsV::Pop(_, _) => -1,
        InsV::Add => -1,
        InsV::Sub => -1,
        InsV::Neg => 0,
        InsV::Eq => -1,
        InsV::Gt => -1,
        InsV::Lt => -1,
        InsV::And => -1,
        InsV::Or => -1,
        InsV::Not => 0,
        InsV::Label(_) => 0,
        InsV::Goto(_) => 0,
        InsV::IfGoto(_) => -1,
        InsV::Function(_, _) => 0,
        InsV::Call(_, n) => 1 - n,
        InsV::Return => -1,
    }
}

/// Net stack effect of an instruction sequence.
pub open spec fn code_effect(c: Seq<InsV>) -> int
    decreases c.len(),
{
    if c.len() == 0 {
        0
    } else {
        ins_effect(c[0]) + code_effect(c.drop_first())
    }
}

/// The stack effect of a concatenation is the sum of the parts' effects.
pub proof fn lemma_code_effect_concat(a: Seq<InsV>, b: Seq<InsV>)
    ensures
        code_effect(a + b) == code_effect(a) + code_effect(b),
    decreases a.len(),
{
    if a.len() == 0 {
        assert(a + b =~= b);
    } else {
        assert((a + b).drop_first() =~= a.drop_first() + b);
        lemma_code_effect_concat(a.drop_first(), b);
    }
}

/// Decimal numeral of a natural number, most significant digit first.
pub open spec fn dec_seq(n: nat) -> Seq<char>
    decreases n,
{
    if n < 10 {
        seq![digit_char(n)]
    } else {
        dec_seq(n / 10).push(digit_char(n % 10))
    }
}

pub open spec fn digit_char(d: nat) -> char {
    if d == 0 {
        '0'
    } else if d == 1 {
        '1'
    } else if d == 2 {
        '2'
    } else if d == 3 {
        '3'
    } else if d == 4 {
        '4'
    } else if d == 5 {
        '5'
    } else if d == 6 {
        '6'
    } else if d == 7 {
        '7'
    } else if d == 8 {
        '8'
    } else {
        '9'
    }
}

fn digit_str(d: usize) -> (s: &'static str)
    requires
        d < 10,
    ensures
        s@ =~= seq![digit_char(d as nat)],
{
    proof {
        reveal_strlit("0");
        reveal_strlit("1");
        reveal_strlit("2");
        reveal_strlit("3");
        reveal_strlit("4");
        reveal_strlit("5");
        reveal_strlit("6");
        reveal_strlit("7");
        reveal_strlit("8");
        reveal_strlit("9");
    }
    if d == 0 {
        "0"
    } else if d == 1 {
        "1"
    } else if d == 2 {
        "2"
    } else if d == 3 {
        "3"
    } else if d == 4 {
        "4"
    } else if d == 5 {
        "5"
    } else if d == 6 {
        "6"
    } else if d == 7 {
        "7"
    } else if d == 8 {
        "8"
    } else {
        "9"
    }
}

/// Decimal rendering of an unsigned number.
pub fn dec_str(n: usize) -> (s: String)
    ensures
        s@ == dec_seq(n as nat),
    decreases n,
{
    if n < 10 {
        String::from_str(digit_str(n))
    } else {
        let mut s = dec_str(n / 10);
        s.append(digit_str(n % 10));
        s
    }
}

/// The textual name of a storage segment.
pub open spec fn segment_name(s: Segment) -> Seq<char> {
    match s {
        Segment::Argument => "argument"@,
        Segment::Local => "local"@,
        Segment::Static => "static"@,
        Segment::Constant => "constant"@,
        Segment::This => "this"@,
        Segment::That => "that"@,
        Segment::Pointer => "pointer"@,
        Segment::Temp => "temp"@,
    }
}

/// The textual name of a storage segment.
pub fn segment_str(s: Segment) -> (r: &'static str)
    ensures
        r@ == segment_name(s),
{
    match s {
        Segment::Argument => "argument",
        Segment::Local => "local",
        Segment::Static => "static",
        Segment::Constant => "constant",
        Segment::This => "this",
        Segment::That => "that",
        Segment::Pointer => "pointer",
        Segment::Temp => "temp",
    }
}

/// The text line for one instruction, in the exact mnemonic forms the
/// downstream translator consumes.
pub open spec fn render_ins(i: InsV) -> Seq<char> {
    match i {
        InsV::Push(s, n) => "push "@ + segment_name(s) + " "@ + dec_seq(n as nat),
        InsV::Pop(s, n) => "pop "@ + segment_name(s) + " "@ + dec_seq(n as nat),
        InsV::Add => "add"@,
        InsV::Sub => "sub"@,
        InsV::Neg => "neg"@,
        InsV::Eq => "eq"@,
        InsV::Gt => "gt"@,
        InsV::Lt => "lt"@,
        InsV::And => "and"@,
        InsV::Or => "or"@,
        InsV::Not => "not"@,
        InsV::Label(l) => "label "@ + l,
        InsV::Goto(l) => "goto "@ + l,
        InsV::IfGoto(l) => "if-goto "@ + l,
        InsV::Function(f, k) => "function "@ + f + " "@ + dec_seq(k as nat),
        InsV::Call(f, k) => "call "@ + f + " "@ + dec_seq(k as nat),
        InsV::Return => "return"@,
    }
}

/// Render one instruction as its text line.
pub fn render_instruction(i: &VmInstruction) -> (s: String)
    ensures
        s@ == render_ins(i@),
{
    match i {
        VmInstruction::Push(seg, n) => {
            let mut s = String::from_str("push ");
            s.append(segment_str(*seg));
            s.append(" ");
            let d = dec_str(*n);
            s.append(d.as_str());
            s
        },
        VmInstruction::Pop(seg, n) => {
            let mut s = String::from_str("pop ");
            s.append(segment_str(*seg));
            s.append(" ");
            let d = dec_str(*n);
            s.append(d.as_str());
            s
        },
        VmInstruction::Add => String::from_str("add"),
        VmInstruction::Sub => String::from_str("sub"),
        VmInstruction::Neg => String::from_str("neg"),
        VmInstruction::Eq => String::from_str("eq"),
        VmInstruction::Gt => String::from_str("gt"),
        VmInstruction::Lt => String::from_str("lt"),
        VmInstruction::And => String::from_str("and"),
        VmInstruction::Or => String::from_str("or"),
        VmInstruction::Not => String::from_str("not"),
        VmInstruction::Label(l) => {
            let mut s = String::from_str("label ");
            s.append(l.as_str());
            s
        },
        VmInstruction::Goto(l) => {
            let mut s = String::from_str("goto ");
            s.append(l.as_str());
            s
        },
        VmInstruction::IfGoto(l) => {
            let mut s = String::from_str("if-goto ");
            s.append(l.as_str());
            s
        },
        VmInstruction::Function(f, k) => {
            let mut s = String::from_str("function ");
            s.append(f.as_str());
            s.append(" ");
            let d = dec_str(*k);
            s.append(d.as_str());
            s
        },
        VmInstruction::Call(f, k) => {
            let mut s = String::from_str("call ");
            s.append(f.as_str());
            s.append(" ");
            let d = dec_str(*k);
            s.append(d.as_str());
            s
        },
        VmInstruction::Return => String::from_str("return"),
    }
}

/// The whole listing: instruction lines joined by newlines.
pub open spec fn render_lines(c: Seq<InsV>) -> Seq<char>
    decreases c.len(),
{
    if c.len() == 0 {
        Seq::empty()
    } else if c.len() == 1 {
        render_ins(c[0])
    } else {
        render_lines(c.drop_last()) + "\n"@ + render_ins(c.last())
    }
}

/// Render a whole program as newline-joined instruction lines.
pub fn render_program(code: &Vec<VmInstruction>) -> (s: String)
    ensures
        s@ == render_lines(view_code(code@)),
{
    let ghost cv = view_code(code@);
    let mut s = String::new();
    let mut i: usize = 0;
    proof {
        assert(cv.take(0) =~= Seq::<InsV>::empty());
    }
    while i < code.len()
        invariant
            i <= code@.len(),
            cv == view_code(code@),
            cv.len() == code@.len(),
            s@ == render_lines(cv.take(i as int)),
        decreases code@.len() - i,
    {
        if i > 0 {
            s.append("\n");
        }
        let line = render_instruction(&code[i]);
        s.append(line.as_str());
        proof {
            assert(cv.take(i + 1).drop_last() =~= cv.take(i as int));
            assert(cv.take(i + 1).last() == cv[i as int]);
            assert(cv[i as int] == view_ins(code@[i as int]));
        }
        i = i + 1;
    }
    proof {
        assert(cv.take(code@.len() as int) =~= cv);
    }
    s
}

} // verus!
