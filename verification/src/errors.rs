//! Error values for the two pipeline stages.
//!
//! A `SyntaxError` carries the line of the offending token and an
//! expected-vs-found description; a `CodegenError` carries a description
//! of the unresolvable construct.  Both accumulate a chain of context
//! messages naming the enclosing construct being processed when the
//! failure occurred; `describe` renders the chain, outermost first.

use vstd::prelude::*;

verus! {

/// A parse failure: the first syntax error aborts parsing entirely.
#[derive(PartialEq, Eq, Debug)]
pub struct SyntaxError {
    /// Source line of the token at which parsing failed.
    pub line: usize,
    /// What was expected there.
    pub msg: String,
    /// Enclosing constructs, innermost first.
    pub context: Vec<String>,
}

/// A code-generation failure: aborts generation of the whole class.
#[derive(PartialEq, Eq, Debug)]
pub struct CodegenError {
    /// What could not be generated.
    pub msg: String,
    /// Enclosing constructs, innermost first.
    pub context: Vec<String>,
}

/// The rendered context chain: each enclosing construct, outermost
/// (last-recorded) first, each followed by `": "`.
pub open spec fn spec_context_chain(ctx: Seq<String>) -> Seq<char>
    decreases ctx.len(),
{
    if ctx.len() == 0 {
        Seq::empty()
    } else {
        ctx.last()@ + ": "@ + spec_context_chain(ctx.drop_last())
    }
}

/// Rendering `ctx[j..k]` starts with `ctx[k-1]`, outermost first, so
/// widening the window at the low end appends that entry at the back.
proof fn lemma_chain_peel(ctx: Seq<String>, j: int, k: int)
    requires
        0 <= j < k <= ctx.len(),
    ensures
        spec_context_chain(ctx.subrange(j, k)) == spec_context_chain(ctx.subrange(j + 1, k))
            + ctx[j]@ + ": "@,
    decreases k - j,
{
    if k - j == 1 {
        assert(ctx.subrange(j + 1, k) =~= Seq::<String>::empty());
        assert(ctx.subrange(j, k).drop_last() =~= Seq::<String>::empty());
        assert(ctx.subrange(j, k).last() == ctx[j]);
        assert(spec_context_chain(ctx.subrange(j, k)) =~= spec_context_chain(
            ctx.subrange(j + 1, k),
        ) + ctx[j]@ + ": "@);
    } else {
        lemma_chain_peel(ctx, j, k - 1);
        assert(ctx.subrange(j, k).drop_last() =~= ctx.subrange(j, k - 1));
        assert(ctx.subrange(j + 1, k).drop_last() =~= ctx.subrange(j + 1, k - 1));
        assert(ctx.subrange(j, k).last() == ctx[k - 1]);
        assert(ctx.subrange(j + 1, k).last() == ctx[k - 1]);
        assert(spec_context_chain(ctx.subrange(j, k)) =~= spec_context_chain(
            ctx.subrange(j + 1, k),
        ) + ctx[j]@ + ": "@);
    }
}

impl SyntaxError {
    /// A fresh error at the given line.
    pub fn new(line: usize, msg: &str) -> (e: SyntaxError)
        ensures
            e.line == line,
            e.msg@ == msg@,
            e.context@.len() == 0,
    {
        SyntaxError { line, msg: String::from_str(msg), context: Vec::new() }
    }

    /// Record the enclosing construct that was being parsed: the line,
    /// the description and the contexts already gathered are kept, and
    /// the new context goes on the end of the chain.
    pub fn with_context(self, msg: &str) -> (e: SyntaxError)
        ensures
            e.line == self.line,
            e.msg@ == self.msg@,
            e.context@.len() == self.context@.len() + 1,
            e.context@.last()@ == msg@,
            forall|i: int| 0 <= i < self.context@.len() ==> e.context@[i] == self.context@[i],
    {
        let mut e = self;
        e.context.push(String::from_str(msg));
        e
    }

    /// The full message chain: each context, outermost first, then
    /// `Line <n>: <expected-vs-found>`.
    pub fn describe(&self) -> (r: String)
        ensures
            r@ == spec_context_chain(self.context@) + "Line "@ + crate::vm::dec_seq(
                self.line as nat,
            ) + ": "@ + self.msg@,
    {
        let ghost ctx = self.context@;
        let mut s = String::new();
        let mut i = self.context.len();
        proof {
            assert(ctx.subrange(ctx.len() as int, ctx.len() as int) =~= Seq::<String>::empty());
        }
        while i > 0
            invariant
                i <= ctx.len(),
                ctx == self.context@,
                s@ == spec_context_chain(ctx.subrange(i as int, ctx.len() as int)),
            decreases i,
        {
            s.append(self.context[i - 1].as_str());
            s.append(": ");
            proof {
                lemma_chain_peel(ctx, i - 1, ctx.len() as int);
            }
            i = i - 1;
        }
        proof {
            assert(ctx.subrange(0, ctx.len() as int) =~= ctx);
        }
        s.append("Line ");
        let line_str = crate::vm::dec_str(self.line);
        s.append(line_str.as_str());
        s.append(": ");
        s.append(self.msg.as_str());
        s
    }
}

impl CodegenError {
    /// A fresh error.
    pub fn new(msg: &str) -> (e: CodegenError)
        ensures
            e.msg@ == msg@,
            e.context@.len() == 0,
    {
        CodegenError { msg: String::from_str(msg), context: Vec::new() }
    }

    /// Record the enclosing construct that was being generated: the
    /// description and the contexts already gathered are kept, and the
    /// new context goes on the end of the chain.
    pub fn with_context(self, msg: &str) -> (e: CodegenError)
        ensures
            e.msg@ == self.msg@,
            e.context@.len() == self.context@.len() + 1,
            e.context@.last()@ == msg@,
            forall|i: int| 0 <= i < self.context@.len() ==> e.context@[i] == self.context@[i],
    {
        let mut e = self;
        e.context.push(String::from_str(msg));
        e
    }

    /// The full message chain: each context, outermost first, then the
    /// failure description.
    pub fn describe(&self) -> (r: String)
        ensures
            r@ == spec_context_chain(self.context@) + self.msg@,
    {
        let ghost ctx = self.context@;
        let mut s = String::new();
        let mut i = self.context.len();
        proof {
            assert(ctx.subrange(ctx.len() as int, ctx.len() as int) =~= Seq::<String>::empty());
        }
        while i > 0
            invariant
                i <= ctx.len(),
                ctx == self.context@,
                s@ == spec_context_chain(ctx.subrange(i as int, ctx.len() as int)),
            decreases i,
        {
            s.append(self.context[i - 1].as_str());
            s.append(": ");
            proof {
                lemma_chain_peel(ctx, i - 1, ctx.len() as int);
            }
            i = i - 1;
        }
        proof {
            assert(ctx.subrange(0, ctx.len() as int) =~= ctx);
        }
        s.append(self.msg.as_str());
        s
    }
}

} // verus!
