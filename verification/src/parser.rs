//! The parser: recursive descent over the token stream, one routine per
//! grammar nonterminal, with bounded lookahead for the three ambiguous
//! spots (array access vs. call vs. variable, `if` vs. `if`/`else`,
//! scalar vs. array-indexed `let`).
//!
//! The spec functions (`spec_parse_*`) define the grammar mathematically:
//! each takes the token sequence and a position, and yields the parsed
//! node together with the position of the first unconsumed token, or
//! nothing if the tokens do not match the grammar there.  The executable
//! functions return exactly that node, or an error exactly when the spec
//! says the tokens do not parse.

use vstd::prelude::*;

use crate::ast::BinaryOp;
use crate::ast::BodyV;
use crate::ast::ClassVarDeclV;
use crate::ast::ClassVarDeclaration;
use crate::ast::Expression;
use crate::ast::ExpressionV;
use crate::ast::IfStatement;
use crate::ast::LetStatement;
use crate::ast::DoStatement;
use crate::ast::ParseTree;
use crate::ast::RetType;
use crate::ast::RetTypeV;
use crate::ast::ReturnStatement;
use crate::ast::Statement;
use crate::ast::StatementV;
use crate::ast::SubRoutine;
use crate::ast::SubRoutineBody;
use crate::ast::SubRoutineV;
use crate::ast::SubroutineCall;
use crate::ast::SubroutineCallV;
use crate::ast::Term;
use crate::ast::TermV;
use crate::ast::TreeV;
use crate::ast::Type;
use crate::ast::TypeV;
use crate::ast::UnaryOp;
use crate::ast::VarDeclV;
use crate::ast::VarDeclaration;
use crate::ast::WhileStatement;
use crate::ast::view_ret_type;
use crate::ast::view_type;
use crate::errors::SyntaxError;
use crate::tokenizer::Keywords;
use crate::tokenizer::Line;
use crate::tokenizer::Symbols;
use crate::tokenizer::Token;
use crate::tokenizer::Tokens;

verus! {

// ---------------------------------------------------------------------
// Spec: reading one token.
// ---------------------------------------------------------------------

/// The token at `i` is exactly the given symbol.
pub open spec fn is_symbol(toks: Seq<Line<Token>>, i: int, s: Symbols) -> bool {
    0 <= i < toks.len() && toks[i].inner == Token::Symbols(s)
}

/// The token at `i` is exactly the given keyword.
pub open spec fn is_keyword(toks: Seq<Line<Token>>, i: int, k: Keywords) -> bool {
    0 <= i < toks.len() && toks[i].inner == Token::Keywords(k)
}

/// The identifier at `i`, if the token there is one.
pub open spec fn ident_at(toks: Seq<Line<Token>>, i: int) -> Option<Seq<char>> {
    if 0 <= i < toks.len() {
        match toks[i].inner {
            Token::Identifier(s) => Some(s@),
            _ => None,
        }
    } else {
        None
    }
}

/// The binary operator at `i`, if the token there is an operator symbol.
pub open spec fn binop_at(toks: Seq<Line<Token>>, i: int) -> Option<BinaryOp> {
    if 0 <= i < toks.len() {
        match toks[i].inner {
            Token::Symbols(s) => match s {
                Symbols::Plus => Some(BinaryOp::Add),
                Symbols::Minus => Some(BinaryOp::Minus),
                Symbols::Mult => Some(BinaryOp::Mult),
                Symbols::Div => Some(BinaryOp::Div),
                Symbols::And => Some(BinaryOp::And),
                Symbols::Or => Some(BinaryOp::Or),
                Symbols::Lt => Some(BinaryOp::Lt),
                Symbols::Gt => Some(BinaryOp::Gt),
                Symbols::Equal => Some(BinaryOp::Eq),
                _ => None,
            },
            _ => None,
        }
    } else {
        None
    }
}

/// The token at `i` starts a statement.
pub open spec fn is_stmt_start(toks: Seq<Line<Token>>, i: int) -> bool {
    0 <= i < toks.len() && match toks[i].inner {
        Token::Keywords(k) => (k matches Keywords::Let) || (k matches Keywords::If) || (k
            matches Keywords::While) || (k matches Keywords::Do) || (k matches Keywords::Return),
        _ => false,
    }
}

// ---------------------------------------------------------------------
// Spec: types and declarations.
// ---------------------------------------------------------------------

/// A variable type: `int`, `char`, `boolean`, or a class name.
pub open spec fn spec_parse_type(toks: Seq<Line<Token>>, i: int) -> Option<(TypeV, int)> {
    if 0 <= i < toks.len() {
        match toks[i].inner {
            Token::Keywords(k) => match k {
                Keywords::Int => Some((TypeV::Int, i + 1)),
                Keywords::Char => Some((TypeV::Char, i + 1)),
                Keywords::Boolean => Some((TypeV::Boolean, i + 1)),
                _ => None,
            },
            Token::Identifier(c) => Some((TypeV::ClassName(c@), i + 1)),
            _ => None,
        }
    } else {
        None
    }
}

/// A return type: `void` or a variable type.
pub open spec fn spec_parse_ret_type(toks: Seq<Line<Token>>, i: int) -> Option<(RetTypeV, int)> {
    if 0 <= i < toks.len() {
        match toks[i].inner {
            Token::Keywords(k) => match k {
                Keywords::Int => Some((RetTypeV::Int, i + 1)),
                Keywords::Char => Some((RetTypeV::Char, i + 1)),
                Keywords::Boolean => Some((RetTypeV::Boolean, i + 1)),
                Keywords::Void => Some((RetTypeV::Void, i + 1)),
                _ => None,
            },
            Token::Identifier(c) => Some((RetTypeV::ClassName(c@), i + 1)),
            _ => None,
        }
    } else {
        None
    }
}

/// A comma-separated list of variable names, all of one declared type.
pub open spec fn spec_parse_var_names(toks: Seq<Line<Token>>, i: int, t: TypeV) -> Option<
    (Seq<VarDeclV>, int),
>
    decreases toks.len() - i,
{
    match ident_at(toks, i) {
        Some(name) => {
            let d = VarDeclV { var_type: t, var_name: name };
            if is_symbol(toks, i + 1, Symbols::Comma) {
                match spec_parse_var_names(toks, i + 2, t) {
                    Some((rest, j)) => Some((seq![d] + rest, j)),
                    None => None,
                }
            } else {
                Some((seq![d], i + 1))
            }
        },
        None => None,
    }
}

/// One `type name, name, ... ;` declaration.
pub open spec fn spec_parse_var_declare(toks: Seq<Line<Token>>, i: int) -> Option<
    (Seq<VarDeclV>, int),
> {
    match spec_parse_type(toks, i) {
        Some((t, j)) => match spec_parse_var_names(toks, j, t) {
            Some((vars, k)) => if is_symbol(toks, k, Symbols::SemiColon) {
                Some((vars, k + 1))
            } else {
                None
            },
            None => None,
        },
        None => None,
    }
}

/// One `static`/`field` class-variable declaration.
pub open spec fn spec_parse_class_var_declare(toks: Seq<Line<Token>>, i: int) -> Option<
    (Seq<ClassVarDeclV>, int),
> {
    if is_keyword(toks, i, Keywords::Static) {
        match spec_parse_var_declare(toks, i + 1) {
            Some((vars, j)) => Some((vars.map(|k: int, d: VarDeclV| ClassVarDeclV::Static(d)), j)),
            None => None,
        }
    } else if is_keyword(toks, i, Keywords::Field) {
        match spec_parse_var_declare(toks, i + 1) {
            Some((vars, j)) => Some((vars.map(|k: int, d: VarDeclV| ClassVarDeclV::Field(d)), j)),
            None => None,
        }
    } else {
        None
    }
}

/// The parameters inside a parameter list, `type name` pairs separated
/// by commas.
pub open spec fn spec_parse_params(toks: Seq<Line<Token>>, i: int) -> Option<(Seq<VarDeclV>, int)>
    decreases toks.len() - i,
{
    match spec_parse_type(toks, i) {
        Some((t, j)) => match ident_at(toks, j) {
            Some(name) => {
                let d = VarDeclV { var_type: t, var_name: name };
                if is_symbol(toks, j + 1, Symbols::Comma) {
                    match spec_parse_params(toks, j + 2) {
                        Some((rest, k)) => Some((seq![d] + rest, k)),
                        None => None,
                    }
                } else {
                    Some((seq![d], j + 1))
                }
            },
            None => None,
        },
        None => None,
    }
}

/// A parenthesized, possibly empty parameter list.
pub open spec fn spec_parse_parameter_list(toks: Seq<Line<Token>>, i: int) -> Option<
    (Seq<VarDeclV>, int),
> {
    if is_symbol(toks, i, Symbols::LeftParen) {
        if is_symbol(toks, i + 1, Symbols::RightParen) {
            Some((Seq::empty(), i + 2))
        } else {
            match spec_parse_params(toks, i + 1) {
                Some((vars, j)) => if is_symbol(toks, j, Symbols::RightParen) {
                    Some((vars, j + 1))
                } else {
                    None
                },
                None => None,
            }
        }
    } else {
        None
    }
}

// ---------------------------------------------------------------------
// Spec: expressions, terms, calls.
// ---------------------------------------------------------------------

/// The rest of an operator chain after its first `acc.terms.len()`
/// terms: while an operator symbol follows, consume it and one more term.
pub open spec fn spec_parse_expr_more(toks: Seq<Line<Token>>, j: int, acc: ExpressionV) -> Option<
    (ExpressionV, int),
>
    decreases toks.len() - j, 0int,
{
    match binop_at(toks, j) {
        Some(op) => match spec_parse_term(toks, j + 1) {
            Some((t, k)) => if j + 1 < k && k <= toks.len() {
                spec_parse_expr_more(
                    toks,
                    k,
                    ExpressionV { ops: acc.ops.push(op), terms: acc.terms.push(t) },
                )
            } else {
                None
            },
            None => None,
        },
        None => Some((acc, j)),
    }
}

/// One expression: a first term, then a flat left-associative chain.
pub open spec fn spec_parse_expression(toks: Seq<Line<Token>>, i: int) -> Option<
    (ExpressionV, int),
>
    decreases toks.len() - i, 2int,
{
    match spec_parse_term(toks, i) {
        Some((t, j)) => if i < j && j <= toks.len() {
            spec_parse_expr_more(toks, j, ExpressionV { ops: Seq::empty(), terms: seq![t] })
        } else {
            None
        },
        None => None,
    }
}

/// The expressions of an argument list after the first, each preceded by
/// a comma; the list ends at the closing parenthesis.
pub open spec fn spec_parse_expr_list_more(
    toks: Seq<Line<Token>>,
    j: int,
    acc: Seq<ExpressionV>,
) -> Option<(Seq<ExpressionV>, int)>
    decreases toks.len() - j, 0int,
{
    if is_symbol(toks, j, Symbols::Comma) {
        match spec_parse_expression(toks, j + 1) {
            Some((e, k)) => if j + 1 < k && k <= toks.len() {
                spec_parse_expr_list_more(toks, k, acc.push(e))
            } else {
                None
            },
            None => None,
        }
    } else if is_symbol(toks, j, Symbols::RightParen) {
        Some((acc, j + 1))
    } else {
        None
    }
}

/// A parenthesized, possibly empty, comma-separated expression list.
pub open spec fn spec_parse_expression_list(toks: Seq<Line<Token>>, i: int) -> Option<
    (Seq<ExpressionV>, int),
>
    decreases toks.len() - i, 1int,
{
    if is_symbol(toks, i, Symbols::LeftParen) {
        if is_symbol(toks, i + 1, Symbols::RightParen) {
            Some((Seq::empty(), i + 2))
        } else {
            match spec_parse_expression(toks, i + 1) {
                Some((e, j)) => if i + 1 < j && j <= toks.len() {
                    spec_parse_expr_list_more(toks, j, seq![e])
                } else {
                    None
                },
                None => None,
            }
        }
    } else {
        None
    }
}

/// A subroutine call: `name(args)` or `qualifier.name(args)`.
pub open spec fn spec_parse_subroutine_call(toks: Seq<Line<Token>>, i: int) -> Option<
    (SubroutineCallV, int),
>
    decreases toks.len() - i, 0int,
{
    match ident_at(toks, i) {
        Some(first) => if is_symbol(toks, i + 1, Symbols::Dot) {
            match ident_at(toks, i + 2) {
                Some(member) => match spec_parse_expression_list(toks, i + 3) {
                    Some((args, j)) => Some((SubroutineCallV::Indirect(first, member, args), j)),
                    None => None,
                },
                None => None,
            }
        } else if is_symbol(toks, i + 1, Symbols::LeftParen) {
            match spec_parse_expression_list(toks, i + 1) {
                Some((args, j)) => Some((SubroutineCallV::Direct(first, args), j)),
                None => None,
            }
        } else {
            None
        },
        None => None,
    }
}

/// One term, with one token of lookahead past a leading identifier to
/// decide among array access, call, and plain variable.
pub open spec fn spec_parse_term(toks: Seq<Line<Token>>, i: int) -> Option<(TermV, int)>
    decreases toks.len() - i, 1int,
{
    if 0 <= i < toks.len() {
        match toks[i].inner {
            Token::Keywords(k) => match k {
                Keywords::True => Some((TermV::True, i + 1)),
                Keywords::False => Some((TermV::False, i + 1)),
                Keywords::Null => Some((TermV::Null, i + 1)),
                Keywords::This => Some((TermV::This, i + 1)),
                _ => None,
            },
            Token::Symbols(sym) => match sym {
                Symbols::Minus => match spec_parse_term(toks, i + 1) {
                    Some((t, j)) => Some(
                        (TermV::Unary(UnaryOp::Negation, Box::new(t)), j),
                    ),
                    None => None,
                },
                Symbols::Not => match spec_parse_term(toks, i + 1) {
                    Some((t, j)) => Some((TermV::Unary(UnaryOp::Not, Box::new(t)), j)),
                    None => None,
                },
                Symbols::LeftParen => match spec_parse_expression(toks, i + 1) {
                    Some((e, j)) => if is_symbol(toks, j, Symbols::RightParen) {
                        Some((TermV::Parenthesis(Box::new(e)), j + 1))
                    } else {
                        None
                    },
                    None => None,
                },
                _ => None,
            },
            Token::Integer(n) => Some((TermV::IntegerLiteral(n), i + 1)),
            Token::StringLit(s) => Some((TermV::StringLiteral(s@), i + 1)),
            Token::Identifier(name) => if is_symbol(toks, i + 1, Symbols::LeftSquare) {
                match spec_parse_expression(toks, i + 2) {
                    Some((e, j)) => if is_symbol(toks, j, Symbols::RightSquare) {
                        Some((TermV::Array(name@, Box::new(e)), j + 1))
                    } else {
                        None
                    },
                    None => None,
                }
            } else if is_symbol(toks, i + 1, Symbols::LeftParen) || is_symbol(
                toks,
                i + 1,
                Symbols::Dot,
            ) {
                match spec_parse_subroutine_call(toks, i) {
                    Some((c, j)) => Some((TermV::SubRoutineCall(c), j)),
                    None => None,
                }
            } else {
                Some((TermV::Variable(name@), i + 1))
            },
        }
    } else {
        None
    }
}

// ---------------------------------------------------------------------
// Spec: statements.
// ---------------------------------------------------------------------

/// `= expression ;`, the tail of both forms of `let`.
pub open spec fn spec_parse_assignment(toks: Seq<Line<Token>>, p: int) -> Option<
    (ExpressionV, int),
> {
    if is_symbol(toks, p, Symbols::Equal) {
        match spec_parse_expression(toks, p + 1) {
            Some((e, q)) => if is_symbol(toks, q, Symbols::SemiColon) {
                Some((e, q + 1))
            } else {
                None
            },
            None => None,
        }
    } else {
        None
    }
}

/// A `let` statement, scalar or array-indexed; `i` is at `let`.
pub open spec fn spec_parse_let(toks: Seq<Line<Token>>, i: int) -> Option<(StatementV, int)> {
    match ident_at(toks, i + 1) {
        Some(name) => if is_symbol(toks, i + 2, Symbols::LeftSquare) {
            match spec_parse_expression(toks, i + 3) {
                Some((idx, j)) => if is_symbol(toks, j, Symbols::RightSquare) {
                    match spec_parse_assignment(toks, j + 1) {
                        Some((rhs, k)) => Some((StatementV::LetArray(name, idx, rhs), k)),
                        None => None,
                    }
                } else {
                    None
                },
                None => None,
            }
        } else {
            match spec_parse_assignment(toks, i + 2) {
                Some((rhs, k)) => Some((StatementV::Let(name, rhs), k)),
                None => None,
            }
        },
        None => None,
    }
}

/// A `do` statement; `i` is at `do`.
pub open spec fn spec_parse_do(toks: Seq<Line<Token>>, i: int) -> Option<(StatementV, int)> {
    match spec_parse_subroutine_call(toks, i + 1) {
        Some((c, j)) => if is_symbol(toks, j, Symbols::SemiColon) {
            Some((StatementV::Do(c), j + 1))
        } else {
            None
        },
        None => None,
    }
}

/// A `return` statement, bare or with a value; `i` is at `return`.
pub open spec fn spec_parse_return(toks: Seq<Line<Token>>, i: int) -> Option<(StatementV, int)> {
    if is_symbol(toks, i + 1, Symbols::SemiColon) {
        Some((StatementV::Return, i + 2))
    } else {
        match spec_parse_expression(toks, i + 1) {
            Some((e, j)) => if is_symbol(toks, j, Symbols::SemiColon) {
                Some((StatementV::ReturnExpression(e), j + 1))
            } else {
                None
            },
            None => None,
        }
    }
}

/// An `if` statement, with an `else` branch exactly when `else` follows
/// the closing brace; `i` is at `if`.
pub open spec fn spec_parse_if(toks: Seq<Line<Token>>, i: int) -> Option<(StatementV, int)>
    decreases toks.len() - i, 1int,
{
    if is_symbol(toks, i + 1, Symbols::LeftParen) {
        match spec_parse_expression(toks, i + 2) {
            Some((cond, j)) => if i + 2 < j && is_symbol(toks, j, Symbols::RightParen) && is_symbol(
                toks,
                j + 1,
                Symbols::LeftCurly,
            ) {
                match spec_parse_statements(toks, j + 2) {
                    Some((then, k)) => if j + 2 <= k && is_symbol(toks, k, Symbols::RightCurly) {
                        if is_keyword(toks, k + 1, Keywords::Else) {
                            if is_symbol(toks, k + 2, Symbols::LeftCurly) {
                                match spec_parse_statements(toks, k + 3) {
                                    Some((els, m)) => if is_symbol(toks, m, Symbols::RightCurly) {
                                        Some((StatementV::IfElse(cond, then, els), m + 1))
                                    } else {
                                        None
                                    },
                                    None => None,
                                }
                            } else {
                                None
                            }
                        } else {
                            Some((StatementV::If(cond, then), k + 1))
                        }
                    } else {
                        None
                    },
                    None => None,
                }
            } else {
                None
            },
            None => None,
        }
    } else {
        None
    }
}

/// A `while` statement; `i` is at `while`.
pub open spec fn spec_parse_while(toks: Seq<Line<Token>>, i: int) -> Option<(StatementV, int)>
    decreases toks.len() - i, 1int,
{
    if is_symbol(toks, i + 1, Symbols::LeftParen) {
        match spec_parse_expression(toks, i + 2) {
            Some((cond, j)) => if i + 2 < j && is_symbol(toks, j, Symbols::RightParen) && is_symbol(
                toks,
                j + 1,
                Symbols::LeftCurly,
            ) {
                match spec_parse_statements(toks, j + 2) {
                    Some((body, k)) => if is_symbol(toks, k, Symbols::RightCurly) {
                        Some((StatementV::While(cond, body), k + 1))
                    } else {
                        None
                    },
                    None => None,
                }
            } else {
                None
            },
            None => None,
        }
    } else {
        None
    }
}

/// One statement, dispatched on its leading keyword.
pub open spec fn spec_parse_statement(toks: Seq<Line<Token>>, i: int) -> Option<(StatementV, int)>
    decreases toks.len() - i, 2int,
{
    if 0 <= i < toks.len() {
        match toks[i].inner {
            Token::Keywords(k) => match k {
                Keywords::Let => spec_parse_let(toks, i),
                Keywords::If => spec_parse_if(toks, i),
                Keywords::While => spec_parse_while(toks, i),
                Keywords::Do => spec_parse_do(toks, i),
                Keywords::Return => spec_parse_return(toks, i),
                _ => None,
            },
            _ => None,
        }
    } else {
        None
    }
}

/// A statement list: statements as long as a statement keyword follows.
pub open spec fn spec_parse_statements(toks: Seq<Line<Token>>, i: int) -> Option<
    (Seq<StatementV>, int),
>
    decreases toks.len() - i, 3int,
{
    if is_stmt_start(toks, i) {
        match spec_parse_statement(toks, i) {
            Some((s, j)) => if i < j && j <= toks.len() {
                match spec_parse_statements(toks, j) {
                    Some((rest, k)) => Some((seq![s] + rest, k)),
                    None => None,
                }
            } else {
                None
            },
            None => None,
        }
    } else {
        Some((Seq::empty(), i))
    }
}

// ---------------------------------------------------------------------
// Spec: subroutines and the class.
// ---------------------------------------------------------------------

/// The `var` declarations at the start of a subroutine body.
pub open spec fn spec_parse_subroutine_vars(toks: Seq<Line<Token>>, i: int) -> Option<
    (Seq<VarDeclV>, int),
>
    decreases toks.len() - i,
{
    if is_keyword(toks, i, Keywords::Var) {
        match spec_parse_var_declare(toks, i + 1) {
            Some((vars, j)) => if i < j && j <= toks.len() {
                match spec_parse_subroutine_vars(toks, j) {
                    Some((rest, k)) => Some((vars + rest, k)),
                    None => None,
                }
            } else {
                None
            },
            None => None,
        }
    } else {
        Some((Seq::empty(), i))
    }
}

/// A subroutine body: `{ var decls, statements }`.
pub open spec fn spec_parse_subroutine_body(toks: Seq<Line<Token>>, i: int) -> Option<
    (BodyV, int),
> {
    if is_symbol(toks, i, Symbols::LeftCurly) {
        match spec_parse_subroutine_vars(toks, i + 1) {
            Some((vars, j)) => match spec_parse_statements(toks, j) {
                Some((stmts, k)) => if is_symbol(toks, k, Symbols::RightCurly) {
                    Some((BodyV { var_declarations: vars, statements: stmts }, k + 1))
                } else {
                    None
                },
                None => None,
            },
            None => None,
        }
    } else {
        None
    }
}

/// One subroutine declaration; `i` is at `constructor`, `function`, or
/// `method`.
pub open spec fn spec_parse_subroutine(toks: Seq<Line<Token>>, i: int) -> Option<
    (SubRoutineV, int),
> {
    if 0 <= i < toks.len() {
        match toks[i].inner {
            Token::Keywords(kw) => if (kw matches Keywords::Constructor) || (kw
                matches Keywords::Function) || (kw matches Keywords::Method) {
                match spec_parse_ret_type(toks, i + 1) {
                    Some((rt, j)) => match ident_at(toks, j) {
                        Some(name) => match spec_parse_parameter_list(toks, j + 1) {
                            Some((params, k)) => match spec_parse_subroutine_body(toks, k) {
                                Some((body, m)) => Some(
                                    (
                                        match kw {
                                            Keywords::Constructor => SubRoutineV::Constructor(
                                                rt,
                                                name,
                                                params,
                                                body,
                                            ),
                                            Keywords::Function => SubRoutineV::Function(
                                                rt,
                                                name,
                                                params,
                                                body,
                                            ),
                                            _ => SubRoutineV::Method(rt, name, params, body),
                                        },
                                        m,
                                    ),
                                ),
                                None => None,
                            },
                            None => None,
                        },
                        None => None,
                    },
                    None => None,
                }
            } else {
                None
            },
            _ => None,
        }
    } else {
        None
    }
}

/// The class-variable section: declarations while `static`/`field`
/// leads.
pub open spec fn spec_parse_class_vars(toks: Seq<Line<Token>>, i: int) -> Option<
    (Seq<ClassVarDeclV>, int),
>
    decreases toks.len() - i,
{
    if is_keyword(toks, i, Keywords::Static) || is_keyword(toks, i, Keywords::Field) {
        match spec_parse_class_var_declare(toks, i) {
            Some((vars, j)) => if i < j && j <= toks.len() {
                match spec_parse_class_vars(toks, j) {
                    Some((rest, k)) => Some((vars + rest, k)),
                    None => None,
                }
            } else {
                None
            },
            None => None,
        }
    } else {
        Some((Seq::empty(), i))
    }
}

/// The subroutine section: declarations while `constructor`/`function`/
/// `method` leads.
pub open spec fn spec_parse_subroutines(toks: Seq<Line<Token>>, i: int) -> Option<
    (Seq<SubRoutineV>, int),
>
    decreases toks.len() - i,
{
    let lead = is_keyword(toks, i, Keywords::Constructor) || is_keyword(
        toks,
        i,
        Keywords::Function,
    ) || is_keyword(toks, i, Keywords::Method);
    if lead {
        match spec_parse_subroutine(toks, i) {
            Some((s, j)) => if i < j && j <= toks.len() {
                match spec_parse_subroutines(toks, j) {
                    Some((rest, k)) => Some((rest.insert(0, s), k)),
                    None => None,
                }
            } else {
                None
            },
            None => None,
        }
    } else {
        Some((Seq::empty(), i))
    }
}

/// One whole class declaration:
/// `class Name { class-vars subroutines }`.
pub open spec fn spec_parse_class(toks: Seq<Line<Token>>, i: int) -> Option<(TreeV, int)> {
    if is_keyword(toks, i, Keywords::Class) {
        match ident_at(toks, i + 1) {
            Some(name) => if is_symbol(toks, i + 2, Symbols::LeftCurly) {
                match spec_parse_class_vars(toks, i + 3) {
                    Some((cvars, j)) => match spec_parse_subroutines(toks, j) {
                        Some((subs, k)) => if is_symbol(toks, k, Symbols::RightCurly) {
                            Some(
                                (
                                    TreeV {
                                        name,
                                        var_declarations: cvars,
                                        subroutines: subs,
                                    },
                                    k + 1,
                                ),
                            )
                        } else {
                            None
                        },
                        None => None,
                    },
                    None => None,
                }
            } else {
                None
            },
            None => None,
        }
    } else {
        None
    }
}

// ---------------------------------------------------------------------
// Executable helpers: reading one token.
// ---------------------------------------------------------------------

/// Whether the token at `i` is exactly the given symbol.
fn sym_at(toks: &Vec<Line<Token>>, i: usize, s: Symbols) -> (r: bool)
    ensures
        r == is_symbol(toks@, i as int, s),
{
    if i < toks.len() {
        match &toks[i].inner {
            Token::Symbols(x) => *x == s,
            _ => false,
        }
    } else {
        false
    }
}

/// Whether the token at `i` is exactly the given keyword.
fn kw_at(toks: &Vec<Line<Token>>, i: usize, k: Keywords) -> (r: bool)
    ensures
        r == is_keyword(toks@, i as int, k),
{
    if i < toks.len() {
        match &toks[i].inner {
            Token::Keywords(x) => *x == k,
            _ => false,
        }
    } else {
        false
    }
}

/// Whether the token at `i` starts a statement.
fn stmt_start_at(toks: &Vec<Line<Token>>, i: usize) -> (r: bool)
    ensures
        r == is_stmt_start(toks@, i as int),
{
    if i < toks.len() {
        match &toks[i].inner {
            Token::Keywords(k) => match k {
                Keywords::Let => true,
                Keywords::If => true,
                Keywords::While => true,
                Keywords::Do => true,
                Keywords::Return => true,
                _ => false,
            },
            _ => false,
        }
    } else {
        false
    }
}

/// The binary operator at `i`, if any.
fn get_binop(toks: &Vec<Line<Token>>, i: usize) -> (r: Option<BinaryOp>)
    ensures
        r == binop_at(toks@, i as int),
{
    if i < toks.len() {
        match &toks[i].inner {
            Token::Symbols(s) => match s {
                Symbols::Plus => Some(BinaryOp::Add),
                Symbols::Minus => Some(BinaryOp::Minus),
                Symbols::Mult => Some(BinaryOp::Mult),
                Symbols::Div => Some(BinaryOp::Div),
                Symbols::And => Some(BinaryOp::And),
                Symbols::Or => Some(BinaryOp::Or),
                Symbols::Lt => Some(BinaryOp::Lt),
                Symbols::Gt => Some(BinaryOp::Gt),
                Symbols::Equal => Some(BinaryOp::Eq),
                _ => None,
            },
            _ => None,
        }
    } else {
        None
    }
}

/// The line a failure at position `i` is reported at: the line of the
/// token there, of the last token when the stream has run out, or 1
/// when there are no tokens at all.
pub open spec fn spec_err_line(toks: Seq<Line<Token>>, i: int) -> usize {
    if 0 <= i < toks.len() {
        toks[i].line
    } else if toks.len() > 0 {
        toks.last().line
    } else {
        1
    }
}

/// The source line to report an error at: the line of the token at `i`,
/// or of the last token when the stream has run out.
fn err_line(toks: &Vec<Line<Token>>, i: usize) -> (r: usize)
    ensures
        r == spec_err_line(toks@, i as int),
{
    if i < toks.len() {
        toks[i].line
    } else if toks.len() > 0 {
        toks[toks.len() - 1].line
    } else {
        1
    }
}

// ---------------------------------------------------------------------
// Executable parsing: types and declarations.
// ---------------------------------------------------------------------

/// Parse a variable type.
pub fn parse_type(toks: &Vec<Line<Token>>, i: usize) -> (r: Result<(Type, usize), SyntaxError>)
    ensures
        match r {
            Ok((t, j)) => spec_parse_type(toks@, i as int) == Some((view_type(t), j as int)) && i
                < j <= toks@.len(),
            Err(_) => spec_parse_type(toks@, i as int) is None,
        },
{
    if i < toks.len() {
        match &toks[i].inner {
            Token::Keywords(k) => match k {
                Keywords::Int => Ok((Type::Int, i + 1)),
                Keywords::Char => Ok((Type::Char, i + 1)),
                Keywords::Boolean => Ok((Type::Boolean, i + 1)),
                _ => Err(
                    SyntaxError::new(err_line(toks, i), "Expect `int`, `char`, or `boolean`"),
                ),
            },
            Token::Identifier(classname) => Ok((Type::ClassName(classname.clone()), i + 1)),
            _ => Err(
                SyntaxError::new(
                    err_line(toks, i),
                    "Expect `int`, `char`, `boolean`, or class name",
                ),
            ),
        }
    } else {
        Err(SyntaxError::new(err_line(toks, i), "Expect `int`, `char`, `boolean`, or class name"))
    }
}

/// Parse a subroutine return type.
pub fn parse_func_return_type(toks: &Vec<Line<Token>>, i: usize) -> (r: Result<
    (RetType, usize),
    SyntaxError,
>)
    ensures
        match r {
            Ok((t, j)) => spec_parse_ret_type(toks@, i as int) == Some((view_ret_type(t), j as int))
                && i < j <= toks@.len(),
            Err(_) => spec_parse_ret_type(toks@, i as int) is None,
        },
{
    if i < toks.len() {
        match &toks[i].inner {
            Token::Keywords(k) => match k {
                Keywords::Int => Ok((RetType::Int, i + 1)),
                Keywords::Char => Ok((RetType::Char, i + 1)),
                Keywords::Boolean => Ok((RetType::Boolean, i + 1)),
                Keywords::Void => Ok((RetType::Void, i + 1)),
                _ => Err(
                    SyntaxError::new(
                        err_line(toks, i),
                        "Expect `void`, `int`, `char`, or `boolean`",
                    ),
                ),
            },
            Token::Identifier(classname) => Ok((RetType::ClassName(classname.clone()), i + 1)),
            _ => Err(
                SyntaxError::new(
                    err_line(toks, i),
                    "Expect `void`, `int`, `char`, `boolean`, or class name",
                ),
            ),
        }
    } else {
        Err(
            SyntaxError::new(
                err_line(toks, i),
                "Expect `void`, `int`, `char`, `boolean`, or class name",
            ),
        )
    }
}

/// Parse the comma-separated names of one declaration.
fn parse_var_names(toks: &Vec<Line<Token>>, i: usize, var_type: &Type) -> (r: Result<
    (Vec<VarDeclaration>, usize),
    SyntaxError,
>)
    ensures
        match r {
            Ok((vars, j)) => spec_parse_var_names(toks@, i as int, view_type(*var_type)) == Some(
                (crate::ast::view_var_decls(vars@), j as int),
            ) && i < j <= toks@.len(),
            Err(_) => spec_parse_var_names(toks@, i as int, view_type(*var_type)) is None,
        },
    decreases toks@.len() - i,
{
    if i >= toks.len() {
        return Err(SyntaxError::new(err_line(toks, i), "Expect class variable name"));
    }
    let name = match &toks[i].inner {
        Token::Identifier(id) => id.clone(),
        _ => {
            return Err(SyntaxError::new(err_line(toks, i), "Expect class variable name"));
        },
    };
    let d = VarDeclaration { var_type: var_type.dup(), var_name: name };
    let ghost dval = d;
    if sym_at(toks, i + 1, Symbols::Comma) {
        match parse_var_names(toks, i + 2, var_type) {
            Ok((rest, j)) => {
                let ghost restv = rest@;
                let mut vars = rest;
                vars.insert(0, d);
                proof {
                    crate::ast::lemma_view_var_decls_cons(dval, restv);
                }
                Ok((vars, j))
            },
            Err(e) => Err(e),
        }
    } else {
        let mut vars: Vec<VarDeclaration> = Vec::new();
        vars.push(d);
        proof {
            assert(crate::ast::view_var_decls(vars@) =~= seq![crate::ast::view_var_decl(dval)]);
        }
        Ok((vars, i + 1))
    }
}

/// Parse one `type name, name, ... ;` declaration.
pub fn parse_var_declare(toks: &Vec<Line<Token>>, i: usize) -> (r: Result<
    (Vec<VarDeclaration>, usize),
    SyntaxError,
>)
    ensures
        match r {
            Ok((vars, j)) => spec_parse_var_declare(toks@, i as int) == Some(
                (crate::ast::view_var_decls(vars@), j as int),
            ) && i < j <= toks@.len(),
            Err(_) => spec_parse_var_declare(toks@, i as int) is None,
        },
{
    let n = toks.len();
    proof {
        assert(n == toks@.len());
    }
    let (var_type, j) = match parse_type(toks, i) {
        Ok(x) => x,
        Err(e) => {
            return Err(e.with_context("Failed to parse variable type"));
        },
    };
    let (vars, k) = match parse_var_names(toks, j, &var_type) {
        Ok(x) => x,
        Err(e) => {
            return Err(e);
        },
    };
    if sym_at(toks, k, Symbols::SemiColon) {
        Ok((vars, k + 1))
    } else {
        Err(SyntaxError::new(err_line(toks, k), "Expect `;`"))
    }
}

/// Wrap declarations as `static` class variables.
fn wrap_static(vars: Vec<VarDeclaration>) -> (r: Vec<ClassVarDeclaration>)
    ensures
        crate::ast::view_class_vars(r@) == crate::ast::view_var_decls(vars@).map(
            |k: int, d: VarDeclV| ClassVarDeclV::Static(d),
        ),
{
    let ghost target = crate::ast::view_var_decls(vars@).map(
        |k: int, d: VarDeclV| ClassVarDeclV::Static(d),
    );
    let mut out: Vec<ClassVarDeclaration> = Vec::new();
    proof {
        assert(crate::ast::view_class_vars(out@) =~= target.take(0));
    }
    let mut i: usize = 0;
    while i < vars.len()
        invariant
            i <= vars@.len(),
            target == crate::ast::view_var_decls(vars@).map(
                |k: int, d: VarDeclV| ClassVarDeclV::Static(d),
            ),
            target.len() == vars@.len(),
            crate::ast::view_class_vars(out@) == target.take(i as int),
        decreases vars@.len() - i,
    {
        let ghost pre = out@;
        let d = ClassVarDeclaration::Static(vars[i].dup());
        let ghost dv = crate::ast::view_class_var(d);
        out.push(d);
        proof {
            crate::ast::lemma_view_class_vars_push(pre, out@.last());
            assert(crate::ast::view_var_decls(vars@)[i as int] == crate::ast::view_var_decl(
                vars@[i as int],
            ));
            assert(target[i as int] == dv);
            assert(target.take(i + 1) =~= target.take(i as int).push(target[i as int]));
        }
        i = i + 1;
    }
    proof {
        assert(target.take(vars@.len() as int) =~= target);
    }
    out
}

/// Wrap declarations as `field` class variables.
fn wrap_field(vars: Vec<VarDeclaration>) -> (r: Vec<ClassVarDeclaration>)
    ensures
        crate::ast::view_class_vars(r@) == crate::ast::view_var_decls(vars@).map(
            |k: int, d: VarDeclV| ClassVarDeclV::Field(d),
        ),
{
    let ghost target = crate::ast::view_var_decls(vars@).map(
        |k: int, d: VarDeclV| ClassVarDeclV::Field(d),
    );
    let mut out: Vec<ClassVarDeclaration> = Vec::new();
    proof {
        assert(crate::ast::view_class_vars(out@) =~= target.take(0));
    }
    let mut i: usize = 0;
    while i < vars.len()
        invariant
            i <= vars@.len(),
            target == crate::ast::view_var_decls(vars@).map(
                |k: int, d: VarDeclV| ClassVarDeclV::Field(d),
            ),
            target.len() == vars@.len(),
            crate::ast::view_class_vars(out@) == target.take(i as int),
        decreases vars@.len() - i,
    {
        let ghost pre = out@;
        let d = ClassVarDeclaration::Field(vars[i].dup());
        let ghost dv = crate::ast::view_class_var(d);
        out.push(d);
        proof {
            crate::ast::lemma_view_class_vars_push(pre, out@.last());
            assert(crate::ast::view_var_decls(vars@)[i as int] == crate::ast::view_var_decl(
                vars@[i as int],
            ));
            assert(target[i as int] == dv);
            assert(target.take(i + 1) =~= target.take(i as int).push(target[i as int]));
        }
        i = i + 1;
    }
    proof {
        assert(target.take(vars@.len() as int) =~= target);
    }
    out
}

/// Parse one `static`/`field` class-variable declaration.
pub fn parse_class_var_declare(toks: &Vec<Line<Token>>, i: usize) -> (r: Result<
    (Vec<ClassVarDeclaration>, usize),
    SyntaxError,
>)
    ensures
        match r {
            Ok((cvars, j)) => spec_parse_class_var_declare(toks@, i as int) == Some(
                (crate::ast::view_class_vars(cvars@), j as int),
            ) && i < j <= toks@.len(),
            Err(_) => spec_parse_class_var_declare(toks@, i as int) is None,
        },
{
    let n = toks.len();
    proof {
        assert(n == toks@.len());
    }
    if kw_at(toks, i, Keywords::Static) {
        match parse_var_declare(toks, i + 1) {
            Ok((vars, j)) => Ok((wrap_static(vars), j)),
            Err(e) => Err(e.with_context("Failed to parse class variable declaration")),
        }
    } else if kw_at(toks, i, Keywords::Field) {
        match parse_var_declare(toks, i + 1) {
            Ok((vars, j)) => Ok((wrap_field(vars), j)),
            Err(e) => Err(e.with_context("Failed to parse class variable declaration")),
        }
    } else {
        Err(SyntaxError::new(err_line(toks, i), "Expect `static` or `field`"))
    }
}

/// Parse the parameters of a parameter list.
fn parse_params(toks: &Vec<Line<Token>>, i: usize) -> (r: Result<
    (Vec<VarDeclaration>, usize),
    SyntaxError,
>)
    ensures
        match r {
            Ok((vars, j)) => spec_parse_params(toks@, i as int) == Some(
                (crate::ast::view_var_decls(vars@), j as int),
            ) && i < j <= toks@.len(),
            Err(_) => spec_parse_params(toks@, i as int) is None,
        },
    decreases toks@.len() - i,
{
    let (var_type, j) = match parse_type(toks, i) {
        Ok(x) => x,
        Err(e) => {
            return Err(e);
        },
    };
    if j >= toks.len() {
        return Err(SyntaxError::new(err_line(toks, j), "Expect variable name"));
    }
    let name = match &toks[j].inner {
        Token::Identifier(id) => id.clone(),
        _ => {
            return Err(SyntaxError::new(err_line(toks, j), "Expect variable name"));
        },
    };
    let d = VarDeclaration { var_type, var_name: name };
    let ghost dval = d;
    if sym_at(toks, j + 1, Symbols::Comma) {
        match parse_params(toks, j + 2) {
            Ok((rest, k)) => {
                let ghost restv = rest@;
                let mut vars = rest;
                vars.insert(0, d);
                proof {
                    crate::ast::lemma_view_var_decls_cons(dval, restv);
                }
                Ok((vars, k))
            },
            Err(e) => Err(e),
        }
    } else {
        let mut vars: Vec<VarDeclaration> = Vec::new();
        vars.push(d);
        proof {
            assert(crate::ast::view_var_decls(vars@) =~= seq![crate::ast::view_var_decl(dval)]);
        }
        Ok((vars, j + 1))
    }
}

/// Parse a parenthesized, possibly empty parameter list.
pub fn parse_parameter_list(toks: &Vec<Line<Token>>, i: usize) -> (r: Result<
    (Vec<VarDeclaration>, usize),
    SyntaxError,
>)
    ensures
        match r {
            Ok((vars, j)) => spec_parse_parameter_list(toks@, i as int) == Some(
                (crate::ast::view_var_decls(vars@), j as int),
            ) && i < j <= toks@.len(),
            Err(_) => spec_parse_parameter_list(toks@, i as int) is None,
        },
{
    let n = toks.len();
    proof {
        assert(n == toks@.len());
    }
    if !sym_at(toks, i, Symbols::LeftParen) {
        return Err(SyntaxError::new(err_line(toks, i), "Expect `(`"));
    }
    if sym_at(toks, i + 1, Symbols::RightParen) {
        let vars: Vec<VarDeclaration> = Vec::new();
        proof {
            assert(crate::ast::view_var_decls(vars@) =~= Seq::<VarDeclV>::empty());
        }
        return Ok((vars, i + 2));
    }
    let (vars, j) = match parse_params(toks, i + 1) {
        Ok(x) => x,
        Err(e) => {
            return Err(e);
        },
    };
    if sym_at(toks, j, Symbols::RightParen) {
        Ok((vars, j + 1))
    } else {
        Err(SyntaxError::new(err_line(toks, j), "Expect `)`"))
    }
}

// ---------------------------------------------------------------------
// Executable parsing: expressions, terms, calls.
// ---------------------------------------------------------------------

/// Parse the rest of an operator chain onto the accumulated terms.
fn parse_expr_more(toks: &Vec<Line<Token>>, j: usize, ops: Vec<BinaryOp>, terms: Vec<Term>) -> (r:
    Result<(Expression, usize), SyntaxError>)
    requires
        j <= toks@.len(),
    ensures
        match r {
            Ok((e, k)) => spec_parse_expr_more(
                toks@,
                j as int,
                ExpressionV { ops: ops@, terms: crate::ast::view_terms(terms@) },
            ) == Some((crate::ast::view_expr(e), k as int)) && j <= k <= toks@.len(),
            Err(_) => spec_parse_expr_more(
                toks@,
                j as int,
                ExpressionV { ops: ops@, terms: crate::ast::view_terms(terms@) },
            ) is None,
        },
    decreases toks@.len() - j, 0int,
{
    let n = toks.len();
    proof {
        assert(n == toks@.len());
    }
    match get_binop(toks, j) {
        Some(op) => {
            match parse_term(toks, j + 1) {
                Ok((t, k)) => {
                    let ghost gops = ops@;
                    let ghost gterms = terms@;
                    let ghost tv = crate::ast::view_term(t);
                    let mut ops = ops;
                    let mut terms = terms;
                    ops.push(op);
                    terms.push(t);
                    proof {
                        crate::ast::lemma_view_terms_push(gterms, terms@.last());
                    }
                    parse_expr_more(toks, k, ops, terms)
                },
                Err(e) => Err(e.with_context("Failed to parse term")),
            }
        },
        None => Ok((Expression { ops, terms }, j)),
    }
}

/// Parse one expression: a first term, then the flat operator chain.
pub fn parse_expression(toks: &Vec<Line<Token>>, i: usize) -> (r: Result<
    (Expression, usize),
    SyntaxError,
>)
    ensures
        match r {
            Ok((e, j)) => spec_parse_expression(toks@, i as int) == Some(
                (crate::ast::view_expr(e), j as int),
            ) && i < j <= toks@.len(),
            Err(_) => spec_parse_expression(toks@, i as int) is None,
        },
    decreases toks@.len() - i, 2int,
{
    let (t, j) = match parse_term(toks, i) {
        Ok(x) => x,
        Err(e) => {
            return Err(e.with_context("Failed to parse term"));
        },
    };
    let ops: Vec<BinaryOp> = Vec::new();
    let mut terms: Vec<Term> = Vec::new();
    let ghost tv = crate::ast::view_term(t);
    terms.push(t);
    proof {
        assert(terms@.drop_last() =~= Seq::<Term>::empty());
        assert(crate::ast::view_terms(Seq::<Term>::empty()) == Seq::<TermV>::empty());
        assert(crate::ast::view_terms(terms@) =~= seq![tv]);
        assert(ops@ =~= Seq::<BinaryOp>::empty());
    }
    parse_expr_more(toks, j, ops, terms)
}

/// Parse the remaining comma-separated expressions of an argument list,
/// up to and including the closing parenthesis.
fn parse_expr_list_more(toks: &Vec<Line<Token>>, j: usize, acc: Vec<Expression>) -> (r: Result<
    (Vec<Expression>, usize),
    SyntaxError,
>)
    requires
        j <= toks@.len(),
    ensures
        match r {
            Ok((es, k)) => spec_parse_expr_list_more(
                toks@,
                j as int,
                crate::ast::view_exprs(acc@),
            ) == Some((crate::ast::view_exprs(es@), k as int)) && j < k <= toks@.len(),
            Err(_) => spec_parse_expr_list_more(toks@, j as int, crate::ast::view_exprs(acc@))
                is None,
        },
    decreases toks@.len() - j, 0int,
{
    let n = toks.len();
    proof {
        assert(n == toks@.len());
    }
    if sym_at(toks, j, Symbols::Comma) {
        match parse_expression(toks, j + 1) {
            Ok((e, k)) => {
                let ghost gacc = acc@;
                let ghost ev = crate::ast::view_expr(e);
                let mut acc = acc;
                acc.push(e);
                proof {
                    assert(acc@.drop_last() =~= gacc);
                    assert(crate::ast::view_exprs(acc@) =~= crate::ast::view_exprs(gacc).push(ev));
                }
                parse_expr_list_more(toks, k, acc)
            },
            Err(e) => Err(e.with_context("Failed to parse expression")),
        }
    } else if sym_at(toks, j, Symbols::RightParen) {
        Ok((acc, j + 1))
    } else {
        Err(SyntaxError::new(err_line(toks, j), "Expect `)`"))
    }
}

/// Parse a parenthesized, possibly empty, comma-separated expression
/// list.
pub fn parse_expression_list(toks: &Vec<Line<Token>>, i: usize) -> (r: Result<
    (Vec<Expression>, usize),
    SyntaxError,
>)
    ensures
        match r {
            Ok((es, j)) => spec_parse_expression_list(toks@, i as int) == Some(
                (crate::ast::view_exprs(es@), j as int),
            ) && i < j <= toks@.len(),
            Err(_) => spec_parse_expression_list(toks@, i as int) is None,
        },
    decreases toks@.len() - i, 1int,
{
    let n = toks.len();
    proof {
        assert(n == toks@.len());
    }
    if !sym_at(toks, i, Symbols::LeftParen) {
        return Err(SyntaxError::new(err_line(toks, i), "Expect `(`"));
    }
    if sym_at(toks, i + 1, Symbols::RightParen) {
        let es: Vec<Expression> = Vec::new();
        proof {
            assert(crate::ast::view_exprs(es@) =~= Seq::<ExpressionV>::empty());
        }
        return Ok((es, i + 2));
    }
    match parse_expression(toks, i + 1) {
        Ok((e, j)) => {
            let mut acc: Vec<Expression> = Vec::new();
            let ghost ev = crate::ast::view_expr(e);
            acc.push(e);
            proof {
                assert(acc@.drop_last() =~= Seq::<Expression>::empty());
                assert(crate::ast::view_exprs(Seq::<Expression>::empty()) == Seq::<
                    ExpressionV,
                >::empty());
                assert(crate::ast::view_exprs(acc@) =~= seq![ev]);
            }
            parse_expr_list_more(toks, j, acc)
        },
        Err(e) => Err(e.with_context("Failed to parse expression")),
    }
}

/// Parse a subroutine call, bare or qualified.
pub fn parse_subroutine_call(toks: &Vec<Line<Token>>, i: usize) -> (r: Result<
    (SubroutineCall, usize),
    SyntaxError,
>)
    ensures
        match r {
            Ok((c, j)) => spec_parse_subroutine_call(toks@, i as int) == Some(
                (crate::ast::view_call(c), j as int),
            ) && i < j <= toks@.len(),
            Err(_) => spec_parse_subroutine_call(toks@, i as int) is None,
        },
    decreases toks@.len() - i, 0int,
{
    let n = toks.len();
    proof {
        assert(n == toks@.len());
    }
    if i >= n {
        return Err(
            SyntaxError::new(err_line(toks, i), "Expect subroutine, class, or variable name"),
        );
    }
    let first = match &toks[i].inner {
        Token::Identifier(id) => id.clone(),
        _ => {
            return Err(
                SyntaxError::new(err_line(toks, i), "Expect subroutine, class, or variable name"),
            );
        },
    };
    if sym_at(toks, i + 1, Symbols::Dot) {
        if i + 2 >= n {
            return Err(SyntaxError::new(err_line(toks, i + 2), "Expect subroutine name"));
        }
        let member = match &toks[i + 2].inner {
            Token::Identifier(id) => id.clone(),
            _ => {
                return Err(SyntaxError::new(err_line(toks, i + 2), "Expect subroutine name"));
            },
        };
        match parse_expression_list(toks, i + 3) {
            Ok((args, j)) => Ok((SubroutineCall::Indirect(first, member, args), j)),
            Err(e) => Err(e.with_context("Failed to parse arguments for subroutine call")),
        }
    } else if sym_at(toks, i + 1, Symbols::LeftParen) {
        match parse_expression_list(toks, i + 1) {
            Ok((args, j)) => Ok((SubroutineCall::Direct(first, args), j)),
            Err(e) => Err(e.with_context("Failed to parse arguments for subroutine call")),
        }
    } else {
        Err(SyntaxError::new(err_line(toks, i + 1), "Expect `.` or `(`"))
    }
}

/// Parse one term, peeking one token past a leading identifier to
/// disambiguate.
pub fn parse_term(toks: &Vec<Line<Token>>, i: usize) -> (r: Result<(Term, usize), SyntaxError>)
    ensures
        match r {
            Ok((t, j)) => spec_parse_term(toks@, i as int) == Some(
                (crate::ast::view_term(t), j as int),
            ) && i < j <= toks@.len(),
            Err(_) => spec_parse_term(toks@, i as int) is None,
        },
    decreases toks@.len() - i, 1int,
{
    let n = toks.len();
    proof {
        assert(n == toks@.len());
    }
    if i >= n {
        return Err(SyntaxError::new(err_line(toks, i), "Expect a token"));
    }
    match &toks[i].inner {
        Token::Keywords(k) => match k {
            Keywords::True => Ok((Term::True, i + 1)),
            Keywords::False => Ok((Term::False, i + 1)),
            Keywords::Null => Ok((Term::Null, i + 1)),
            Keywords::This => Ok((Term::This, i + 1)),
            _ => Err(SyntaxError::new(err_line(toks, i), "Expect a term")),
        },
        Token::Symbols(sym) => match sym {
            Symbols::Minus => match parse_term(toks, i + 1) {
                Ok((t, j)) => Ok((Term::Unary(UnaryOp::Negation, Box::new(t)), j)),
                Err(e) => Err(e.with_context("Failed to parse negation")),
            },
            Symbols::Not => match parse_term(toks, i + 1) {
                Ok((t, j)) => Ok((Term::Unary(UnaryOp::Not, Box::new(t)), j)),
                Err(e) => Err(e.with_context("Failed to parse not")),
            },
            Symbols::LeftParen => match parse_expression(toks, i + 1) {
                Ok((e, j)) => {
                    if sym_at(toks, j, Symbols::RightParen) {
                        Ok((Term::Parenthesis(Box::new(e)), j + 1))
                    } else {
                        Err(SyntaxError::new(err_line(toks, j), "Expect `)`"))
                    }
                },
                Err(e) => Err(e.with_context("Failed to parse expression")),
            },
            _ => Err(SyntaxError::new(err_line(toks, i), "Expect a term")),
        },
        Token::Integer(int_lit) => Ok((Term::IntegerLiteral(*int_lit), i + 1)),
        Token::StringLit(s) => Ok((Term::StringLiteral(s.clone()), i + 1)),
        Token::Identifier(name) => {
            if sym_at(toks, i + 1, Symbols::LeftSquare) {
                let name = name.clone();
                match parse_expression(toks, i + 2) {
                    Ok((e, j)) => {
                        if sym_at(toks, j, Symbols::RightSquare) {
                            Ok((Term::Array(name, Box::new(e)), j + 1))
                        } else {
                            Err(SyntaxError::new(err_line(toks, j), "Expect `]`"))
                        }
                    },
                    Err(e) => Err(e.with_context("Failed to parse array index expression")),
                }
            } else if sym_at(toks, i + 1, Symbols::LeftParen) || sym_at(toks, i + 1, Symbols::Dot) {
                match parse_subroutine_call(toks, i) {
                    Ok((c, j)) => Ok((Term::SubRoutineCall(c), j)),
                    Err(e) => Err(e.with_context("Failed to parse subroutine call")),
                }
            } else {
                Ok((Term::Variable(name.clone()), i + 1))
            }
        },
    }
}

// ---------------------------------------------------------------------
// Executable parsing: statements.
// ---------------------------------------------------------------------

/// Parse `= expression ;`, the tail of both forms of `let`.
fn parse_assignment(toks: &Vec<Line<Token>>, p: usize) -> (r: Result<
    (Expression, usize),
    SyntaxError,
>)
    ensures
        match r {
            Ok((e, q)) => spec_parse_assignment(toks@, p as int) == Some(
                (crate::ast::view_expr(e), q as int),
            ) && p < q <= toks@.len(),
            Err(_) => spec_parse_assignment(toks@, p as int) is None,
        },
{
    let n = toks.len();
    proof {
        assert(n == toks@.len());
    }
    if !sym_at(toks, p, Symbols::Equal) {
        return Err(SyntaxError::new(err_line(toks, p), "Expect `=`"));
    }
    let (e, q) = match parse_expression(toks, p + 1) {
        Ok(x) => x,
        Err(e) => {
            return Err(e);
        },
    };
    if sym_at(toks, q, Symbols::SemiColon) {
        Ok((e, q + 1))
    } else {
        Err(SyntaxError::new(err_line(toks, q), "Expect `;`"))
    }
}

/// Parse a `let` statement; `i` is at `let`.
pub fn parse_let(toks: &Vec<Line<Token>>, i: usize) -> (r: Result<(Statement, usize), SyntaxError>)
    ensures
        match r {
            Ok((s, j)) => spec_parse_let(toks@, i as int) == Some(
                (crate::ast::view_stmt(s), j as int),
            ) && i < j <= toks@.len(),
            Err(_) => spec_parse_let(toks@, i as int) is None,
        },
{
    let n = toks.len();
    proof {
        assert(n == toks@.len());
    }
    if i >= n {
        return Err(SyntaxError::new(err_line(toks, i), "Expect variable name"));
    }
    if i + 1 >= n {
        return Err(SyntaxError::new(err_line(toks, i + 1), "Expect variable name"));
    }
    let var_name = match &toks[i + 1].inner {
        Token::Identifier(id) => id.clone(),
        _ => {
            return Err(SyntaxError::new(err_line(toks, i + 1), "Expect variable name"));
        },
    };
    if sym_at(toks, i + 2, Symbols::LeftSquare) {
        let (idx, j) = match parse_expression(toks, i + 3) {
            Ok(x) => x,
            Err(e) => {
                return Err(e.with_context("Failed to array index expression"));
            },
        };
        if !sym_at(toks, j, Symbols::RightSquare) {
            return Err(SyntaxError::new(err_line(toks, j), "Expect `]`"));
        }
        match parse_assignment(toks, j + 1) {
            Ok((rhs, k)) => Ok(
                (Statement::Let(LetStatement::LetArray(var_name, idx, rhs)), k),
            ),
            Err(e) => Err(e),
        }
    } else {
        match parse_assignment(toks, i + 2) {
            Ok((rhs, k)) => Ok((Statement::Let(LetStatement::Let(var_name, rhs)), k)),
            Err(e) => Err(e),
        }
    }
}

/// Parse a `do` statement; `i` is at `do`.
pub fn parse_do(toks: &Vec<Line<Token>>, i: usize) -> (r: Result<(Statement, usize), SyntaxError>)
    ensures
        match r {
            Ok((s, j)) => spec_parse_do(toks@, i as int) == Some(
                (crate::ast::view_stmt(s), j as int),
            ) && i < j <= toks@.len(),
            Err(_) => spec_parse_do(toks@, i as int) is None,
        },
{
    let n = toks.len();
    proof {
        assert(n == toks@.len());
    }
    if i >= n {
        return Err(SyntaxError::new(err_line(toks, i), "Expect `do`"));
    }
    let (call, j) = match parse_subroutine_call(toks, i + 1) {
        Ok(x) => x,
        Err(e) => {
            return Err(e.with_context("Failed to parse subroutine call"));
        },
    };
    if sym_at(toks, j, Symbols::SemiColon) {
        Ok((Statement::Do(DoStatement { call }), j + 1))
    } else {
        Err(SyntaxError::new(err_line(toks, j), "Expect `;`"))
    }
}

/// Parse a `return` statement; `i` is at `return`.
pub fn parse_return(toks: &Vec<Line<Token>>, i: usize) -> (r: Result<
    (Statement, usize),
    SyntaxError,
>)
    ensures
        match r {
            Ok((s, j)) => spec_parse_return(toks@, i as int) == Some(
                (crate::ast::view_stmt(s), j as int),
            ) && i < j <= toks@.len(),
            Err(_) => spec_parse_return(toks@, i as int) is None,
        },
{
    let n = toks.len();
    proof {
        assert(n == toks@.len());
    }
    if i >= n {
        return Err(SyntaxError::new(err_line(toks, i), "Expect `return`"));
    }
    if sym_at(toks, i + 1, Symbols::SemiColon) {
        return Ok((Statement::Return(ReturnStatement::Return), i + 2));
    }
    let (e, j) = match parse_expression(toks, i + 1) {
        Ok(x) => x,
        Err(e) => {
            return Err(e.with_context("Failed to parse return expression"));
        },
    };
    if sym_at(toks, j, Symbols::SemiColon) {
        Ok((Statement::Return(ReturnStatement::ReturnExpression(e)), j + 1))
    } else {
        Err(SyntaxError::new(err_line(toks, j), "Expect `;`"))
    }
}

/// Parse an `if` statement; `i` is at `if`.
pub fn parse_if(toks: &Vec<Line<Token>>, i: usize) -> (r: Result<(Statement, usize), SyntaxError>)
    ensures
        match r {
            Ok((s, j)) => spec_parse_if(toks@, i as int) == Some(
                (crate::ast::view_stmt(s), j as int),
            ) && i < j <= toks@.len(),
            Err(_) => spec_parse_if(toks@, i as int) is None,
        },
    decreases toks@.len() - i, 1int,
{
    let n = toks.len();
    proof {
        assert(n == toks@.len());
    }
    if i >= n {
        return Err(SyntaxError::new(err_line(toks, i), "Expect `(`"));
    }
    if !sym_at(toks, i + 1, Symbols::LeftParen) {
        return Err(SyntaxError::new(err_line(toks, i + 1), "Expect `(`"));
    }
    let (cond, j) = match parse_expression(toks, i + 2) {
        Ok(x) => x,
        Err(e) => {
            return Err(e.with_context("Failed to parse if condition"));
        },
    };
    if !sym_at(toks, j, Symbols::RightParen) {
        return Err(SyntaxError::new(err_line(toks, j), "Expect `)`"));
    }
    if !sym_at(toks, j + 1, Symbols::LeftCurly) {
        return Err(SyntaxError::new(err_line(toks, j + 1), "Expect `{`"));
    }
    let (if_statements, k) = match parse_statements(toks, j + 2) {
        Ok(x) => x,
        Err(e) => {
            return Err(e.with_context("Failed to parse if body"));
        },
    };
    if !sym_at(toks, k, Symbols::RightCurly) {
        return Err(SyntaxError::new(err_line(toks, k), "Expect `}`"));
    }
    if kw_at(toks, k + 1, Keywords::Else) {
        if !sym_at(toks, k + 2, Symbols::LeftCurly) {
            return Err(SyntaxError::new(err_line(toks, k + 2), "Expect `{`"));
        }
        let (else_statements, m) = match parse_statements(toks, k + 3) {
            Ok(x) => x,
            Err(e) => {
                return Err(e.with_context("Failed to parse else statements"));
            },
        };
        if !sym_at(toks, m, Symbols::RightCurly) {
            return Err(SyntaxError::new(err_line(toks, m), "Expect `}`"));
        }
        Ok((Statement::If(IfStatement::IfElse(cond, if_statements, else_statements)), m + 1))
    } else {
        Ok((Statement::If(IfStatement::If(cond, if_statements)), k + 1))
    }
}

/// Parse a `while` statement; `i` is at `while`.
pub fn parse_while(toks: &Vec<Line<Token>>, i: usize) -> (r: Result<
    (Statement, usize),
    SyntaxError,
>)
    ensures
        match r {
            Ok((s, j)) => spec_parse_while(toks@, i as int) == Some(
                (crate::ast::view_stmt(s), j as int),
            ) && i < j <= toks@.len(),
            Err(_) => spec_parse_while(toks@, i as int) is None,
        },
    decreases toks@.len() - i, 1int,
{
    let n = toks.len();
    proof {
        assert(n == toks@.len());
    }
    if i >= n {
        return Err(SyntaxError::new(err_line(toks, i), "Expect `(`"));
    }
    if !sym_at(toks, i + 1, Symbols::LeftParen) {
        return Err(SyntaxError::new(err_line(toks, i + 1), "Expect `(`"));
    }
    let (cond, j) = match parse_expression(toks, i + 2) {
        Ok(x) => x,
        Err(e) => {
            return Err(e.with_context("Failed to parse if condition"));
        },
    };
    if !sym_at(toks, j, Symbols::RightParen) {
        return Err(SyntaxError::new(err_line(toks, j), "Expect `)`"));
    }
    if !sym_at(toks, j + 1, Symbols::LeftCurly) {
        return Err(SyntaxError::new(err_line(toks, j + 1), "Expect `{`"));
    }
    let (body, k) = match parse_statements(toks, j + 2) {
        Ok(x) => x,
        Err(e) => {
            return Err(e.with_context("Failed to parse if statements"));
        },
    };
    if !sym_at(toks, k, Symbols::RightCurly) {
        return Err(SyntaxError::new(err_line(toks, k), "Expect `}`"));
    }
    Ok((Statement::While(WhileStatement { condition: cond, statements: body }), k + 1))
}

/// Parse one statement, dispatching on its keyword.
pub fn parse_statement(toks: &Vec<Line<Token>>, i: usize) -> (r: Result<
    (Statement, usize),
    SyntaxError,
>)
    ensures
        match r {
            Ok((s, j)) => spec_parse_statement(toks@, i as int) == Some(
                (crate::ast::view_stmt(s), j as int),
            ) && i < j <= toks@.len(),
            Err(_) => spec_parse_statement(toks@, i as int) is None,
        },
    decreases toks@.len() - i, 2int,
{
    if i >= toks.len() {
        return Err(SyntaxError::new(err_line(toks, i), "Expect a statement"));
    }
    match &toks[i].inner {
        Token::Keywords(k) => match k {
            Keywords::Let => match parse_let(toks, i) {
                Ok(x) => Ok(x),
                Err(e) => Err(e.with_context("Failed to parse `let` statement")),
            },
            Keywords::If => match parse_if(toks, i) {
                Ok(x) => Ok(x),
                Err(e) => Err(e.with_context("Failed to parse `if` statement")),
            },
            Keywords::While => match parse_while(toks, i) {
                Ok(x) => Ok(x),
                Err(e) => Err(e.with_context("Failed to parse `while` statement")),
            },
            Keywords::Do => match parse_do(toks, i) {
                Ok(x) => Ok(x),
                Err(e) => Err(e.with_context("Failed to parse `do` statement")),
            },
            Keywords::Return => match parse_return(toks, i) {
                Ok(x) => Ok(x),
                Err(e) => Err(e.with_context("Failed to parse `return` statement")),
            },
            _ => Err(SyntaxError::new(err_line(toks, i), "Expect a statement")),
        },
        _ => Err(SyntaxError::new(err_line(toks, i), "Expect a statement")),
    }
}

/// Parse a statement list: statements while a statement keyword leads.
pub fn parse_statements(toks: &Vec<Line<Token>>, i: usize) -> (r: Result<
    (Vec<Statement>, usize),
    SyntaxError,
>)
    ensures
        match r {
            Ok((ss, j)) => spec_parse_statements(toks@, i as int) == Some(
                (crate::ast::view_stmts(ss@), j as int),
            ) && i <= j && (i <= toks@.len() ==> j <= toks@.len()),
            Err(_) => spec_parse_statements(toks@, i as int) is None,
        },
    decreases toks@.len() - i, 3int,
{
    if stmt_start_at(toks, i) {
        let (s, j) = match parse_statement(toks, i) {
            Ok(x) => x,
            Err(e) => {
                return Err(e);
            },
        };
        let (rest, k) = match parse_statements(toks, j) {
            Ok(x) => x,
            Err(e) => {
                return Err(e);
            },
        };
        let ghost sval = s;
        let ghost restv = rest@;
        let mut ss = rest;
        ss.insert(0, s);
        proof {
            crate::ast::lemma_view_stmts_cons(sval, restv);
        }
        Ok((ss, k))
    } else {
        let ss: Vec<Statement> = Vec::new();
        proof {
            assert(crate::ast::view_stmts(ss@) == Seq::<StatementV>::empty());
        }
        Ok((ss, i))
    }
}

// ---------------------------------------------------------------------
// Executable parsing: subroutines and the class.
// ---------------------------------------------------------------------

/// Parse the `var` declarations at the start of a subroutine body.
fn parse_subroutine_vars(toks: &Vec<Line<Token>>, i: usize) -> (r: Result<
    (Vec<VarDeclaration>, usize),
    SyntaxError,
>)
    ensures
        match r {
            Ok((vars, j)) => spec_parse_subroutine_vars(toks@, i as int) == Some(
                (crate::ast::view_var_decls(vars@), j as int),
            ) && i <= j && (i <= toks@.len() ==> j <= toks@.len()),
            Err(_) => spec_parse_subroutine_vars(toks@, i as int) is None,
        },
    decreases toks@.len() - i,
{
    if kw_at(toks, i, Keywords::Var) {
        let (vars, j) = match parse_subroutine_var_declare(toks, i) {
            Ok(x) => x,
            Err(e) => {
                return Err(e);
            },
        };
        let (rest, k) = match parse_subroutine_vars(toks, j) {
            Ok(x) => x,
            Err(e) => {
                return Err(e);
            },
        };
        let ghost varsv = vars@;
        let ghost restv = rest@;
        let mut out = vars;
        let mut rest = rest;
        out.append(&mut rest);
        proof {
            crate::ast::lemma_view_var_decls_concat(varsv, restv);
        }
        Ok((out, k))
    } else {
        let vars: Vec<VarDeclaration> = Vec::new();
        proof {
            assert(crate::ast::view_var_decls(vars@) =~= Seq::<VarDeclV>::empty());
        }
        Ok((vars, i))
    }
}

/// Parse one `var` declaration; `i` is at `var`.
pub fn parse_subroutine_var_declare(toks: &Vec<Line<Token>>, i: usize) -> (r: Result<
    (Vec<VarDeclaration>, usize),
    SyntaxError,
>)
    requires
        is_keyword(toks@, i as int, Keywords::Var),
    ensures
        match r {
            Ok((vars, j)) => spec_parse_var_declare(toks@, i + 1) == Some(
                (crate::ast::view_var_decls(vars@), j as int),
            ) && i < j <= toks@.len(),
            Err(_) => spec_parse_var_declare(toks@, i + 1) is None,
        },
{
    let n = toks.len();
    proof {
        assert(n == toks@.len());
    }
    match parse_var_declare(toks, i + 1) {
        Ok(x) => Ok(x),
        Err(e) => Err(e.with_context("Failed to parse subroutine variable declaration")),
    }
}

/// Parse a subroutine body: `{ var declarations, statements }`.
pub fn parse_subroutine_body(toks: &Vec<Line<Token>>, i: usize) -> (r: Result<
    (SubRoutineBody, usize),
    SyntaxError,
>)
    ensures
        match r {
            Ok((b, j)) => spec_parse_subroutine_body(toks@, i as int) == Some(
                (crate::ast::view_body(b), j as int),
            ) && i < j <= toks@.len(),
            Err(_) => spec_parse_subroutine_body(toks@, i as int) is None,
        },
{
    let n = toks.len();
    proof {
        assert(n == toks@.len());
    }
    if !sym_at(toks, i, Symbols::LeftCurly) {
        return Err(SyntaxError::new(err_line(toks, i), "Expect `{`"));
    }
    let (vars, j) = match parse_subroutine_vars(toks, i + 1) {
        Ok(x) => x,
        Err(e) => {
            return Err(e);
        },
    };
    let (statements, k) = match parse_statements(toks, j) {
        Ok(x) => x,
        Err(e) => {
            return Err(e.with_context("Failed to parse subroutine statements"));
        },
    };
    if sym_at(toks, k, Symbols::RightCurly) {
        Ok((SubRoutineBody { var_declarations: vars, statements }, k + 1))
    } else {
        Err(SyntaxError::new(err_line(toks, k), "Expect `}`"))
    }
}

/// Parse one subroutine declaration; `i` is at `constructor`,
/// `function`, or `method`.
pub fn parse_subroutine(toks: &Vec<Line<Token>>, i: usize) -> (r: Result<
    (SubRoutine, usize),
    SyntaxError,
>)
    ensures
        match r {
            Ok((s, j)) => spec_parse_subroutine(toks@, i as int) == Some(
                (crate::ast::view_subroutine(s), j as int),
            ) && i < j <= toks@.len(),
            Err(_) => spec_parse_subroutine(toks@, i as int) is None,
        },
{
    let n = toks.len();
    proof {
        assert(n == toks@.len());
    }
    if i >= n {
        return Err(
            SyntaxError::new(
                err_line(toks, i),
                "Expect `constructor`, `function`, or `method` keyword",
            ),
        );
    }
    let subroutine_type = match &toks[i].inner {
        Token::Keywords(kw) => match kw {
            Keywords::Constructor => Keywords::Constructor,
            Keywords::Function => Keywords::Function,
            Keywords::Method => Keywords::Method,
            _ => {
                return Err(
                    SyntaxError::new(
                        err_line(toks, i),
                        "Expect `constructor`, `function`, or `method` keyword",
                    ),
                );
            },
        },
        _ => {
            return Err(
                SyntaxError::new(
                    err_line(toks, i),
                    "Expect `constructor`, `function`, or `method` keyword",
                ),
            );
        },
    };
    let (ret_type, j) = match parse_func_return_type(toks, i + 1) {
        Ok(x) => x,
        Err(e) => {
            return Err(e.with_context("Failed to parse subroutine return type"));
        },
    };
    if j >= n {
        return Err(SyntaxError::new(err_line(toks, j), "Expect subroutine name"));
    }
    let subroutine_name = match &toks[j].inner {
        Token::Identifier(id) => id.clone(),
        _ => {
            return Err(SyntaxError::new(err_line(toks, j), "Expect subroutine name"));
        },
    };
    let (parameters, k) = match parse_parameter_list(toks, j + 1) {
        Ok(x) => x,
        Err(e) => {
            return Err(e.with_context("Failed to parse subroutine parameters"));
        },
    };
    let (body, m) = match parse_subroutine_body(toks, k) {
        Ok(x) => x,
        Err(e) => {
            return Err(e.with_context("Failed to parse subroutine body"));
        },
    };
    let sub = match subroutine_type {
        Keywords::Constructor => SubRoutine::Constructor(
            ret_type,
            subroutine_name,
            parameters,
            body,
        ),
        Keywords::Function => SubRoutine::Function(ret_type, subroutine_name, parameters, body),
        _ => SubRoutine::Method(ret_type, subroutine_name, parameters, body),
    };
    Ok((sub, m))
}

/// Parse the class-variable section.
fn parse_class_vars(toks: &Vec<Line<Token>>, i: usize) -> (r: Result<
    (Vec<ClassVarDeclaration>, usize),
    SyntaxError,
>)
    ensures
        match r {
            Ok((cvars, j)) => spec_parse_class_vars(toks@, i as int) == Some(
                (crate::ast::view_class_vars(cvars@), j as int),
            ) && i <= j && (i <= toks@.len() ==> j <= toks@.len()),
            Err(_) => spec_parse_class_vars(toks@, i as int) is None,
        },
    decreases toks@.len() - i,
{
    if kw_at(toks, i, Keywords::Static) || kw_at(toks, i, Keywords::Field) {
        let (cvars, j) = match parse_class_var_declare(toks, i) {
            Ok(x) => x,
            Err(e) => {
                return Err(e.with_context("Failed to parse class variables"));
            },
        };
        let (rest, k) = match parse_class_vars(toks, j) {
            Ok(x) => x,
            Err(e) => {
                return Err(e);
            },
        };
        let ghost cvarsv = cvars@;
        let ghost restv = rest@;
        let mut out = cvars;
        let mut rest = rest;
        out.append(&mut rest);
        proof {
            crate::ast::lemma_view_class_vars_concat(cvarsv, restv);
        }
        Ok((out, k))
    } else {
        let cvars: Vec<ClassVarDeclaration> = Vec::new();
        proof {
            assert(crate::ast::view_class_vars(cvars@) =~= Seq::<ClassVarDeclV>::empty());
        }
        Ok((cvars, i))
    }
}

/// Parse the subroutine section.
fn parse_subroutines(toks: &Vec<Line<Token>>, i: usize) -> (r: Result<
    (Vec<SubRoutine>, usize),
    SyntaxError,
>)
    ensures
        match r {
            Ok((subs, j)) => spec_parse_subroutines(toks@, i as int) == Some(
                (crate::ast::view_subroutines(subs@), j as int),
            ) && i <= j && (i <= toks@.len() ==> j <= toks@.len()),
            Err(_) => spec_parse_subroutines(toks@, i as int) is None,
        },
    decreases toks@.len() - i,
{
    let lead = kw_at(toks, i, Keywords::Constructor) || kw_at(toks, i, Keywords::Function) || kw_at(
        toks,
        i,
        Keywords::Method,
    );
    if lead {
        let (s, j) = match parse_subroutine(toks, i) {
            Ok(x) => x,
            Err(e) => {
                return Err(e.with_context("Failed to parse class subroutine"));
            },
        };
        let (rest, k) = match parse_subroutines(toks, j) {
            Ok(x) => x,
            Err(e) => {
                return Err(e);
            },
        };
        let ghost sval = s;
        let ghost restv = rest@;
        let mut subs = rest;
        subs.insert(0, s);
        proof {
            crate::ast::lemma_view_subroutines_insert0(sval, restv);
        }
        Ok((subs, k))
    } else {
        let subs: Vec<SubRoutine> = Vec::new();
        proof {
            assert(crate::ast::view_subroutines(subs@) =~= Seq::<SubRoutineV>::empty());
        }
        Ok((subs, i))
    }
}

/// Parse one whole class declaration.
pub fn parse_class(toks: &Vec<Line<Token>>, i: usize) -> (r: Result<
    (ParseTree, usize),
    SyntaxError,
>)
    ensures
        match r {
            Ok((tree, j)) => spec_parse_class(toks@, i as int) == Some(
                (crate::ast::view_tree(tree), j as int),
            ) && i < j <= toks@.len(),
            Err(_) => spec_parse_class(toks@, i as int) is None,
        },
{
    let n = toks.len();
    proof {
        assert(n == toks@.len());
    }
    if !kw_at(toks, i, Keywords::Class) {
        return Err(SyntaxError::new(err_line(toks, i), "Expect `class` keyword"));
    }
    if i + 1 >= n {
        return Err(SyntaxError::new(err_line(toks, i + 1), "Expect class name"));
    }
    let class_name = match &toks[i + 1].inner {
        Token::Identifier(id) => id.clone(),
        _ => {
            return Err(SyntaxError::new(err_line(toks, i + 1), "Expect class name"));
        },
    };
    if !sym_at(toks, i + 2, Symbols::LeftCurly) {
        return Err(SyntaxError::new(err_line(toks, i + 2), "Expect `{`"));
    }
    let (class_vars, j) = match parse_class_vars(toks, i + 3) {
        Ok(x) => x,
        Err(e) => {
            return Err(e);
        },
    };
    let (subroutines, k) = match parse_subroutines(toks, j) {
        Ok(x) => x,
        Err(e) => {
            return Err(e);
        },
    };
    if sym_at(toks, k, Symbols::RightCurly) {
        Ok(
            (
                ParseTree { name: class_name, var_declarations: class_vars, subroutines },
                k + 1,
            ),
        )
    } else {
        Err(SyntaxError::new(err_line(toks, k), "Expect `}`"))
    }
}

/// Parse the whole token stream as one class declaration.
pub fn parse(tokens: Tokens) -> (r: Result<ParseTree, SyntaxError>)
    ensures
        match r {
            Ok(tree) => spec_parse_class(tokens.tokens@, tokens.idx as int) matches Some((t, _))
                && t == crate::ast::view_tree(tree),
            Err(_) => spec_parse_class(tokens.tokens@, tokens.idx as int) is None,
        },
{
    match parse_class(&tokens.tokens, tokens.idx) {
        Ok((tree, _)) => Ok(tree),
        Err(e) => Err(e),
    }
}

} // verus!
