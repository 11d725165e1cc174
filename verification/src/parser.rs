//! The parser: a recursive-descent statement grammar over the token stream,
//! with precedence climbing for expressions and postfix chains for calls,
//! indexing, members and methods.
//!
//! `spec_parse` is the mathematical definition of parsing; the executable
//! `parse` returns exactly what it prescribes. Spec functions that walk the
//! token stream return the parsed value and the position just after it; a
//! recursion step that would not advance is mapped to an error, so every
//! definition terminates, and the executable code proves such steps always
//! advance.

use vstd::prelude::*;

use crate::ast::{
    AnonFunctionExpression, AssignmentStatement, Block, Chunk, ElseIf, Expression,
    FunctionCallExpression, FunctionCallStatement, FunctionDefinitionStatement,
    GenericForStatement, IfStatement, LastStatement, LocalDeclarationStatement,
    LocalFunctionDefinitionStatement, NumericForStatement, Parameter, RepeatStatement,
    ReturnStatement, SpecAnonFunctionExpression, SpecAssignmentStatement, SpecBlock, SpecChunk,
    SpecElseIf, SpecExpression, SpecFunctionCallExpression, SpecFunctionCallStatement,
    SpecFunctionDefinitionStatement, SpecGenericForStatement, SpecIfStatement, SpecLastStatement,
    SpecLocalDeclarationStatement, SpecNumericForStatement, SpecParameter, SpecRepeatStatement,
    SpecReturnStatement, SpecStatement, SpecTableField, SpecTableIndex, SpecTableMember,
    SpecTableMethod, SpecVariable, SpecWhileStatement, Statement, TableField, TableIndex,
    TableMember, TableMethod, Variable, WhileStatement,
};
use crate::lexer::{SpecLexError, SpecToken, Token};

verus! {

/// Why a parse failed.
#[derive(Debug, Clone, Copy, PartialEq, Eq, Structural)]
pub enum ParseErrorKind {
    /// A character no token starts with (the position counts characters).
    UnrecognizedCharacter(char),
    /// A numeric literal whose value conversion failed (characters).
    MalformedLiteral,
    /// The input ended where the grammar needed more (token index).
    UnexpectedEnd,
    /// The token at the position cannot continue the construct (token index).
    UnexpectedToken,
    /// A statement-level expression that is not a function call (token index
    /// of its start).
    NotACall,
    /// An assignment target that is not an assignable place (token index of
    /// its start).
    NotAssignable,
    /// A complete block was parsed but tokens remain (token index).
    TrailingInput,
}

/// A positioned parse error. For the two lexical kinds the position is a
/// character index into the source; for the rest it is a token index.
#[derive(Debug, Clone, Copy, PartialEq)]
pub struct ParseError {
    pub position: usize,
    pub kind: ParseErrorKind,
}

/// The mathematical form of a parse error.
pub struct SpecParseError {
    pub position: int,
    pub kind: ParseErrorKind,
}

impl View for ParseError {
    type V = SpecParseError;

    open spec fn view(&self) -> SpecParseError {
        SpecParseError { position: self.position as int, kind: self.kind }
    }
}

/// The error for an unmet expectation at `pos`.
pub open spec fn perr(t: Seq<SpecToken>, pos: int) -> SpecParseError {
    if pos >= t.len() {
        SpecParseError { position: pos, kind: ParseErrorKind::UnexpectedEnd }
    } else {
        SpecParseError { position: pos, kind: ParseErrorKind::UnexpectedToken }
    }
}

/// A token that ends a block without belonging to it.
pub open spec fn is_block_end(t: SpecToken) -> bool {
    t is End || t is Else || t is Elseif || t is Until
}

/// The name `goto`, which the tokenizer does not reserve: a statement that
/// begins with it, followed by another name, is a goto statement.
pub open spec fn is_goto_name(n: Seq<char>) -> bool {
    n.len() == 4 && n[0] == 'g' && n[1] == 'o' && n[2] == 't' && n[3] == 'o'
}

/// The assignable place a parsed expression stands for, if any.
pub open spec fn expr_to_var(e: SpecExpression) -> Option<SpecVariable> {
    match e {
        SpecExpression::Variable(v) => match v {
            SpecVariable::TableMethod(_) => None,
            _ => Some(v),
        },
        _ => None,
    }
}

// ---------------------------------------------------------------------------
// The grammar. Each function takes the token sequence and a position and
// yields the parsed value with the position after it, or an error.
// ---------------------------------------------------------------------------

/// A block: statements until a block-ending token, then an optional final
/// `break` or `return`.
#[verifier::opaque]
pub open spec fn sp_block(t: Seq<SpecToken>, pos: int) -> Result<(SpecBlock, int), SpecParseError>
    decreases t.len() - pos, 60int,
{
    match sp_stmts(t, pos) {
        Err(e) => Err(e),
        Ok((stmts, p1)) => {
            if !(pos <= p1 <= t.len()) {
                Err(perr(t, pos))
            } else if p1 < t.len() && t[p1] is Return {
                match sp_retstmt(t, p1) {
                    Err(e) => Err(e),
                    Ok((r, p2)) => Ok(
                        (
                            SpecBlock {
                                statements: stmts,
                                last_statement: Some(SpecLastStatement::Return(r)),
                            },
                            p2,
                        ),
                    ),
                }
            } else if p1 < t.len() && t[p1] is Break {
                Ok(
                    (
                        SpecBlock {
                            statements: stmts,
                            last_statement: Some(SpecLastStatement::Break),
                        },
                        p1 + 1,
                    ),
                )
            } else {
                Ok((SpecBlock { statements: stmts, last_statement: None }, p1))
            }
        },
    }
}

/// Zero or more statements, stopping before a block end, `return`, `break`
/// or the end of input.
#[verifier::opaque]
pub open spec fn sp_stmts(t: Seq<SpecToken>, pos: int) -> Result<
    (Seq<SpecStatement>, int),
    SpecParseError,
>
    decreases t.len() - pos, 58int,
{
    if pos >= t.len() || is_block_end(t[pos]) || t[pos] is Return || t[pos] is Break {
        Ok((Seq::empty(), pos))
    } else {
        match sp_stmt(t, pos) {
            Err(e) => Err(e),
            Ok((s, p2)) => {
                if pos < p2 <= t.len() {
                    match sp_stmts(t, p2) {
                        Err(e) => Err(e),
                        Ok((rest, p3)) => Ok((seq![s] + rest, p3)),
                    }
                } else {
                    Err(perr(t, pos))
                }
            },
        }
    }
}

/// A `return` statement with its optional expression list.
#[verifier::opaque]
pub open spec fn sp_retstmt(t: Seq<SpecToken>, pos: int) -> Result<
    (SpecReturnStatement, int),
    SpecParseError,
>
    decreases t.len() - pos, 56int,
{
    if pos + 1 >= t.len() || is_block_end(t[pos + 1]) {
        Ok((SpecReturnStatement { expression_list: Seq::empty() }, pos + 1))
    } else {
        match sp_explist(t, pos + 1) {
            Err(e) => Err(e),
            Ok((es, p)) => Ok((SpecReturnStatement { expression_list: es }, p)),
        }
    }
}

/// One statement, chosen by its leading token (and one token of lookahead
/// for `local function`, labels, and the two `for` forms).
#[verifier::opaque]
pub open spec fn sp_stmt(t: Seq<SpecToken>, pos: int) -> Result<
    (SpecStatement, int),
    SpecParseError,
>
    decreases t.len() - pos, 54int,
{
    if pos >= t.len() {
        Err(perr(t, pos))
    } else {
        match t[pos] {
            SpecToken::Semicolon => Ok((SpecStatement::Semicolon, pos + 1)),
            SpecToken::Local => {
                if pos + 1 < t.len() && t[pos + 1] is Function {
                    // local function Name funcbody
                    if pos + 2 < t.len() && t[pos + 2] is Identifier {
                        let name = t[pos + 2]->Identifier_0;
                        match sp_funcbody(t, pos + 3) {
                            Err(e) => Err(e),
                            Ok(((ps, b), p)) => Ok(
                                (
                                    SpecStatement::LocalFunctionDefinition(
                                        SpecFunctionDefinitionStatement {
                                            identifier: SpecVariable::Identifier(name),
                                            parameter_list: ps,
                                            block: b,
                                        },
                                    ),
                                    p,
                                ),
                            ),
                        }
                    } else {
                        Err(perr(t, pos + 2))
                    }
                } else {
                    match sp_identlist(t, pos + 1) {
                        Err(e) => Err(e),
                        Ok((ids, p1)) => {
                            if !(pos + 1 <= p1 <= t.len()) {
                                Err(perr(t, pos))
                            } else if p1 < t.len() && t[p1] is Assignment {
                                match sp_explist(t, p1 + 1) {
                                    Err(e) => Err(e),
                                    Ok((es, p2)) => Ok(
                                        (
                                            SpecStatement::LocalDeclaration(
                                                SpecLocalDeclarationStatement {
                                                    identifier_list: ids,
                                                    expression_list: es,
                                                },
                                            ),
                                            p2,
                                        ),
                                    ),
                                }
                            } else {
                                Ok(
                                    (
                                        SpecStatement::LocalDeclaration(
                                            SpecLocalDeclarationStatement {
                                                identifier_list: ids,
                                                expression_list: Seq::empty(),
                                            },
                                        ),
                                        p1,
                                    ),
                                )
                            }
                        },
                    }
                }
            },
            SpecToken::Colon => {
                // ::name::
                if pos + 4 < t.len() + 1 && pos + 1 < t.len() && t[pos + 1] is Colon && pos + 2
                    < t.len() && t[pos + 2] is Identifier && pos + 3 < t.len() && t[pos
                    + 3] is Colon && pos + 4 < t.len() && t[pos + 4] is Colon {
                    Ok((SpecStatement::Label(t[pos + 2]->Identifier_0), pos + 5))
                } else {
                    Err(perr(t, pos))
                }
            },
            SpecToken::Do => {
                match sp_block(t, pos + 1) {
                    Err(e) => Err(e),
                    Ok((b, p1)) => {
                        if p1 < t.len() && t[p1] is End {
                            Ok((SpecStatement::Scope(b), p1 + 1))
                        } else {
                            Err(perr(t, p1))
                        }
                    },
                }
            },
            SpecToken::While => {
                match sp_exp(t, pos + 1) {
                    Err(e) => Err(e),
                    Ok((c, p1)) => {
                        if !(pos + 1 <= p1 <= t.len()) {
                            Err(perr(t, pos))
                        } else if p1 < t.len() && t[p1] is Do {
                            match sp_block(t, p1 + 1) {
                                Err(e) => Err(e),
                                Ok((b, p2)) => {
                                    if p2 < t.len() && t[p2] is End {
                                        Ok(
                                            (
                                                SpecStatement::While(
                                                    SpecWhileStatement { condition: c, block: b },
                                                ),
                                                p2 + 1,
                                            ),
                                        )
                                    } else {
                                        Err(perr(t, p2))
                                    }
                                },
                            }
                        } else {
                            Err(perr(t, p1))
                        }
                    },
                }
            },
            SpecToken::Repeat => {
                match sp_block(t, pos + 1) {
                    Err(e) => Err(e),
                    Ok((b, p1)) => {
                        if !(pos + 1 <= p1 <= t.len()) {
                            Err(perr(t, pos))
                        } else if p1 < t.len() && t[p1] is Until {
                            match sp_exp(t, p1 + 1) {
                                Err(e) => Err(e),
                                Ok((c, p2)) => Ok(
                                    (
                                        SpecStatement::Repeat(
                                            SpecRepeatStatement { block: b, condition: c },
                                        ),
                                        p2,
                                    ),
                                ),
                            }
                        } else {
                            Err(perr(t, p1))
                        }
                    },
                }
            },
            SpecToken::If => sp_if_stmt(t, pos),
            SpecToken::For => sp_for_stmt(t, pos),
            SpecToken::Function => {
                match sp_funcname(t, pos + 1) {
                    Err(e) => Err(e),
                    Ok((v, p1)) => {
                        if !(pos + 1 <= p1 <= t.len()) {
                            Err(perr(t, pos))
                        } else {
                            match sp_funcbody(t, p1) {
                                Err(e) => Err(e),
                                Ok(((ps, b), p2)) => Ok(
                                    (
                                        SpecStatement::FunctionDefinition(
                                            SpecFunctionDefinitionStatement {
                                                identifier: v,
                                                parameter_list: ps,
                                                block: b,
                                            },
                                        ),
                                        p2,
                                    ),
                                ),
                            }
                        }
                    },
                }
            },
            SpecToken::Identifier(n) => {
                if is_goto_name(n) && pos + 1 < t.len() && t[pos + 1] is Identifier {
                    Ok((SpecStatement::Goto(t[pos + 1]->Identifier_0), pos + 2))
                } else {
                    sp_exprstmt(t, pos)
                }
            },
            SpecToken::LeftParen => sp_exprstmt(t, pos),
            _ => Err(perr(t, pos)),
        }
    }
}

/// An `if` statement: condition, block, `elseif` clauses, optional `else`.
#[verifier::opaque]
pub open spec fn sp_if_stmt(t: Seq<SpecToken>, pos: int) -> Result<
    (SpecStatement, int),
    SpecParseError,
>
    decreases t.len() - pos, 52int,
{
    if pos >= t.len() {
        Err(perr(t, pos))
    } else {
    match sp_exp(t, pos + 1) {
        Err(e) => Err(e),
        Ok((c, p1)) => {
            if !(pos + 1 <= p1 <= t.len()) {
                Err(perr(t, pos))
            } else if p1 < t.len() && t[p1] is Then {
                match sp_block(t, p1 + 1) {
                    Err(e) => Err(e),
                    Ok((b, p2)) => {
                        if !(p1 + 1 <= p2 <= t.len()) {
                            Err(perr(t, pos))
                        } else {
                            match sp_elseifs(t, p2) {
                                Err(e) => Err(e),
                                Ok((eis, p3)) => {
                                    if !(p2 <= p3 <= t.len()) {
                                        Err(perr(t, pos))
                                    } else if p3 < t.len() && t[p3] is Else {
                                        match sp_block(t, p3 + 1) {
                                            Err(e) => Err(e),
                                            Ok((eb, p4)) => {
                                                if p4 < t.len() && t[p4] is End {
                                                    Ok(
                                                        (
                                                            SpecStatement::If(
                                                                SpecIfStatement {
                                                                    condition: c,
                                                                    block: b,
                                                                    elseif_blocks: eis,
                                                                    else_block: Some(eb),
                                                                },
                                                            ),
                                                            p4 + 1,
                                                        ),
                                                    )
                                                } else {
                                                    Err(perr(t, p4))
                                                }
                                            },
                                        }
                                    } else if p3 < t.len() && t[p3] is End {
                                        Ok(
                                            (
                                                SpecStatement::If(
                                                    SpecIfStatement {
                                                        condition: c,
                                                        block: b,
                                                        elseif_blocks: eis,
                                                        else_block: None,
                                                    },
                                                ),
                                                p3 + 1,
                                            ),
                                        )
                                    } else {
                                        Err(perr(t, p3))
                                    }
                                },
                            }
                        }
                    },
                }
            } else {
                Err(perr(t, p1))
            }
        },
    }
    }
}

/// Zero or more `elseif` clauses.
#[verifier::opaque]
pub open spec fn sp_elseifs(t: Seq<SpecToken>, pos: int) -> Result<
    (Seq<SpecElseIf>, int),
    SpecParseError,
>
    decreases t.len() - pos, 50int,
{
    if pos < t.len() && t[pos] is Elseif {
        match sp_exp(t, pos + 1) {
            Err(e) => Err(e),
            Ok((c, p1)) => {
                if !(pos + 1 <= p1 <= t.len()) {
                    Err(perr(t, pos))
                } else if p1 < t.len() && t[p1] is Then {
                    match sp_block(t, p1 + 1) {
                        Err(e) => Err(e),
                        Ok((b, p2)) => {
                            if !(p1 + 1 <= p2 <= t.len()) {
                                Err(perr(t, pos))
                            } else {
                                match sp_elseifs(t, p2) {
                                    Err(e) => Err(e),
                                    Ok((rest, p3)) => Ok(
                                        (seq![SpecElseIf { condition: c, block: b }] + rest, p3),
                                    ),
                                }
                            }
                        },
                    }
                } else {
                    Err(perr(t, p1))
                }
            },
        }
    } else {
        Ok((Seq::empty(), pos))
    }
}

/// A `for` statement: numeric when `Name =` follows, generic otherwise.
#[verifier::opaque]
pub open spec fn sp_for_stmt(t: Seq<SpecToken>, pos: int) -> Result<
    (SpecStatement, int),
    SpecParseError,
>
    decreases t.len() - pos, 52int,
{
    if pos + 1 < t.len() && t[pos + 1] is Identifier && pos + 2 < t.len() && t[pos
        + 2] is Assignment {
        // numeric: for Name = start, limit [, step] do block end
        let name = t[pos + 1]->Identifier_0;
        match sp_exp(t, pos + 3) {
            Err(e) => Err(e),
            Ok((start, p1)) => {
                if !(pos + 3 <= p1 <= t.len()) {
                    Err(perr(t, pos))
                } else if p1 < t.len() && t[p1] is Comma {
                    match sp_exp(t, p1 + 1) {
                        Err(e) => Err(e),
                        Ok((limit, p2)) => {
                            if !(p1 + 1 <= p2 <= t.len()) {
                                Err(perr(t, pos))
                            } else if p2 < t.len() && t[p2] is Comma {
                                match sp_exp(t, p2 + 1) {
                                    Err(e) => Err(e),
                                    Ok((st, p3)) => {
                                        if !(p2 + 1 <= p3 <= t.len()) {
                                            Err(perr(t, pos))
                                        } else {
                                            sp_for_tail(t, pos, name, start, limit, Some(st), p3)
                                        }
                                    },
                                }
                            } else {
                                sp_for_tail(t, pos, name, start, limit, None, p2)
                            }
                        },
                    }
                } else {
                    Err(perr(t, p1))
                }
            },
        }
    } else if pos + 1 < t.len() && t[pos + 1] is Identifier {
        // generic: for namelist in explist do block end
        match sp_identlist(t, pos + 1) {
            Err(e) => Err(e),
            Ok((ids, p1)) => {
                if !(pos + 1 <= p1 <= t.len()) {
                    Err(perr(t, pos))
                } else if p1 < t.len() && t[p1] is In {
                    match sp_explist(t, p1 + 1) {
                        Err(e) => Err(e),
                        Ok((es, p2)) => {
                            if !(p1 + 1 <= p2 <= t.len()) {
                                Err(perr(t, pos))
                            } else if p2 < t.len() && t[p2] is Do {
                                match sp_block(t, p2 + 1) {
                                    Err(e) => Err(e),
                                    Ok((b, p3)) => {
                                        if p3 < t.len() && t[p3] is End {
                                            Ok(
                                                (
                                                    SpecStatement::GenericFor(
                                                        SpecGenericForStatement {
                                                            identifier_list: ids,
                                                            expression_list: es,
                                                            block: b,
                                                        },
                                                    ),
                                                    p3 + 1,
                                                ),
                                            )
                                        } else {
                                            Err(perr(t, p3))
                                        }
                                    },
                                }
                            } else {
                                Err(perr(t, p2))
                            }
                        },
                    }
                } else {
                    Err(perr(t, p1))
                }
            },
        }
    } else {
        Err(perr(t, pos + 1))
    }
}

/// The `do block end` tail of a numeric `for`, after its bound expressions.
#[verifier::opaque]
pub open spec fn sp_for_tail(
    t: Seq<SpecToken>,
    pos: int,
    name: Seq<char>,
    start: SpecExpression,
    limit: SpecExpression,
    step: Option<SpecExpression>,
    p: int,
) -> Result<(SpecStatement, int), SpecParseError>
    decreases t.len() - p, 51int,
{
    if !(pos < p <= t.len()) {
        Err(perr(t, pos))
    } else if p < t.len() && t[p] is Do {
        match sp_block(t, p + 1) {
            Err(e) => Err(e),
            Ok((b, p1)) => {
                if p1 < t.len() && t[p1] is End {
                    Ok(
                        (
                            SpecStatement::NumericFor(
                                SpecNumericForStatement {
                                    identifier: name,
                                    start: start,
                                    end: limit,
                                    step: step,
                                    block: b,
                                },
                            ),
                            p1 + 1,
                        ),
                    )
                } else {
                    Err(perr(t, p1))
                }
            },
        }
    } else {
        Err(perr(t, p))
    }
}

/// A statement that starts as an expression: a call statement, or an
/// assignment to one or more places.
#[verifier::opaque]
pub open spec fn sp_exprstmt(t: Seq<SpecToken>, pos: int) -> Result<
    (SpecStatement, int),
    SpecParseError,
>
    decreases t.len() - pos, 52int,
{
    match sp_postfix(t, pos) {
        Err(e) => Err(e),
        Ok((e, p1)) => {
            if !(pos <= p1 <= t.len()) {
                Err(perr(t, pos))
            } else if p1 < t.len() && (t[p1] is Assignment || t[p1] is Comma) {
                match expr_to_var(e) {
                    None => Err(
                        SpecParseError { position: pos, kind: ParseErrorKind::NotAssignable },
                    ),
                    Some(v) => sp_assign_tail(t, pos, v, p1),
                }
            } else {
                match e {
                    SpecExpression::FunctionCall(c) => Ok(
                        (
                            SpecStatement::FunctionCall(
                                SpecFunctionCallStatement {
                                    callee: c.callee,
                                    arguments: c.arguments,
                                },
                            ),
                            p1,
                        ),
                    ),
                    _ => Err(SpecParseError { position: pos, kind: ParseErrorKind::NotACall }),
                }
            }
        },
    }
}

/// The tail of an assignment statement, once its first target `v` is known:
/// the remaining targets from `p1`, the `=`, and the expression list.
#[verifier::opaque]
pub open spec fn sp_assign_tail(t: Seq<SpecToken>, pos: int, v: SpecVariable, p1: int) -> Result<
    (SpecStatement, int),
    SpecParseError,
>
    decreases t.len() - p1, 51int,
{
    match sp_varlist_rest(t, p1) {
        Err(e2) => Err(e2),
        Ok((vars, p2)) => {
            if !(p1 <= p2 <= t.len()) {
                Err(perr(t, pos))
            } else if p2 < t.len() && t[p2] is Assignment {
                match sp_explist(t, p2 + 1) {
                    Err(e2) => Err(e2),
                    Ok((es, p3)) => Ok(
                        (
                            SpecStatement::Assignment(
                                SpecAssignmentStatement {
                                    variable_list: seq![v] + vars,
                                    expression_list: es,
                                },
                            ),
                            p3,
                        ),
                    ),
                }
            } else {
                Err(perr(t, p2))
            }
        },
    }
}

/// Additional `, place` targets of an assignment.
#[verifier::opaque]
pub open spec fn sp_varlist_rest(t: Seq<SpecToken>, pos: int) -> Result<
    (Seq<SpecVariable>, int),
    SpecParseError,
>
    decreases t.len() - pos, 50int,
{
    if pos < t.len() && t[pos] is Comma {
        match sp_postfix(t, pos + 1) {
            Err(e) => Err(e),
            Ok((e, p1)) => {
                if !(pos + 1 <= p1 <= t.len()) {
                    Err(perr(t, pos))
                } else {
                    match expr_to_var(e) {
                        None => Err(
                            SpecParseError {
                                position: pos + 1,
                                kind: ParseErrorKind::NotAssignable,
                            },
                        ),
                        Some(v) => {
                            match sp_varlist_rest(t, p1) {
                                Err(e2) => Err(e2),
                                Ok((vars, p2)) => Ok((seq![v] + vars, p2)),
                            }
                        },
                    }
                }
            },
        }
    } else {
        Ok((Seq::empty(), pos))
    }
}

/// A function name: `Name`, dotted members, and an optional final `:Name`.
#[verifier::opaque]
pub open spec fn sp_funcname(t: Seq<SpecToken>, pos: int) -> Result<
    (SpecVariable, int),
    SpecParseError,
>
    decreases t.len() - pos, 14int,
{
    if pos < t.len() && t[pos] is Identifier {
        sp_funcname_rest(t, SpecVariable::Identifier(t[pos]->Identifier_0), pos + 1)
    } else {
        Err(perr(t, pos))
    }
}

/// The member and method tail of a function name.
#[verifier::opaque]
pub open spec fn sp_funcname_rest(t: Seq<SpecToken>, v: SpecVariable, pos: int) -> Result<
    (SpecVariable, int),
    SpecParseError,
>
    decreases t.len() - pos, 13int,
{
    if pos + 1 < t.len() && t[pos] is Period && t[pos + 1] is Identifier {
        sp_funcname_rest(
            t,
            SpecVariable::TableMember(
                SpecTableMember {
                    base: Box::new(SpecExpression::Variable(v)),
                    member: t[pos + 1]->Identifier_0,
                },
            ),
            pos + 2,
        )
    } else if pos + 1 < t.len() && t[pos] is Colon && t[pos + 1] is Identifier {
        Ok(
            (
                SpecVariable::TableMethod(
                    SpecTableMethod {
                        base: Box::new(SpecExpression::Variable(v)),
                        method: t[pos + 1]->Identifier_0,
                    },
                ),
                pos + 2,
            ),
        )
    } else {
        Ok((v, pos))
    }
}

/// A parameter list and body: `( parlist ) block end`.
#[verifier::opaque]
pub open spec fn sp_funcbody(t: Seq<SpecToken>, pos: int) -> Result<
    ((Seq<SpecParameter>, SpecBlock), int),
    SpecParseError,
>
    decreases t.len() - pos, 16int,
{
    if pos < t.len() && t[pos] is LeftParen {
        match sp_params(t, pos + 1) {
            Err(e) => Err(e),
            Ok((ps, p1)) => {
                if !(pos + 1 <= p1 <= t.len()) {
                    Err(perr(t, pos))
                } else if p1 < t.len() && t[p1] is RightParen {
                    match sp_block(t, p1 + 1) {
                        Err(e) => Err(e),
                        Ok((b, p2)) => {
                            if p2 < t.len() && t[p2] is End {
                                Ok(((ps, b), p2 + 1))
                            } else {
                                Err(perr(t, p2))
                            }
                        },
                    }
                } else {
                    Err(perr(t, p1))
                }
            },
        }
    } else {
        Err(perr(t, pos))
    }
}

/// A parameter list, up to (not including) the closing parenthesis: names
/// separated by commas, with `...` allowed only last, or `...` alone, or
/// nothing.
#[verifier::opaque]
pub open spec fn sp_params(t: Seq<SpecToken>, pos: int) -> Result<
    (Seq<SpecParameter>, int),
    SpecParseError,
>
    decreases t.len() - pos, 11int,
{
    if pos < t.len() && t[pos] is RightParen {
        Ok((Seq::empty(), pos))
    } else if pos < t.len() && t[pos] is TriplePeriod {
        Ok((seq![SpecParameter::VariableArg], pos + 1))
    } else if pos < t.len() && t[pos] is Identifier {
        let p = SpecParameter::Identifier(t[pos]->Identifier_0);
        if pos + 1 < t.len() && t[pos + 1] is Comma {
            match sp_params(t, pos + 2) {
                Err(e) => Err(e),
                Ok((rest, p2)) => {
                    if rest.len() == 0 {
                        // a comma must introduce another parameter
                        Err(perr(t, pos + 2))
                    } else {
                        Ok((seq![p] + rest, p2))
                    }
                },
            }
        } else {
            Ok((seq![p], pos + 1))
        }
    } else {
        Err(perr(t, pos))
    }
}

/// One or more names separated by commas.
#[verifier::opaque]
pub open spec fn sp_identlist(t: Seq<SpecToken>, pos: int) -> Result<
    (Seq<Seq<char>>, int),
    SpecParseError,
>
    decreases t.len() - pos, 10int,
{
    if pos < t.len() && t[pos] is Identifier {
        let n = t[pos]->Identifier_0;
        if pos + 1 < t.len() && t[pos + 1] is Comma {
            match sp_identlist(t, pos + 2) {
                Err(e) => Err(e),
                Ok((rest, p)) => Ok((seq![n] + rest, p)),
            }
        } else {
            Ok((seq![n], pos + 1))
        }
    } else {
        Err(perr(t, pos))
    }
}

/// One or more expressions separated by commas.
#[verifier::opaque]
pub open spec fn sp_explist(t: Seq<SpecToken>, pos: int) -> Result<
    (Seq<SpecExpression>, int),
    SpecParseError,
>
    decreases t.len() - pos, 42int,
{
    match sp_exp(t, pos) {
        Err(e) => Err(e),
        Ok((e, p)) => {
            if !(pos <= p <= t.len()) {
                Err(perr(t, pos))
            } else if p < t.len() && t[p] is Comma {
                match sp_explist(t, p + 1) {
                    Err(e2) => Err(e2),
                    Ok((rest, p2)) => Ok((seq![e] + rest, p2)),
                }
            } else {
                Ok((seq![e], p))
            }
        },
    }
}

/// An expression: the `or` level, the loosest binding.
#[verifier::opaque]
pub open spec fn sp_exp(t: Seq<SpecToken>, pos: int) -> Result<
    (SpecExpression, int),
    SpecParseError,
>
    decreases t.len() - pos, 41int,
{
    sp_or(t, pos)
}

#[verifier::opaque]
pub open spec fn sp_or(t: Seq<SpecToken>, pos: int) -> Result<(SpecExpression, int), SpecParseError>
    decreases t.len() - pos, 40int,
{
    match sp_and(t, pos) {
        Err(e) => Err(e),
        Ok((l, p)) => {
            if pos <= p <= t.len() {
                sp_or_rest(t, l, p)
            } else {
                Err(perr(t, pos))
            }
        },
    }
}

/// Left-associative folding of `or`.
#[verifier::opaque]
pub open spec fn sp_or_rest(t: Seq<SpecToken>, l: SpecExpression, pos: int) -> Result<
    (SpecExpression, int),
    SpecParseError,
>
    decreases t.len() - pos, 39int,
{
    if pos < t.len() && t[pos] is Or {
        match sp_and(t, pos + 1) {
            Err(e) => Err(e),
            Ok((r, p)) => {
                if pos + 1 <= p <= t.len() {
                    sp_or_rest(t, SpecExpression::Or(Box::new(l), Box::new(r)), p)
                } else {
                    Err(perr(t, pos))
                }
            },
        }
    } else {
        Ok((l, pos))
    }
}

#[verifier::opaque]
pub open spec fn sp_and(t: Seq<SpecToken>, pos: int) -> Result<
    (SpecExpression, int),
    SpecParseError,
>
    decreases t.len() - pos, 38int,
{
    match sp_cmp(t, pos) {
        Err(e) => Err(e),
        Ok((l, p)) => {
            if pos <= p <= t.len() {
                sp_and_rest(t, l, p)
            } else {
                Err(perr(t, pos))
            }
        },
    }
}

/// Left-associative folding of `and`.
#[verifier::opaque]
pub open spec fn sp_and_rest(t: Seq<SpecToken>, l: SpecExpression, pos: int) -> Result<
    (SpecExpression, int),
    SpecParseError,
>
    decreases t.len() - pos, 37int,
{
    if pos < t.len() && t[pos] is And {
        match sp_cmp(t, pos + 1) {
            Err(e) => Err(e),
            Ok((r, p)) => {
                if pos + 1 <= p <= t.len() {
                    sp_and_rest(t, SpecExpression::And(Box::new(l), Box::new(r)), p)
                } else {
                    Err(perr(t, pos))
                }
            },
        }
    } else {
        Ok((l, pos))
    }
}

/// A comparison-level operator token.
pub open spec fn is_cmp_op(t: SpecToken) -> bool {
    t is Equal || t is NotEq || t is LessThan || t is GreaterThan || t is LessThanOrEqual
        || t is GreaterThanOrEqual
}

/// The comparison expression this operator builds.
pub open spec fn mk_cmp(op: SpecToken, l: SpecExpression, r: SpecExpression) -> SpecExpression {
    match op {
        SpecToken::Equal => SpecExpression::Equal(Box::new(l), Box::new(r)),
        SpecToken::NotEq => SpecExpression::NotEqual(Box::new(l), Box::new(r)),
        SpecToken::LessThan => SpecExpression::LessThan(Box::new(l), Box::new(r)),
        SpecToken::GreaterThan => SpecExpression::GreaterThan(Box::new(l), Box::new(r)),
        SpecToken::LessThanOrEqual => SpecExpression::LessThanOrEqual(Box::new(l), Box::new(r)),
        _ => SpecExpression::GreaterThanOrEqual(Box::new(l), Box::new(r)),
    }
}

#[verifier::opaque]
pub open spec fn sp_cmp(t: Seq<SpecToken>, pos: int) -> Result<
    (SpecExpression, int),
    SpecParseError,
>
    decreases t.len() - pos, 36int,
{
    match sp_concat(t, pos) {
        Err(e) => Err(e),
        Ok((l, p)) => {
            if pos <= p <= t.len() {
                sp_cmp_rest(t, l, p)
            } else {
                Err(perr(t, pos))
            }
        },
    }
}

/// Left-associative folding of the six comparison operators.
#[verifier::opaque]
pub open spec fn sp_cmp_rest(t: Seq<SpecToken>, l: SpecExpression, pos: int) -> Result<
    (SpecExpression, int),
    SpecParseError,
>
    decreases t.len() - pos, 35int,
{
    if pos < t.len() && is_cmp_op(t[pos]) {
        match sp_concat(t, pos + 1) {
            Err(e) => Err(e),
            Ok((r, p)) => {
                if pos + 1 <= p <= t.len() {
                    sp_cmp_rest(t, mk_cmp(t[pos], l, r), p)
                } else {
                    Err(perr(t, pos))
                }
            },
        }
    } else {
        Ok((l, pos))
    }
}

/// Right-associative concatenation.
#[verifier::opaque]
pub open spec fn sp_concat(t: Seq<SpecToken>, pos: int) -> Result<
    (SpecExpression, int),
    SpecParseError,
>
    decreases t.len() - pos, 34int,
{
    match sp_add(t, pos) {
        Err(e) => Err(e),
        Ok((l, p)) => {
            if !(pos <= p <= t.len()) {
                Err(perr(t, pos))
            } else if p < t.len() && t[p] is DoublePeriod {
                match sp_concat(t, p + 1) {
                    Err(e) => Err(e),
                    Ok((r, p2)) => Ok(
                        (SpecExpression::Concatenation(Box::new(l), Box::new(r)), p2),
                    ),
                }
            } else {
                Ok((l, p))
            }
        },
    }
}

#[verifier::opaque]
pub open spec fn sp_add(t: Seq<SpecToken>, pos: int) -> Result<
    (SpecExpression, int),
    SpecParseError,
>
    decreases t.len() - pos, 32int,
{
    match sp_mul(t, pos) {
        Err(e) => Err(e),
        Ok((l, p)) => {
            if pos <= p <= t.len() {
                sp_add_rest(t, l, p)
            } else {
                Err(perr(t, pos))
            }
        },
    }
}

/// Left-associative folding of `+` and `-`.
#[verifier::opaque]
pub open spec fn sp_add_rest(t: Seq<SpecToken>, l: SpecExpression, pos: int) -> Result<
    (SpecExpression, int),
    SpecParseError,
>
    decreases t.len() - pos, 31int,
{
    if pos < t.len() && (t[pos] is Plus || t[pos] is Minus) {
        match sp_mul(t, pos + 1) {
            Err(e) => Err(e),
            Ok((r, p)) => {
                if pos + 1 <= p <= t.len() {
                    let e = if t[pos] is Plus {
                        SpecExpression::Addition(Box::new(l), Box::new(r))
                    } else {
                        SpecExpression::Subtraction(Box::new(l), Box::new(r))
                    };
                    sp_add_rest(t, e, p)
                } else {
                    Err(perr(t, pos))
                }
            },
        }
    } else {
        Ok((l, pos))
    }
}

#[verifier::opaque]
pub open spec fn sp_mul(t: Seq<SpecToken>, pos: int) -> Result<
    (SpecExpression, int),
    SpecParseError,
>
    decreases t.len() - pos, 30int,
{
    match sp_unary(t, pos) {
        Err(e) => Err(e),
        Ok((l, p)) => {
            if pos <= p <= t.len() {
                sp_mul_rest(t, l, p)
            } else {
                Err(perr(t, pos))
            }
        },
    }
}

/// Left-associative folding of `*`, `/` and `%`.
#[verifier::opaque]
pub open spec fn sp_mul_rest(t: Seq<SpecToken>, l: SpecExpression, pos: int) -> Result<
    (SpecExpression, int),
    SpecParseError,
>
    decreases t.len() - pos, 29int,
{
    if pos < t.len() && (t[pos] is Multiply || t[pos] is Divide || t[pos] is Modulo) {
        match sp_unary(t, pos + 1) {
            Err(e) => Err(e),
            Ok((r, p)) => {
                if pos + 1 <= p <= t.len() {
                    let e = if t[pos] is Multiply {
                        SpecExpression::Multiplication(Box::new(l), Box::new(r))
                    } else if t[pos] is Divide {
                        SpecExpression::Division(Box::new(l), Box::new(r))
                    } else {
                        SpecExpression::Modulo(Box::new(l), Box::new(r))
                    };
                    sp_mul_rest(t, e, p)
                } else {
                    Err(perr(t, pos))
                }
            },
        }
    } else {
        Ok((l, pos))
    }
}

/// Unary operators: `-`, `not` (also written `~`), `#`.
#[verifier::opaque]
pub open spec fn sp_unary(t: Seq<SpecToken>, pos: int) -> Result<
    (SpecExpression, int),
    SpecParseError,
>
    decreases t.len() - pos, 28int,
{
    if pos < t.len() && (t[pos] is Minus || t[pos] is Not || t[pos] is Tilde
        || t[pos] is Length) {
        match sp_unary(t, pos + 1) {
            Err(e) => Err(e),
            Ok((r, p)) => {
                let e = if t[pos] is Minus {
                    SpecExpression::Negative(Box::new(r))
                } else if t[pos] is Length {
                    SpecExpression::Length(Box::new(r))
                } else {
                    SpecExpression::Not(Box::new(r))
                };
                Ok((e, p))
            },
        }
    } else {
        sp_pow(t, pos)
    }
}

/// Right-associative exponentiation, binding tighter than unary operators;
/// its right operand may itself be unary.
#[verifier::opaque]
pub open spec fn sp_pow(t: Seq<SpecToken>, pos: int) -> Result<
    (SpecExpression, int),
    SpecParseError,
>
    decreases t.len() - pos, 26int,
{
    match sp_postfix(t, pos) {
        Err(e) => Err(e),
        Ok((b, p)) => {
            if !(pos <= p <= t.len()) {
                Err(perr(t, pos))
            } else if p < t.len() && t[p] is Xor {
                match sp_unary(t, p + 1) {
                    Err(e) => Err(e),
                    Ok((r, p2)) => Ok(
                        (SpecExpression::Exponentiation(Box::new(b), Box::new(r)), p2),
                    ),
                }
            } else {
                Ok((b, p))
            }
        },
    }
}

/// An atom followed by its postfix chain: calls, indexing, members, methods.
#[verifier::opaque]
pub open spec fn sp_postfix(t: Seq<SpecToken>, pos: int) -> Result<
    (SpecExpression, int),
    SpecParseError,
>
    decreases t.len() - pos, 24int,
{
    match sp_atom(t, pos) {
        Err(e) => Err(e),
        Ok((a, p)) => {
            if pos <= p <= t.len() {
                sp_suffixes(t, a, p)
            } else {
                Err(perr(t, pos))
            }
        },
    }
}

/// The postfix chain after a parsed prefix: `[e]`, `.name`, `:name(args)`,
/// `(args)`, a table-constructor argument, or a string argument.
#[verifier::opaque]
pub open spec fn sp_suffixes(t: Seq<SpecToken>, e: SpecExpression, pos: int) -> Result<
    (SpecExpression, int),
    SpecParseError,
>
    decreases t.len() - pos, 23int,
{
    if pos >= t.len() {
        Ok((e, pos))
    } else {
        match t[pos] {
            SpecToken::LeftSquareBracket => {
                match sp_exp(t, pos + 1) {
                    Err(err) => Err(err),
                    Ok((ix, p1)) => {
                        if !(pos + 1 <= p1 <= t.len()) {
                            Err(perr(t, pos))
                        } else if p1 < t.len() && t[p1] is RightSquareBracket {
                            sp_suffixes(
                                t,
                                SpecExpression::Variable(
                                    SpecVariable::TableIndex(
                                        SpecTableIndex { base: Box::new(e), index: Box::new(ix) },
                                    ),
                                ),
                                p1 + 1,
                            )
                        } else {
                            Err(perr(t, p1))
                        }
                    },
                }
            },
            SpecToken::Period => {
                if pos + 1 < t.len() && t[pos + 1] is Identifier {
                    sp_suffixes(
                        t,
                        SpecExpression::Variable(
                            SpecVariable::TableMember(
                                SpecTableMember {
                                    base: Box::new(e),
                                    member: t[pos + 1]->Identifier_0,
                                },
                            ),
                        ),
                        pos + 2,
                    )
                } else {
                    Err(perr(t, pos + 1))
                }
            },
            SpecToken::Colon => {
                if pos + 1 < t.len() && t[pos + 1] is Identifier {
                    match sp_args(t, pos + 2) {
                        Err(err) => Err(err),
                        Ok((args, p2)) => {
                            if pos + 2 <= p2 <= t.len() {
                                sp_suffixes(
                                    t,
                                    SpecExpression::FunctionCall(
                                        SpecFunctionCallExpression {
                                            callee: Box::new(
                                                SpecExpression::Variable(
                                                    SpecVariable::TableMethod(
                                                        SpecTableMethod {
                                                            base: Box::new(e),
                                                            method: t[pos + 1]->Identifier_0,
                                                        },
                                                    ),
                                                ),
                                            ),
                                            arguments: args,
                                        },
                                    ),
                                    p2,
                                )
                            } else {
                                Err(perr(t, pos))
                            }
                        },
                    }
                } else {
                    // a lone colon is not a suffix: it may open a label
                    Ok((e, pos))
                }
            },
            SpecToken::LeftParen => {
                match sp_args(t, pos) {
                    Err(err) => Err(err),
                    Ok((args, p1)) => {
                        if pos < p1 <= t.len() {
                            sp_suffixes(
                                t,
                                SpecExpression::FunctionCall(
                                    SpecFunctionCallExpression {
                                        callee: Box::new(e),
                                        arguments: args,
                                    },
                                ),
                                p1,
                            )
                        } else {
                            Err(perr(t, pos))
                        }
                    },
                }
            },
            SpecToken::LeftBracket => {
                match sp_table(t, pos) {
                    Err(err) => Err(err),
                    Ok((tc, p1)) => {
                        if pos < p1 <= t.len() {
                            sp_suffixes(
                                t,
                                SpecExpression::FunctionCall(
                                    SpecFunctionCallExpression {
                                        callee: Box::new(e),
                                        arguments: seq![tc],
                                    },
                                ),
                                p1,
                            )
                        } else {
                            Err(perr(t, pos))
                        }
                    },
                }
            },
            SpecToken::String(s) => {
                sp_suffixes(
                    t,
                    SpecExpression::FunctionCall(
                        SpecFunctionCallExpression {
                            callee: Box::new(e),
                            arguments: seq![SpecExpression::LiteralString(s)],
                        },
                    ),
                    pos + 1,
                )
            },
            _ => Ok((e, pos)),
        }
    }
}

/// Call arguments: `( explist? )`, a table constructor, or a string.
#[verifier::opaque]
pub open spec fn sp_args(t: Seq<SpecToken>, pos: int) -> Result<
    (Seq<SpecExpression>, int),
    SpecParseError,
>
    decreases t.len() - pos, 20int,
{
    if pos >= t.len() {
        Err(perr(t, pos))
    } else {
        match t[pos] {
            SpecToken::LeftParen => {
                if pos + 1 < t.len() && t[pos + 1] is RightParen {
                    Ok((Seq::empty(), pos + 2))
                } else {
                    match sp_explist(t, pos + 1) {
                        Err(e) => Err(e),
                        Ok((es, p1)) => {
                            if p1 < t.len() && t[p1] is RightParen {
                                Ok((es, p1 + 1))
                            } else {
                                Err(perr(t, p1))
                            }
                        },
                    }
                }
            },
            SpecToken::LeftBracket => {
                match sp_table(t, pos) {
                    Err(e) => Err(e),
                    Ok((tc, p1)) => Ok((seq![tc], p1)),
                }
            },
            SpecToken::String(s) => Ok((seq![SpecExpression::LiteralString(s)], pos + 1)),
            _ => Err(perr(t, pos)),
        }
    }
}

/// An atomic expression: a literal, `...`, a name, a table constructor, an
/// anonymous function, or a parenthesized expression.
#[verifier::opaque]
pub open spec fn sp_atom(t: Seq<SpecToken>, pos: int) -> Result<
    (SpecExpression, int),
    SpecParseError,
>
    decreases t.len() - pos, 22int,
{
    if pos >= t.len() {
        Err(perr(t, pos))
    } else {
        match t[pos] {
            SpecToken::Number(n) => Ok((SpecExpression::LiteralNumber(n), pos + 1)),
            SpecToken::String(s) => Ok((SpecExpression::LiteralString(s), pos + 1)),
            SpecToken::True => Ok((SpecExpression::True, pos + 1)),
            SpecToken::False => Ok((SpecExpression::False, pos + 1)),
            SpecToken::Nil => Ok((SpecExpression::Nil, pos + 1)),
            SpecToken::TriplePeriod => Ok((SpecExpression::VariableArgument, pos + 1)),
            SpecToken::Identifier(n) => Ok(
                (SpecExpression::Variable(SpecVariable::Identifier(n)), pos + 1),
            ),
            SpecToken::LeftBracket => sp_table(t, pos),
            SpecToken::Function => {
                match sp_funcbody(t, pos + 1) {
                    Err(e) => Err(e),
                    Ok(((ps, b), p)) => Ok(
                        (
                            SpecExpression::AnonFunctionDefinition(
                                SpecAnonFunctionExpression { parameter_list: ps, block: b },
                            ),
                            p,
                        ),
                    ),
                }
            },
            SpecToken::LeftParen => {
                match sp_exp(t, pos + 1) {
                    Err(e) => Err(e),
                    Ok((e, p1)) => {
                        if p1 < t.len() && t[p1] is RightParen {
                            Ok((SpecExpression::Parenthesized(Box::new(e)), p1 + 1))
                        } else {
                            Err(perr(t, p1))
                        }
                    },
                }
            },
            _ => Err(perr(t, pos)),
        }
    }
}

/// A table constructor: `{ field (sep field)* }` with `,` or `;` separators.
#[verifier::opaque]
pub open spec fn sp_table(t: Seq<SpecToken>, pos: int) -> Result<
    (SpecExpression, int),
    SpecParseError,
>
    decreases t.len() - pos, 12int,
{
    if pos < t.len() && t[pos] is LeftBracket {
        match sp_fields(t, pos + 1) {
            Err(e) => Err(e),
            Ok((fs, p1)) => {
                if p1 < t.len() && t[p1] is RightBracket {
                    Ok((SpecExpression::TableConstructor(fs), p1 + 1))
                } else {
                    Err(perr(t, p1))
                }
            },
        }
    } else {
        Err(perr(t, pos))
    }
}

/// Table fields: `[e] = e`, `name = e`, or a bare value.
#[verifier::opaque]
pub open spec fn sp_fields(t: Seq<SpecToken>, pos: int) -> Result<
    (Seq<SpecTableField>, int),
    SpecParseError,
>
    decreases t.len() - pos, 44int,
{
    if pos >= t.len() {
        Err(perr(t, pos))
    } else if t[pos] is RightBracket {
        Ok((Seq::empty(), pos))
    } else {
        match sp_field(t, pos) {
            Err(e) => Err(e),
            Ok((f, p1)) => {
                if !(pos < p1 <= t.len()) {
                    Err(perr(t, pos))
                } else if p1 < t.len() && (t[p1] is Comma || t[p1] is Semicolon) {
                    match sp_fields(t, p1 + 1) {
                        Err(e) => Err(e),
                        Ok((rest, p2)) => {
                            if rest.len() == 0 {
                                // a separator must introduce another field
                                Err(perr(t, p1 + 1))
                            } else {
                                Ok((seq![f] + rest, p2))
                            }
                        },
                    }
                } else {
                    Ok((seq![f], p1))
                }
            },
        }
    }
}

/// One table field.
#[verifier::opaque]
pub open spec fn sp_field(t: Seq<SpecToken>, pos: int) -> Result<
    (SpecTableField, int),
    SpecParseError,
>
    decreases t.len() - pos, 43int,
{
    if pos >= t.len() {
        Err(perr(t, pos))
    } else if t[pos] is LeftSquareBracket {
        match sp_exp(t, pos + 1) {
            Err(e) => Err(e),
            Ok((k, p1)) => {
                if !(pos + 1 <= p1 <= t.len()) {
                    Err(perr(t, pos))
                } else if p1 + 1 < t.len() && t[p1] is RightSquareBracket && t[p1
                    + 1] is Assignment {
                    match sp_exp(t, p1 + 2) {
                        Err(e) => Err(e),
                        Ok((v, p2)) => Ok((SpecTableField::IndexValue(k, v), p2)),
                    }
                } else {
                    Err(perr(t, p1))
                }
            },
        }
    } else if pos + 1 < t.len() && t[pos] is Identifier && t[pos + 1] is Assignment {
        match sp_exp(t, pos + 2) {
            Err(e) => Err(e),
            Ok((v, p2)) => Ok((SpecTableField::KeyValue(t[pos]->Identifier_0, v), p2)),
        }
    } else {
        match sp_exp(t, pos) {
            Err(e) => Err(e),
            Ok((v, p2)) => {
                if !(pos < p2 <= t.len()) {
                    Err(perr(t, pos))
                } else {
                    Ok((SpecTableField::Value(v), p2))
                }
            },
        }
    }
}

/// A chunk: one block covering the whole token stream.
pub open spec fn sp_chunk(t: Seq<SpecToken>) -> Result<SpecChunk, SpecParseError> {
    match sp_block(t, 0) {
        Err(e) => Err(e),
        Ok((b, p)) => {
            if p == t.len() {
                Ok(SpecChunk { block: b })
            } else {
                Err(SpecParseError { position: p, kind: ParseErrorKind::TrailingInput })
            }
        },
    }
}

/// Tokens the parser consumes: everything but comments.
pub open spec fn filter_comments(ts: Seq<SpecToken>) -> Seq<SpecToken> {
    ts.filter(|x: SpecToken| !(x is Comment))
}

/// A lexical error surfaced through the parser.
pub open spec fn lex_to_parse_error(e: SpecLexError) -> SpecParseError {
    SpecParseError {
        position: e.position,
        kind: match e.character {
            Some(c) => ParseErrorKind::UnrecognizedCharacter(c),
            None => ParseErrorKind::MalformedLiteral,
        },
    }
}

/// What parsing a source text means: tokenize, drop comments, parse one
/// block covering everything.
pub open spec fn spec_parse(s: Seq<char>) -> Result<SpecChunk, SpecParseError> {
    match crate::lexer::spec_tokenize(s) {
        Err(le) => Err(lex_to_parse_error(le)),
        Ok(ts) => sp_chunk(filter_comments(ts)),
    }
}

} // verus!

verus! {

// ---------------------------------------------------------------------------
// Facts connecting vector growth to the sequence views.
// ---------------------------------------------------------------------------

proof fn lemma_stmt_cons(x: Statement, s: Seq<Statement>)
    ensures
        crate::ast::view_stmt_seq(seq![x] + s) == seq![crate::ast::view_stmt(x)]
            + crate::ast::view_stmt_seq(s),
{
    assert((seq![x] + s).drop_first() =~= s);
    assert(crate::ast::view_stmt_seq(seq![x] + s) =~= seq![crate::ast::view_stmt(x)]
        + crate::ast::view_stmt_seq(s));
}

proof fn lemma_expr_cons(x: Expression, s: Seq<Expression>)
    ensures
        crate::ast::view_expr_seq(seq![x] + s) == seq![crate::ast::view_expr(x)]
            + crate::ast::view_expr_seq(s),
{
    assert((seq![x] + s).drop_first() =~= s);
    assert(crate::ast::view_expr_seq(seq![x] + s) =~= seq![crate::ast::view_expr(x)]
        + crate::ast::view_expr_seq(s));
}

proof fn lemma_var_cons(x: Variable, s: Seq<Variable>)
    ensures
        crate::ast::view_var_seq(seq![x] + s) == seq![crate::ast::view_var(x)]
            + crate::ast::view_var_seq(s),
{
    assert((seq![x] + s).drop_first() =~= s);
    assert(crate::ast::view_var_seq(seq![x] + s) =~= seq![crate::ast::view_var(x)]
        + crate::ast::view_var_seq(s));
}

proof fn lemma_field_cons(x: TableField, s: Seq<TableField>)
    ensures
        crate::ast::view_field_seq(seq![x] + s) == seq![crate::ast::view_field(x)]
            + crate::ast::view_field_seq(s),
{
    assert((seq![x] + s).drop_first() =~= s);
    assert(crate::ast::view_field_seq(seq![x] + s) =~= seq![crate::ast::view_field(x)]
        + crate::ast::view_field_seq(s));
}

proof fn lemma_elseif_cons(x: ElseIf, s: Seq<ElseIf>)
    ensures
        crate::ast::view_elseif_seq(seq![x] + s) == seq![crate::ast::view_elseif(x)]
            + crate::ast::view_elseif_seq(s),
{
    assert((seq![x] + s).drop_first() =~= s);
    assert(crate::ast::view_elseif_seq(seq![x] + s) =~= seq![crate::ast::view_elseif(x)]
        + crate::ast::view_elseif_seq(s));
}

/// The token stream a vector of tokens stands for.
pub open spec fn tview(t: &Vec<Token>) -> Seq<SpecToken> {
    crate::lexer::view_token_seq(t@)
}

/// The executable form of `perr`.
fn perr_e(t: &Vec<Token>, pos: usize) -> (r: ParseError)
    ensures
        r@ == perr(tview(t), pos as int),
{
    if pos >= t.len() {
        ParseError { position: pos, kind: ParseErrorKind::UnexpectedEnd }
    } else {
        ParseError { position: pos, kind: ParseErrorKind::UnexpectedToken }
    }
}

/// Whether this identifier text is the name `goto`.
fn is_goto_e(s: &String) -> (r: bool)
    ensures
        r == is_goto_name(s@),
{
    let st = s.as_str();
    if st.unicode_len() != 4 {
        return false;
    }
    st.get_char(0) == 'g' && st.get_char(1) == 'o' && st.get_char(2) == 't' && st.get_char(3)
        == 'o'
}

/// The executable form of `expr_to_var`.
fn expr_to_var_e(e: Expression) -> (r: Option<Variable>)
    ensures
        match r {
            Some(v) => expr_to_var(crate::ast::view_expr(e)) == Some(crate::ast::view_var(v)),
            None => expr_to_var(crate::ast::view_expr(e)) is None,
        },
{
    let ghost ge = crate::ast::view_expr(e);
    match e {
        Expression::Variable(v) => {
            proof {
                assert(ge == SpecExpression::Variable(crate::ast::view_var(v)));
            }
            match v {
                Variable::TableMethod(_) => None,
                Variable::Identifier(x) => Some(Variable::Identifier(x)),
                Variable::TableIndex(x) => Some(Variable::TableIndex(x)),
                Variable::TableMember(x) => Some(Variable::TableMember(x)),
            }
        },
        _ => None,
    }
}

// ---------------------------------------------------------------------------
// The executable parser: each function returns exactly what its spec
// counterpart prescribes.
// ---------------------------------------------------------------------------

#[verifier::rlimit(100)]
#[verifier::spinoff_prover]
fn p_block(t: &Vec<Token>, pos: usize) -> (r: Result<(Block, usize), ParseError>)
    requires
        pos <= t@.len(),
    ensures
        match r {
            Ok((b, p)) => sp_block(tview(t), pos as int) == Ok::<(SpecBlock, int), SpecParseError>(
                (b@, p as int),
            ) && pos <= p <= t@.len(),
            Err(e) => sp_block(tview(t), pos as int) == Err::<(SpecBlock, int), SpecParseError>(
                e@,
            ),
        },
    decreases t@.len() - pos, 60int,
{
    proof { reveal(sp_block); }
    let (stmts, p1) = match p_stmts(t, pos) {
        Ok(x) => x,
        Err(e) => {
            return Err(e);
        },
    };
    if p1 < t.len() && matches!(&t[p1], Token::Return) {
        match p_retstmt(t, p1) {
            Ok((ret, p2)) => Ok(
                (
                    Block {
                        statements: stmts,
                        last_statement: Some(LastStatement::Return(ret)),
                    },
                    p2,
                ),
            ),
            Err(e) => Err(e),
        }
    } else if p1 < t.len() && matches!(&t[p1], Token::Break) {
        Ok((Block { statements: stmts, last_statement: Some(LastStatement::Break) }, p1 + 1))
    } else {
        Ok((Block { statements: stmts, last_statement: None }, p1))
    }
}

#[verifier::rlimit(100)]
#[verifier::spinoff_prover]
fn p_stmts(t: &Vec<Token>, pos: usize) -> (r: Result<(Vec<Statement>, usize), ParseError>)
    requires
        pos <= t@.len(),
    ensures
        match r {
            Ok((v, p)) => sp_stmts(tview(t), pos as int) == Ok::<
                (Seq<SpecStatement>, int),
                SpecParseError,
            >((crate::ast::view_stmt_seq(v@), p as int)) && pos <= p <= t@.len(),
            Err(e) => sp_stmts(tview(t), pos as int) == Err::<
                (Seq<SpecStatement>, int),
                SpecParseError,
            >(e@),
        },
    decreases t@.len() - pos, 58int,
{
    proof { reveal(sp_stmts); }
    if pos >= t.len() || matches!(
        &t[pos],
        Token::End | Token::Else | Token::Elseif | Token::Until | Token::Return | Token::Break,
    ) {
        proof {
            assert(crate::ast::view_stmt_seq(Seq::<Statement>::empty())
                =~= Seq::<SpecStatement>::empty());
        }
        return Ok((Vec::new(), pos));
    }
    let (s, p2) = match p_stmt(t, pos) {
        Ok(x) => x,
        Err(e) => {
            return Err(e);
        },
    };
    match p_stmts(t, p2) {
        Ok((mut rest, p3)) => {
            proof {
                lemma_stmt_cons(s, rest@);
                assert(rest@.insert(0, s) =~= seq![s] + rest@);
            }
            rest.insert(0, s);
            Ok((rest, p3))
        },
        Err(e) => Err(e),
    }
}

#[verifier::rlimit(100)]
#[verifier::spinoff_prover]
fn p_retstmt(t: &Vec<Token>, pos: usize) -> (r: Result<(ReturnStatement, usize), ParseError>)
    requires
        pos < t@.len(),
    ensures
        match r {
            Ok((x, p)) => sp_retstmt(tview(t), pos as int) == Ok::<
                (SpecReturnStatement, int),
                SpecParseError,
            >((SpecReturnStatement { expression_list: crate::ast::view_expr_seq(x.expression_list@) }, p as int))
                && pos < p <= t@.len(),
            Err(e) => sp_retstmt(tview(t), pos as int) == Err::<
                (SpecReturnStatement, int),
                SpecParseError,
            >(e@),
        },
    decreases t@.len() - pos, 56int,
{
    proof { reveal(sp_retstmt); }
    let n = t.len();
    if pos + 1 >= n || matches!(
        &t[pos + 1],
        Token::End | Token::Else | Token::Elseif | Token::Until,
    ) {
        proof {
            assert(crate::ast::view_expr_seq(Seq::<Expression>::empty())
                =~= Seq::<SpecExpression>::empty());
        }
        Ok((ReturnStatement { expression_list: Vec::new() }, pos + 1))
    } else {
        match p_explist(t, pos + 1) {
            Ok((es, p)) => Ok((ReturnStatement { expression_list: es }, p)),
            Err(e) => Err(e),
        }
    }
}

#[verifier::rlimit(100)]
#[verifier::spinoff_prover]
fn p_stmt(t: &Vec<Token>, pos: usize) -> (r: Result<(Statement, usize), ParseError>)
    requires
        pos < t@.len(),
    ensures
        match r {
            Ok((s, p)) => sp_stmt(tview(t), pos as int) == Ok::<
                (SpecStatement, int),
                SpecParseError,
            >((s@, p as int)) && pos < p <= t@.len(),
            Err(e) => sp_stmt(tview(t), pos as int) == Err::<(SpecStatement, int), SpecParseError>(
                e@,
            ),
        },
    decreases t@.len() - pos, 54int,
{
    proof { reveal(sp_stmt); }
    let n = t.len();
    match &t[pos] {
        Token::Semicolon => Ok((Statement::Semicolon, pos + 1)),
        Token::Local => {
            if pos + 1 < n && matches!(&t[pos + 1], Token::Function) {
                if pos + 2 < n {
                    let name = match &t[pos + 2] {
                        Token::Identifier(s) => s.clone(),
                        _ => {
                            return Err(perr_e(t, pos + 2));
                        },
                    };
                    match p_funcbody(t, pos + 3) {
                        Ok((ps, b, p)) => Ok(
                            (
                                Statement::LocalFunctionDefinition(
                                    LocalFunctionDefinitionStatement {
                                        identifier: Variable::Identifier(name),
                                        parameter_list: ps,
                                        block: b,
                                    },
                                ),
                                p,
                            ),
                        ),
                        Err(e) => Err(e),
                    }
                } else {
                    Err(perr_e(t, pos + 2))
                }
            } else {
                let (ids, p1) = match p_identlist(t, pos + 1) {
                    Ok(x) => x,
                    Err(e) => {
                        return Err(e);
                    },
                };
                if p1 < n && matches!(&t[p1], Token::Assignment) {
                    match p_explist(t, p1 + 1) {
                        Ok((es, p2)) => Ok(
                            (
                                Statement::LocalDeclaration(
                                    LocalDeclarationStatement {
                                        identifier_list: ids,
                                        expression_list: es,
                                    },
                                ),
                                p2,
                            ),
                        ),
                        Err(e) => Err(e),
                    }
                } else {
                    proof {
                        assert(crate::ast::view_expr_seq(Seq::<Expression>::empty())
                            =~= Seq::<SpecExpression>::empty());
                    }
                    Ok(
                        (
                            Statement::LocalDeclaration(
                                LocalDeclarationStatement {
                                    identifier_list: ids,
                                    expression_list: Vec::new(),
                                },
                            ),
                            p1,
                        ),
                    )
                }
            }
        },
        Token::Colon => {
            if pos + 1 < n && matches!(&t[pos + 1], Token::Colon) && pos + 2 < n && matches!(
                &t[pos + 2],
                Token::Identifier(_),
            ) && pos + 3 < n && matches!(&t[pos + 3], Token::Colon) && pos + 4 < n && matches!(
                &t[pos + 4],
                Token::Colon,
            ) {
                let name = match &t[pos + 2] {
                    Token::Identifier(s) => s.clone(),
                    _ => {
                        return Err(perr_e(t, pos));
                    },
                };
                Ok((Statement::Label(name), pos + 5))
            } else {
                Err(perr_e(t, pos))
            }
        },
        Token::Do => {
            match p_block(t, pos + 1) {
                Ok((b, p1)) => {
                    if p1 < n && matches!(&t[p1], Token::End) {
                        Ok((Statement::Scope(b), p1 + 1))
                    } else {
                        Err(perr_e(t, p1))
                    }
                },
                Err(e) => Err(e),
            }
        },
        Token::While => {
            match p_exp(t, pos + 1) {
                Ok((c, p1)) => {
                    if p1 < n && matches!(&t[p1], Token::Do) {
                        match p_block(t, p1 + 1) {
                            Ok((b, p2)) => {
                                if p2 < n && matches!(&t[p2], Token::End) {
                                    Ok(
                                        (
                                            Statement::While(
                                                WhileStatement { condition: c, block: b },
                                            ),
                                            p2 + 1,
                                        ),
                                    )
                                } else {
                                    Err(perr_e(t, p2))
                                }
                            },
                            Err(e) => Err(e),
                        }
                    } else {
                        Err(perr_e(t, p1))
                    }
                },
                Err(e) => Err(e),
            }
        },
        Token::Repeat => {
            match p_block(t, pos + 1) {
                Ok((b, p1)) => {
                    if p1 < n && matches!(&t[p1], Token::Until) {
                        match p_exp(t, p1 + 1) {
                            Ok((c, p2)) => Ok(
                                (
                                    Statement::Repeat(
                                        RepeatStatement { block: b, condition: c },
                                    ),
                                    p2,
                                ),
                            ),
                            Err(e) => Err(e),
                        }
                    } else {
                        Err(perr_e(t, p1))
                    }
                },
                Err(e) => Err(e),
            }
        },
        Token::If => p_if_stmt(t, pos),
        Token::For => p_for_stmt(t, pos),
        Token::Function => {
            match p_funcname(t, pos + 1) {
                Ok((v, p1)) => {
                    match p_funcbody(t, p1) {
                        Ok((ps, b, p2)) => Ok(
                            (
                                Statement::FunctionDefinition(
                                    FunctionDefinitionStatement {
                                        identifier: v,
                                        parameter_list: ps,
                                        block: b,
                                    },
                                ),
                                p2,
                            ),
                        ),
                        Err(e) => Err(e),
                    }
                },
                Err(e) => Err(e),
            }
        },
        Token::Identifier(name) => {
            if is_goto_e(name) && pos + 1 < n && matches!(&t[pos + 1], Token::Identifier(_)) {
                let label = match &t[pos + 1] {
                    Token::Identifier(s) => s.clone(),
                    _ => {
                        return Err(perr_e(t, pos));
                    },
                };
                Ok((Statement::Goto(label), pos + 2))
            } else {
                p_exprstmt(t, pos)
            }
        },
        Token::LeftParen => p_exprstmt(t, pos),
        _ => Err(perr_e(t, pos)),
    }
}

#[verifier::rlimit(100)]
#[verifier::spinoff_prover]
fn p_if_stmt(t: &Vec<Token>, pos: usize) -> (r: Result<(Statement, usize), ParseError>)
    requires
        pos < t@.len(),
    ensures
        match r {
            Ok((s, p)) => sp_if_stmt(tview(t), pos as int) == Ok::<
                (SpecStatement, int),
                SpecParseError,
            >((s@, p as int)) && pos < p <= t@.len(),
            Err(e) => sp_if_stmt(tview(t), pos as int) == Err::<
                (SpecStatement, int),
                SpecParseError,
            >(e@),
        },
    decreases t@.len() - pos, 52int,
{
    proof { reveal(sp_if_stmt); }
    let n = t.len();
    let (c, p1) = match p_exp(t, pos + 1) {
        Ok(x) => x,
        Err(e) => {
            return Err(e);
        },
    };
    if !(p1 < n && matches!(&t[p1], Token::Then)) {
        return Err(perr_e(t, p1));
    }
    let (b, p2) = match p_block(t, p1 + 1) {
        Ok(x) => x,
        Err(e) => {
            return Err(e);
        },
    };
    let (eis, p3) = match p_elseifs(t, p2) {
        Ok(x) => x,
        Err(e) => {
            return Err(e);
        },
    };
    if p3 < n && matches!(&t[p3], Token::Else) {
        let (eb, p4) = match p_block(t, p3 + 1) {
            Ok(x) => x,
            Err(e) => {
                return Err(e);
            },
        };
        if p4 < n && matches!(&t[p4], Token::End) {
            Ok(
                (
                    Statement::If(
                        IfStatement {
                            condition: c,
                            block: b,
                            elseif_blocks: eis,
                            else_block: Some(eb),
                        },
                    ),
                    p4 + 1,
                ),
            )
        } else {
            Err(perr_e(t, p4))
        }
    } else if p3 < n && matches!(&t[p3], Token::End) {
        Ok(
            (
                Statement::If(
                    IfStatement {
                        condition: c,
                        block: b,
                        elseif_blocks: eis,
                        else_block: None,
                    },
                ),
                p3 + 1,
            ),
        )
    } else {
        Err(perr_e(t, p3))
    }
}

#[verifier::rlimit(100)]
#[verifier::spinoff_prover]
fn p_elseifs(t: &Vec<Token>, pos: usize) -> (r: Result<(Vec<ElseIf>, usize), ParseError>)
    requires
        pos <= t@.len(),
    ensures
        match r {
            Ok((v, p)) => sp_elseifs(tview(t), pos as int) == Ok::<
                (Seq<SpecElseIf>, int),
                SpecParseError,
            >((crate::ast::view_elseif_seq(v@), p as int)) && pos <= p <= t@.len(),
            Err(e) => sp_elseifs(tview(t), pos as int) == Err::<
                (Seq<SpecElseIf>, int),
                SpecParseError,
            >(e@),
        },
    decreases t@.len() - pos, 50int,
{
    proof { reveal(sp_elseifs); }
    let n = t.len();
    if pos < n && matches!(&t[pos], Token::Elseif) {
        let (c, p1) = match p_exp(t, pos + 1) {
            Ok(x) => x,
            Err(e) => {
                return Err(e);
            },
        };
        if !(p1 < n && matches!(&t[p1], Token::Then)) {
            return Err(perr_e(t, p1));
        }
        let (b, p2) = match p_block(t, p1 + 1) {
            Ok(x) => x,
            Err(e) => {
                return Err(e);
            },
        };
        match p_elseifs(t, p2) {
            Ok((mut rest, p3)) => {
                let ei = ElseIf { condition: c, block: b };
                proof {
                    lemma_elseif_cons(ei, rest@);
                    assert(rest@.insert(0, ei) =~= seq![ei] + rest@);
                }
                rest.insert(0, ei);
                Ok((rest, p3))
            },
            Err(e) => Err(e),
        }
    } else {
        proof {
            assert(crate::ast::view_elseif_seq(Seq::<ElseIf>::empty())
                =~= Seq::<SpecElseIf>::empty());
        }
        Ok((Vec::new(), pos))
    }
}

#[verifier::rlimit(100)]
#[verifier::spinoff_prover]
fn p_for_stmt(t: &Vec<Token>, pos: usize) -> (r: Result<(Statement, usize), ParseError>)
    requires
        pos < t@.len(),
    ensures
        match r {
            Ok((s, p)) => sp_for_stmt(tview(t), pos as int) == Ok::<
                (SpecStatement, int),
                SpecParseError,
            >((s@, p as int)) && pos < p <= t@.len(),
            Err(e) => sp_for_stmt(tview(t), pos as int) == Err::<
                (SpecStatement, int),
                SpecParseError,
            >(e@),
        },
    decreases t@.len() - pos, 52int,
{
    proof { reveal(sp_for_stmt); }
    let n = t.len();
    if pos + 1 < n && matches!(&t[pos + 1], Token::Identifier(_)) && pos + 2 < n && matches!(
        &t[pos + 2],
        Token::Assignment,
    ) {
        let name = match &t[pos + 1] {
            Token::Identifier(s) => s.clone(),
            _ => {
                return Err(perr_e(t, pos));
            },
        };
        let (start, p1) = match p_exp(t, pos + 3) {
            Ok(x) => x,
            Err(e) => {
                return Err(e);
            },
        };
        if !(p1 < n && matches!(&t[p1], Token::Comma)) {
            return Err(perr_e(t, p1));
        }
        let (limit, p2) = match p_exp(t, p1 + 1) {
            Ok(x) => x,
            Err(e) => {
                return Err(e);
            },
        };
        if p2 < n && matches!(&t[p2], Token::Comma) {
            let (st, p3) = match p_exp(t, p2 + 1) {
                Ok(x) => x,
                Err(e) => {
                    return Err(e);
                },
            };
            p_for_tail(t, pos, name, start, limit, Some(st), p3)
        } else {
            p_for_tail(t, pos, name, start, limit, None, p2)
        }
    } else if pos + 1 < n && matches!(&t[pos + 1], Token::Identifier(_)) {
        let (ids, p1) = match p_identlist(t, pos + 1) {
            Ok(x) => x,
            Err(e) => {
                return Err(e);
            },
        };
        if !(p1 < n && matches!(&t[p1], Token::In)) {
            return Err(perr_e(t, p1));
        }
        let (es, p2) = match p_explist(t, p1 + 1) {
            Ok(x) => x,
            Err(e) => {
                return Err(e);
            },
        };
        if !(p2 < n && matches!(&t[p2], Token::Do)) {
            return Err(perr_e(t, p2));
        }
        let (b, p3) = match p_block(t, p2 + 1) {
            Ok(x) => x,
            Err(e) => {
                return Err(e);
            },
        };
        if p3 < n && matches!(&t[p3], Token::End) {
            Ok(
                (
                    Statement::GenericFor(
                        GenericForStatement {
                            identifier_list: ids,
                            expression_list: es,
                            block: b,
                        },
                    ),
                    p3 + 1,
                ),
            )
        } else {
            Err(perr_e(t, p3))
        }
    } else {
        Err(perr_e(t, pos + 1))
    }
}

#[verifier::rlimit(100)]
#[verifier::spinoff_prover]
fn p_for_tail(
    t: &Vec<Token>,
    pos: usize,
    name: String,
    start: Expression,
    limit: Expression,
    step: Option<Expression>,
    p: usize,
) -> (r: Result<(Statement, usize), ParseError>)
    requires
        pos < p <= t@.len(),
    ensures
        match r {
            Ok((s, p2)) => sp_for_tail(
                tview(t),
                pos as int,
                name@,
                crate::ast::view_expr(start),
                crate::ast::view_expr(limit),
                match step {
                    Some(e) => Some(crate::ast::view_expr(e)),
                    None => None,
                },
                p as int,
            ) == Ok::<(SpecStatement, int), SpecParseError>((s@, p2 as int)) && pos < p2
                <= t@.len(),
            Err(e) => sp_for_tail(
                tview(t),
                pos as int,
                name@,
                crate::ast::view_expr(start),
                crate::ast::view_expr(limit),
                match step {
                    Some(e) => Some(crate::ast::view_expr(e)),
                    None => None,
                },
                p as int,
            ) == Err::<(SpecStatement, int), SpecParseError>(e@),
        },
    decreases t@.len() - p, 51int,
{
    proof { reveal(sp_for_tail); }
    let n = t.len();
    if p < n && matches!(&t[p], Token::Do) {
        match p_block(t, p + 1) {
            Ok((b, p1)) => {
                if p1 < n && matches!(&t[p1], Token::End) {
                    Ok(
                        (
                            Statement::NumericFor(
                                NumericForStatement {
                                    identifier: name,
                                    start: start,
                                    end: limit,
                                    step: step,
                                    block: b,
                                },
                            ),
                            p1 + 1,
                        ),
                    )
                } else {
                    Err(perr_e(t, p1))
                }
            },
            Err(e) => Err(e),
        }
    } else {
        Err(perr_e(t, p))
    }
}

#[verifier::rlimit(100)]
#[verifier::spinoff_prover]
fn p_exprstmt(t: &Vec<Token>, pos: usize) -> (r: Result<(Statement, usize), ParseError>)
    requires
        pos < t@.len(),
    ensures
        match r {
            Ok((s, p)) => sp_exprstmt(tview(t), pos as int) == Ok::<
                (SpecStatement, int),
                SpecParseError,
            >((s@, p as int)) && pos < p <= t@.len(),
            Err(e) => sp_exprstmt(tview(t), pos as int) == Err::<
                (SpecStatement, int),
                SpecParseError,
            >(e@),
        },
    decreases t@.len() - pos, 52int,
{
    proof { reveal(sp_exprstmt); }
    let n = t.len();
    let (e, p1) = match p_postfix(t, pos) {
        Ok(x) => x,
        Err(err) => {
            return Err(err);
        },
    };
    if p1 < n && (matches!(&t[p1], Token::Assignment) || matches!(&t[p1], Token::Comma)) {
        let v = match expr_to_var_e(e) {
            Some(v) => v,
            None => {
                return Err(ParseError { position: pos, kind: ParseErrorKind::NotAssignable });
            },
        };
        p_assign_tail(t, pos, v, p1)
    } else {
        p_call_stmt(e, pos, p1)
    }
}

#[verifier::rlimit(100)]
#[verifier::spinoff_prover]
fn p_call_stmt(e: Expression, pos: usize, p1: usize) -> (r: Result<(Statement, usize), ParseError>)
    ensures
        match r {
            Ok((s, p)) => e@ is FunctionCall && s@ == SpecStatement::FunctionCall(
                SpecFunctionCallStatement {
                    callee: e@->FunctionCall_0.callee,
                    arguments: e@->FunctionCall_0.arguments,
                },
            ) && p == p1,
            Err(err) => !(e@ is FunctionCall) && err@ == (SpecParseError {
                position: pos as int,
                kind: ParseErrorKind::NotACall,
            }),
        },
{
    match e {
        Expression::FunctionCall(c) => Ok(
            (
                Statement::FunctionCall(
                    FunctionCallStatement { callee: c.callee, arguments: c.arguments },
                ),
                p1,
            ),
        ),
        _ => Err(ParseError { position: pos, kind: ParseErrorKind::NotACall }),
    }
}

#[verifier::rlimit(100)]
#[verifier::spinoff_prover]
fn p_assign_tail(t: &Vec<Token>, pos: usize, v: Variable, p1: usize) -> (r: Result<
    (Statement, usize),
    ParseError,
>)
    requires
        pos <= t@.len(),
        p1 <= t@.len(),
    ensures
        match r {
            Ok((s, p)) => sp_assign_tail(tview(t), pos as int, v@, p1 as int) == Ok::<
                (SpecStatement, int),
                SpecParseError,
            >((s@, p as int)) && p1 < p <= t@.len(),
            Err(e) => sp_assign_tail(tview(t), pos as int, v@, p1 as int) == Err::<
                (SpecStatement, int),
                SpecParseError,
            >(e@),
        },
    decreases t@.len() - p1, 51int,
{
    proof { reveal(sp_assign_tail); }
    let n = t.len();
    let (mut vars, p2) = match p_varlist_rest(t, p1) {
        Ok(x) => x,
        Err(err) => {
            return Err(err);
        },
    };
    if p2 < n && matches!(&t[p2], Token::Assignment) {
        match p_explist(t, p2 + 1) {
            Ok((es, p3)) => {
                proof {
                    lemma_var_cons(v, vars@);
                    assert(vars@.insert(0, v) =~= seq![v] + vars@);
                }
                vars.insert(0, v);
                Ok(
                    (
                        Statement::Assignment(
                            AssignmentStatement { variable_list: vars, expression_list: es },
                        ),
                        p3,
                    ),
                )
            },
            Err(err) => Err(err),
        }
    } else {
        Err(perr_e(t, p2))
    }
}

#[verifier::rlimit(100)]
#[verifier::spinoff_prover]
fn p_varlist_rest(t: &Vec<Token>, pos: usize) -> (r: Result<(Vec<Variable>, usize), ParseError>)
    requires
        pos <= t@.len(),
    ensures
        match r {
            Ok((v, p)) => sp_varlist_rest(tview(t), pos as int) == Ok::<
                (Seq<SpecVariable>, int),
                SpecParseError,
            >((crate::ast::view_var_seq(v@), p as int)) && pos <= p <= t@.len(),
            Err(e) => sp_varlist_rest(tview(t), pos as int) == Err::<
                (Seq<SpecVariable>, int),
                SpecParseError,
            >(e@),
        },
    decreases t@.len() - pos, 50int,
{
    proof { reveal(sp_varlist_rest); }
    let n = t.len();
    if pos < n && matches!(&t[pos], Token::Comma) {
        let (e, p1) = match p_postfix(t, pos + 1) {
            Ok(x) => x,
            Err(err) => {
                return Err(err);
            },
        };
        let v = match expr_to_var_e(e) {
            Some(v) => v,
            None => {
                return Err(
                    ParseError { position: pos + 1, kind: ParseErrorKind::NotAssignable },
                );
            },
        };
        match p_varlist_rest(t, p1) {
            Ok((mut vars, p2)) => {
                proof {
                    lemma_var_cons(v, vars@);
                    assert(vars@.insert(0, v) =~= seq![v] + vars@);
                }
                vars.insert(0, v);
                Ok((vars, p2))
            },
            Err(err) => Err(err),
        }
    } else {
        proof {
            assert(crate::ast::view_var_seq(Seq::<Variable>::empty())
                =~= Seq::<SpecVariable>::empty());
        }
        Ok((Vec::new(), pos))
    }
}

#[verifier::rlimit(100)]
#[verifier::spinoff_prover]
fn p_funcname(t: &Vec<Token>, pos: usize) -> (r: Result<(Variable, usize), ParseError>)
    requires
        pos <= t@.len(),
    ensures
        match r {
            Ok((v, p)) => sp_funcname(tview(t), pos as int) == Ok::<
                (SpecVariable, int),
                SpecParseError,
            >((v@, p as int)) && pos < p <= t@.len(),
            Err(e) => sp_funcname(tview(t), pos as int) == Err::<
                (SpecVariable, int),
                SpecParseError,
            >(e@),
        },
    decreases t@.len() - pos, 14int,
{
    proof { reveal(sp_funcname); }
    if pos < t.len() && matches!(&t[pos], Token::Identifier(_)) {
        let name = match &t[pos] {
            Token::Identifier(s) => s.clone(),
            _ => {
                return Err(perr_e(t, pos));
            },
        };
        p_funcname_rest(t, Variable::Identifier(name), pos + 1)
    } else {
        Err(perr_e(t, pos))
    }
}

#[verifier::rlimit(100)]
#[verifier::spinoff_prover]
fn p_funcname_rest(t: &Vec<Token>, v: Variable, pos: usize) -> (r: Result<
    (Variable, usize),
    ParseError,
>)
    requires
        pos <= t@.len(),
    ensures
        match r {
            Ok((v2, p)) => sp_funcname_rest(tview(t), v@, pos as int) == Ok::<
                (SpecVariable, int),
                SpecParseError,
            >((v2@, p as int)) && pos <= p <= t@.len(),
            Err(e) => sp_funcname_rest(tview(t), v@, pos as int) == Err::<
                (SpecVariable, int),
                SpecParseError,
            >(e@),
        },
    decreases t@.len() - pos, 13int,
{
    proof { reveal(sp_funcname_rest); }
    let n = t.len();
    if pos < n && pos + 1 < n && matches!(&t[pos], Token::Period) && matches!(
        &t[pos + 1],
        Token::Identifier(_),
    ) {
        let m = match &t[pos + 1] {
            Token::Identifier(s) => s.clone(),
            _ => {
                return Err(perr_e(t, pos));
            },
        };
        p_funcname_rest(
            t,
            Variable::TableMember(
                TableMember { base: Box::new(Expression::Variable(v)), member: m },
            ),
            pos + 2,
        )
    } else if pos < n && pos + 1 < n && matches!(&t[pos], Token::Colon) && matches!(
        &t[pos + 1],
        Token::Identifier(_),
    ) {
        let m = match &t[pos + 1] {
            Token::Identifier(s) => s.clone(),
            _ => {
                return Err(perr_e(t, pos));
            },
        };
        Ok(
            (
                Variable::TableMethod(
                    TableMethod { base: Box::new(Expression::Variable(v)), method: m },
                ),
                pos + 2,
            ),
        )
    } else {
        Ok((v, pos))
    }
}

#[verifier::rlimit(100)]
#[verifier::spinoff_prover]
fn p_funcbody(t: &Vec<Token>, pos: usize) -> (r: Result<
    (Vec<Parameter>, Block, usize),
    ParseError,
>)
    requires
        pos <= t@.len(),
    ensures
        match r {
            Ok((ps, b, p)) => sp_funcbody(tview(t), pos as int) == Ok::<
                ((Seq<SpecParameter>, SpecBlock), int),
                SpecParseError,
            >(((crate::ast::view_param_seq(ps@), b@), p as int)) && pos < p <= t@.len(),
            Err(e) => sp_funcbody(tview(t), pos as int) == Err::<
                ((Seq<SpecParameter>, SpecBlock), int),
                SpecParseError,
            >(e@),
        },
    decreases t@.len() - pos, 16int,
{
    proof { reveal(sp_funcbody); }
    let n = t.len();
    if pos < n && matches!(&t[pos], Token::LeftParen) {
        let (ps, p1) = match p_params(t, pos + 1) {
            Ok(x) => x,
            Err(e) => {
                return Err(e);
            },
        };
        if p1 < n && matches!(&t[p1], Token::RightParen) {
            let (b, p2) = match p_block(t, p1 + 1) {
                Ok(x) => x,
                Err(e) => {
                    return Err(e);
                },
            };
            if p2 < n && matches!(&t[p2], Token::End) {
                Ok((ps, b, p2 + 1))
            } else {
                Err(perr_e(t, p2))
            }
        } else {
            Err(perr_e(t, p1))
        }
    } else {
        Err(perr_e(t, pos))
    }
}

#[verifier::rlimit(100)]
#[verifier::spinoff_prover]
fn p_params(t: &Vec<Token>, pos: usize) -> (r: Result<(Vec<Parameter>, usize), ParseError>)
    requires
        pos <= t@.len(),
    ensures
        match r {
            Ok((v, p)) => sp_params(tview(t), pos as int) == Ok::<
                (Seq<SpecParameter>, int),
                SpecParseError,
            >((crate::ast::view_param_seq(v@), p as int)) && pos <= p <= t@.len(),
            Err(e) => sp_params(tview(t), pos as int) == Err::<
                (Seq<SpecParameter>, int),
                SpecParseError,
            >(e@),
        },
    decreases t@.len() - pos, 11int,
{
    proof { reveal(sp_params); }
    let n = t.len();
    if pos < n && matches!(&t[pos], Token::RightParen) {
        proof {
            assert(crate::ast::view_param_seq(Seq::<Parameter>::empty())
                =~= Seq::<SpecParameter>::empty());
        }
        Ok((Vec::new(), pos))
    } else if pos < n && matches!(&t[pos], Token::TriplePeriod) {
        let mut v: Vec<Parameter> = Vec::new();
        v.push(Parameter::VariableArg);
        proof {
            assert(crate::ast::view_param_seq(v@) =~= seq![SpecParameter::VariableArg]);
        }
        Ok((v, pos + 1))
    } else if pos < n && matches!(&t[pos], Token::Identifier(_)) {
        let name = match &t[pos] {
            Token::Identifier(s) => s.clone(),
            _ => {
                return Err(perr_e(t, pos));
            },
        };
        let prm = Parameter::Identifier(name);
        if pos + 1 < n && matches!(&t[pos + 1], Token::Comma) {
            match p_params(t, pos + 2) {
                Ok((mut rest, p2)) => {
                    if rest.len() == 0 {
                        Err(perr_e(t, pos + 2))
                    } else {
                        proof {
                            assert(rest@.insert(0, prm) =~= seq![prm] + rest@);
                            assert(crate::ast::view_param_seq(seq![prm] + rest@)
                                =~= seq![crate::ast::view_param(prm)]
                                + crate::ast::view_param_seq(rest@));
                        }
                        rest.insert(0, prm);
                        Ok((rest, p2))
                    }
                },
                Err(e) => Err(e),
            }
        } else {
            let mut v: Vec<Parameter> = Vec::new();
            v.push(prm);
            proof {
                assert(crate::ast::view_param_seq(v@) =~= seq![crate::ast::view_param(prm)]);
            }
            Ok((v, pos + 1))
        }
    } else {
        Err(perr_e(t, pos))
    }
}

#[verifier::rlimit(100)]
#[verifier::spinoff_prover]
fn p_identlist(t: &Vec<Token>, pos: usize) -> (r: Result<(Vec<String>, usize), ParseError>)
    requires
        pos <= t@.len(),
    ensures
        match r {
            Ok((v, p)) => sp_identlist(tview(t), pos as int) == Ok::<
                (Seq<Seq<char>>, int),
                SpecParseError,
            >((crate::ast::view_ident_seq(v@), p as int)) && pos < p <= t@.len(),
            Err(e) => sp_identlist(tview(t), pos as int) == Err::<
                (Seq<Seq<char>>, int),
                SpecParseError,
            >(e@),
        },
    decreases t@.len() - pos, 10int,
{
    proof { reveal(sp_identlist); }
    let n = t.len();
    if pos < n && matches!(&t[pos], Token::Identifier(_)) {
        let name = match &t[pos] {
            Token::Identifier(s) => s.clone(),
            _ => {
                return Err(perr_e(t, pos));
            },
        };
        if pos + 1 < n && matches!(&t[pos + 1], Token::Comma) {
            match p_identlist(t, pos + 2) {
                Ok((mut rest, p)) => {
                    proof {
                        assert(rest@.insert(0, name) =~= seq![name] + rest@);
                        assert(crate::ast::view_ident_seq(seq![name] + rest@) =~= seq![name@]
                            + crate::ast::view_ident_seq(rest@));
                    }
                    rest.insert(0, name);
                    Ok((rest, p))
                },
                Err(e) => Err(e),
            }
        } else {
            let mut v: Vec<String> = Vec::new();
            let ghost gname = name@;
            v.push(name);
            proof {
                assert(crate::ast::view_ident_seq(v@) =~= seq![gname]);
            }
            Ok((v, pos + 1))
        }
    } else {
        Err(perr_e(t, pos))
    }
}

#[verifier::rlimit(100)]
#[verifier::spinoff_prover]
fn p_explist(t: &Vec<Token>, pos: usize) -> (r: Result<(Vec<Expression>, usize), ParseError>)
    requires
        pos <= t@.len(),
    ensures
        match r {
            Ok((v, p)) => sp_explist(tview(t), pos as int) == Ok::<
                (Seq<SpecExpression>, int),
                SpecParseError,
            >((crate::ast::view_expr_seq(v@), p as int)) && pos <= p <= t@.len(),
            Err(e) => sp_explist(tview(t), pos as int) == Err::<
                (Seq<SpecExpression>, int),
                SpecParseError,
            >(e@),
        },
    decreases t@.len() - pos, 42int,
{
    proof { reveal(sp_explist); }
    let n = t.len();
    let (e, p) = match p_exp(t, pos) {
        Ok(x) => x,
        Err(err) => {
            return Err(err);
        },
    };
    if p < n && matches!(&t[p], Token::Comma) {
        match p_explist(t, p + 1) {
            Ok((mut rest, p2)) => {
                proof {
                    lemma_expr_cons(e, rest@);
                    assert(rest@.insert(0, e) =~= seq![e] + rest@);
                }
                rest.insert(0, e);
                Ok((rest, p2))
            },
            Err(err) => Err(err),
        }
    } else {
        let ghost ge = crate::ast::view_expr(e);
        let mut v: Vec<Expression> = Vec::new();
        v.push(e);
        proof {
            reveal_with_fuel(crate::ast::view_expr_seq, 2);
            assert(v@.drop_first() =~= Seq::<Expression>::empty());
            assert(crate::ast::view_expr_seq(v@) =~= seq![ge]);
        }
        Ok((v, p))
    }
}

#[verifier::rlimit(100)]
#[verifier::spinoff_prover]
fn p_exp(t: &Vec<Token>, pos: usize) -> (r: Result<(Expression, usize), ParseError>)
    requires
        pos <= t@.len(),
    ensures
        match r {
            Ok((e, p)) => sp_exp(tview(t), pos as int) == Ok::<
                (SpecExpression, int),
                SpecParseError,
            >((e@, p as int)) && pos <= p <= t@.len(),
            Err(e) => sp_exp(tview(t), pos as int) == Err::<(SpecExpression, int), SpecParseError>(
                e@,
            ),
        },
    decreases t@.len() - pos, 41int,
{
    proof { reveal(sp_exp); }
    p_or(t, pos)
}

#[verifier::rlimit(100)]
#[verifier::spinoff_prover]
fn p_or(t: &Vec<Token>, pos: usize) -> (r: Result<(Expression, usize), ParseError>)
    requires
        pos <= t@.len(),
    ensures
        match r {
            Ok((e, p)) => sp_or(tview(t), pos as int) == Ok::<
                (SpecExpression, int),
                SpecParseError,
            >((e@, p as int)) && pos <= p <= t@.len(),
            Err(e) => sp_or(tview(t), pos as int) == Err::<(SpecExpression, int), SpecParseError>(
                e@,
            ),
        },
    decreases t@.len() - pos, 40int,
{
    proof { reveal(sp_or); }
    match p_and(t, pos) {
        Ok((l, p)) => p_or_rest(t, l, p),
        Err(e) => Err(e),
    }
}

#[verifier::rlimit(100)]
#[verifier::spinoff_prover]
fn p_or_rest(t: &Vec<Token>, l: Expression, pos: usize) -> (r: Result<
    (Expression, usize),
    ParseError,
>)
    requires
        pos <= t@.len(),
    ensures
        match r {
            Ok((e, p)) => sp_or_rest(tview(t), l@, pos as int) == Ok::<
                (SpecExpression, int),
                SpecParseError,
            >((e@, p as int)) && pos <= p <= t@.len(),
            Err(e) => sp_or_rest(tview(t), l@, pos as int) == Err::<
                (SpecExpression, int),
                SpecParseError,
            >(e@),
        },
    decreases t@.len() - pos, 39int,
{
    proof { reveal(sp_or_rest); }
    if pos < t.len() && matches!(&t[pos], Token::Or) {
        match p_and(t, pos + 1) {
            Ok((rhs, p)) => p_or_rest(t, Expression::Or(Box::new(l), Box::new(rhs)), p),
            Err(e) => Err(e),
        }
    } else {
        Ok((l, pos))
    }
}

#[verifier::rlimit(100)]
#[verifier::spinoff_prover]
fn p_and(t: &Vec<Token>, pos: usize) -> (r: Result<(Expression, usize), ParseError>)
    requires
        pos <= t@.len(),
    ensures
        match r {
            Ok((e, p)) => sp_and(tview(t), pos as int) == Ok::<
                (SpecExpression, int),
                SpecParseError,
            >((e@, p as int)) && pos <= p <= t@.len(),
            Err(e) => sp_and(tview(t), pos as int) == Err::<(SpecExpression, int), SpecParseError>(
                e@,
            ),
        },
    decreases t@.len() - pos, 38int,
{
    proof { reveal(sp_and); }
    match p_cmp(t, pos) {
        Ok((l, p)) => p_and_rest(t, l, p),
        Err(e) => Err(e),
    }
}

#[verifier::rlimit(100)]
#[verifier::spinoff_prover]
fn p_and_rest(t: &Vec<Token>, l: Expression, pos: usize) -> (r: Result<
    (Expression, usize),
    ParseError,
>)
    requires
        pos <= t@.len(),
    ensures
        match r {
            Ok((e, p)) => sp_and_rest(tview(t), l@, pos as int) == Ok::<
                (SpecExpression, int),
                SpecParseError,
            >((e@, p as int)) && pos <= p <= t@.len(),
            Err(e) => sp_and_rest(tview(t), l@, pos as int) == Err::<
                (SpecExpression, int),
                SpecParseError,
            >(e@),
        },
    decreases t@.len() - pos, 37int,
{
    proof { reveal(sp_and_rest); }
    if pos < t.len() && matches!(&t[pos], Token::And) {
        match p_cmp(t, pos + 1) {
            Ok((rhs, p)) => p_and_rest(t, Expression::And(Box::new(l), Box::new(rhs)), p),
            Err(e) => Err(e),
        }
    } else {
        Ok((l, pos))
    }
}

#[verifier::rlimit(100)]
#[verifier::spinoff_prover]
fn p_cmp(t: &Vec<Token>, pos: usize) -> (r: Result<(Expression, usize), ParseError>)
    requires
        pos <= t@.len(),
    ensures
        match r {
            Ok((e, p)) => sp_cmp(tview(t), pos as int) == Ok::<
                (SpecExpression, int),
                SpecParseError,
            >((e@, p as int)) && pos <= p <= t@.len(),
            Err(e) => sp_cmp(tview(t), pos as int) == Err::<(SpecExpression, int), SpecParseError>(
                e@,
            ),
        },
    decreases t@.len() - pos, 36int,
{
    proof { reveal(sp_cmp); }
    match p_concat(t, pos) {
        Ok((l, p)) => p_cmp_rest(t, l, p),
        Err(e) => Err(e),
    }
}

#[verifier::rlimit(100)]
#[verifier::spinoff_prover]
fn p_cmp_rest(t: &Vec<Token>, l: Expression, pos: usize) -> (r: Result<
    (Expression, usize),
    ParseError,
>)
    requires
        pos <= t@.len(),
    ensures
        match r {
            Ok((e, p)) => sp_cmp_rest(tview(t), l@, pos as int) == Ok::<
                (SpecExpression, int),
                SpecParseError,
            >((e@, p as int)) && pos <= p <= t@.len(),
            Err(e) => sp_cmp_rest(tview(t), l@, pos as int) == Err::<
                (SpecExpression, int),
                SpecParseError,
            >(e@),
        },
    decreases t@.len() - pos, 35int,
{
    proof { reveal(sp_cmp_rest); }
    if pos < t.len() && matches!(
        &t[pos],
        Token::Equal | Token::NotEq | Token::LessThan | Token::GreaterThan
            | Token::LessThanOrEqual | Token::GreaterThanOrEqual,
    ) {
        let op_eq = matches!(&t[pos], Token::Equal);
        let op_ne = matches!(&t[pos], Token::NotEq);
        let op_lt = matches!(&t[pos], Token::LessThan);
        let op_gt = matches!(&t[pos], Token::GreaterThan);
        let op_le = matches!(&t[pos], Token::LessThanOrEqual);
        match p_concat(t, pos + 1) {
            Ok((rhs, p)) => {
                let e = if op_eq {
                    Expression::Equal(Box::new(l), Box::new(rhs))
                } else if op_ne {
                    Expression::NotEqual(Box::new(l), Box::new(rhs))
                } else if op_lt {
                    Expression::LessThan(Box::new(l), Box::new(rhs))
                } else if op_gt {
                    Expression::GreaterThan(Box::new(l), Box::new(rhs))
                } else if op_le {
                    Expression::LessThanOrEqual(Box::new(l), Box::new(rhs))
                } else {
                    Expression::GreaterThanOrEqual(Box::new(l), Box::new(rhs))
                };
                p_cmp_rest(t, e, p)
            },
            Err(e) => Err(e),
        }
    } else {
        Ok((l, pos))
    }
}

#[verifier::rlimit(100)]
#[verifier::spinoff_prover]
fn p_concat(t: &Vec<Token>, pos: usize) -> (r: Result<(Expression, usize), ParseError>)
    requires
        pos <= t@.len(),
    ensures
        match r {
            Ok((e, p)) => sp_concat(tview(t), pos as int) == Ok::<
                (SpecExpression, int),
                SpecParseError,
            >((e@, p as int)) && pos <= p <= t@.len(),
            Err(e) => sp_concat(tview(t), pos as int) == Err::<
                (SpecExpression, int),
                SpecParseError,
            >(e@),
        },
    decreases t@.len() - pos, 34int,
{
    proof { reveal(sp_concat); }
    let (l, p) = match p_add(t, pos) {
        Ok(x) => x,
        Err(e) => {
            return Err(e);
        },
    };
    if p < t.len() && matches!(&t[p], Token::DoublePeriod) {
        match p_concat(t, p + 1) {
            Ok((rhs, p2)) => Ok(
                (Expression::Concatenation(Box::new(l), Box::new(rhs)), p2),
            ),
            Err(e) => Err(e),
        }
    } else {
        Ok((l, p))
    }
}

#[verifier::rlimit(100)]
#[verifier::spinoff_prover]
fn p_add(t: &Vec<Token>, pos: usize) -> (r: Result<(Expression, usize), ParseError>)
    requires
        pos <= t@.len(),
    ensures
        match r {
            Ok((e, p)) => sp_add(tview(t), pos as int) == Ok::<
                (SpecExpression, int),
                SpecParseError,
            >((e@, p as int)) && pos <= p <= t@.len(),
            Err(e) => sp_add(tview(t), pos as int) == Err::<(SpecExpression, int), SpecParseError>(
                e@,
            ),
        },
    decreases t@.len() - pos, 32int,
{
    proof { reveal(sp_add); }
    match p_mul(t, pos) {
        Ok((l, p)) => p_add_rest(t, l, p),
        Err(e) => Err(e),
    }
}

#[verifier::rlimit(100)]
#[verifier::spinoff_prover]
fn p_add_rest(t: &Vec<Token>, l: Expression, pos: usize) -> (r: Result<
    (Expression, usize),
    ParseError,
>)
    requires
        pos <= t@.len(),
    ensures
        match r {
            Ok((e, p)) => sp_add_rest(tview(t), l@, pos as int) == Ok::<
                (SpecExpression, int),
                SpecParseError,
            >((e@, p as int)) && pos <= p <= t@.len(),
            Err(e) => sp_add_rest(tview(t), l@, pos as int) == Err::<
                (SpecExpression, int),
                SpecParseError,
            >(e@),
        },
    decreases t@.len() - pos, 31int,
{
    proof { reveal(sp_add_rest); }
    if pos < t.len() && (matches!(&t[pos], Token::Plus) || matches!(&t[pos], Token::Minus)) {
        let is_plus = matches!(&t[pos], Token::Plus);
        match p_mul(t, pos + 1) {
            Ok((rhs, p)) => {
                let e = if is_plus {
                    Expression::Addition(Box::new(l), Box::new(rhs))
                } else {
                    Expression::Subtraction(Box::new(l), Box::new(rhs))
                };
                p_add_rest(t, e, p)
            },
            Err(e) => Err(e),
        }
    } else {
        Ok((l, pos))
    }
}

#[verifier::rlimit(100)]
#[verifier::spinoff_prover]
fn p_mul(t: &Vec<Token>, pos: usize) -> (r: Result<(Expression, usize), ParseError>)
    requires
        pos <= t@.len(),
    ensures
        match r {
            Ok((e, p)) => sp_mul(tview(t), pos as int) == Ok::<
                (SpecExpression, int),
                SpecParseError,
            >((e@, p as int)) && pos <= p <= t@.len(),
            Err(e) => sp_mul(tview(t), pos as int) == Err::<(SpecExpression, int), SpecParseError>(
                e@,
            ),
        },
    decreases t@.len() - pos, 30int,
{
    proof { reveal(sp_mul); }
    match p_unary(t, pos) {
        Ok((l, p)) => p_mul_rest(t, l, p),
        Err(e) => Err(e),
    }
}

#[verifier::rlimit(100)]
#[verifier::spinoff_prover]
fn p_mul_rest(t: &Vec<Token>, l: Expression, pos: usize) -> (r: Result<
    (Expression, usize),
    ParseError,
>)
    requires
        pos <= t@.len(),
    ensures
        match r {
            Ok((e, p)) => sp_mul_rest(tview(t), l@, pos as int) == Ok::<
                (SpecExpression, int),
                SpecParseError,
            >((e@, p as int)) && pos <= p <= t@.len(),
            Err(e) => sp_mul_rest(tview(t), l@, pos as int) == Err::<
                (SpecExpression, int),
                SpecParseError,
            >(e@),
        },
    decreases t@.len() - pos, 29int,
{
    proof { reveal(sp_mul_rest); }
    if pos < t.len() && (matches!(&t[pos], Token::Multiply) || matches!(&t[pos], Token::Divide)
        || matches!(&t[pos], Token::Modulo)) {
        let is_mul = matches!(&t[pos], Token::Multiply);
        let is_div = matches!(&t[pos], Token::Divide);
        match p_unary(t, pos + 1) {
            Ok((rhs, p)) => {
                let e = if is_mul {
                    Expression::Multiplication(Box::new(l), Box::new(rhs))
                } else if is_div {
                    Expression::Division(Box::new(l), Box::new(rhs))
                } else {
                    Expression::Modulo(Box::new(l), Box::new(rhs))
                };
                p_mul_rest(t, e, p)
            },
            Err(e) => Err(e),
        }
    } else {
        Ok((l, pos))
    }
}

#[verifier::rlimit(100)]
#[verifier::spinoff_prover]
fn p_unary(t: &Vec<Token>, pos: usize) -> (r: Result<(Expression, usize), ParseError>)
    requires
        pos <= t@.len(),
    ensures
        match r {
            Ok((e, p)) => sp_unary(tview(t), pos as int) == Ok::<
                (SpecExpression, int),
                SpecParseError,
            >((e@, p as int)) && pos <= p <= t@.len(),
            Err(e) => sp_unary(tview(t), pos as int) == Err::<
                (SpecExpression, int),
                SpecParseError,
            >(e@),
        },
    decreases t@.len() - pos, 28int,
{
    proof { reveal(sp_unary); }
    if pos < t.len() && (matches!(&t[pos], Token::Minus) || matches!(&t[pos], Token::Not)
        || matches!(&t[pos], Token::Tilde) || matches!(&t[pos], Token::Length)) {
        let is_minus = matches!(&t[pos], Token::Minus);
        let is_len = matches!(&t[pos], Token::Length);
        match p_unary(t, pos + 1) {
            Ok((rhs, p)) => {
                let e = if is_minus {
                    Expression::Negative(Box::new(rhs))
                } else if is_len {
                    Expression::Length(Box::new(rhs))
                } else {
                    Expression::Not(Box::new(rhs))
                };
                Ok((e, p))
            },
            Err(e) => Err(e),
        }
    } else {
        p_pow(t, pos)
    }
}

#[verifier::rlimit(100)]
#[verifier::spinoff_prover]
fn p_pow(t: &Vec<Token>, pos: usize) -> (r: Result<(Expression, usize), ParseError>)
    requires
        pos <= t@.len(),
    ensures
        match r {
            Ok((e, p)) => sp_pow(tview(t), pos as int) == Ok::<
                (SpecExpression, int),
                SpecParseError,
            >((e@, p as int)) && pos <= p <= t@.len(),
            Err(e) => sp_pow(tview(t), pos as int) == Err::<(SpecExpression, int), SpecParseError>(
                e@,
            ),
        },
    decreases t@.len() - pos, 26int,
{
    proof { reveal(sp_pow); }
    let (b, p) = match p_postfix(t, pos) {
        Ok(x) => x,
        Err(e) => {
            return Err(e);
        },
    };
    if p < t.len() && matches!(&t[p], Token::Xor) {
        match p_unary(t, p + 1) {
            Ok((rhs, p2)) => Ok((Expression::Exponentiation(Box::new(b), Box::new(rhs)), p2)),
            Err(e) => Err(e),
        }
    } else {
        Ok((b, p))
    }
}

#[verifier::rlimit(100)]
#[verifier::spinoff_prover]
fn p_postfix(t: &Vec<Token>, pos: usize) -> (r: Result<(Expression, usize), ParseError>)
    requires
        pos <= t@.len(),
    ensures
        match r {
            Ok((e, p)) => sp_postfix(tview(t), pos as int) == Ok::<
                (SpecExpression, int),
                SpecParseError,
            >((e@, p as int)) && pos < p <= t@.len(),
            Err(e) => sp_postfix(tview(t), pos as int) == Err::<
                (SpecExpression, int),
                SpecParseError,
            >(e@),
        },
    decreases t@.len() - pos, 24int,
{
    proof { reveal(sp_postfix); }
    match p_atom(t, pos) {
        Ok((a, p)) => p_suffixes(t, a, p),
        Err(e) => Err(e),
    }
}

#[verifier::rlimit(100)]
#[verifier::spinoff_prover]
fn p_suffixes(t: &Vec<Token>, e: Expression, pos: usize) -> (r: Result<
    (Expression, usize),
    ParseError,
>)
    requires
        pos <= t@.len(),
    ensures
        match r {
            Ok((e2, p)) => sp_suffixes(tview(t), e@, pos as int) == Ok::<
                (SpecExpression, int),
                SpecParseError,
            >((e2@, p as int)) && pos <= p <= t@.len(),
            Err(err) => sp_suffixes(tview(t), e@, pos as int) == Err::<
                (SpecExpression, int),
                SpecParseError,
            >(err@),
        },
    decreases t@.len() - pos, 23int,
{
    proof {
        reveal(sp_suffixes);
        reveal_with_fuel(crate::ast::view_expr, 3);
    }
    let n = t.len();
    if pos >= n {
        return Ok((e, pos));
    }
    match &t[pos] {
        Token::LeftSquareBracket => {
            let (ix, p1) = match p_exp(t, pos + 1) {
                Ok(x) => x,
                Err(err) => {
                    return Err(err);
                },
            };
            if p1 < n && matches!(&t[p1], Token::RightSquareBracket) {
                p_suffixes(
                    t,
                    Expression::Variable(
                        Variable::TableIndex(
                            TableIndex { base: Box::new(e), index: Box::new(ix) },
                        ),
                    ),
                    p1 + 1,
                )
            } else {
                Err(perr_e(t, p1))
            }
        },
        Token::Period => {
            if pos + 1 < n && matches!(&t[pos + 1], Token::Identifier(_)) {
                let m = match &t[pos + 1] {
                    Token::Identifier(s) => s.clone(),
                    _ => {
                        return Err(perr_e(t, pos));
                    },
                };
                p_suffixes(
                    t,
                    Expression::Variable(
                        Variable::TableMember(TableMember { base: Box::new(e), member: m }),
                    ),
                    pos + 2,
                )
            } else {
                Err(perr_e(t, pos + 1))
            }
        },
        Token::Colon => {
            if pos + 1 < n && matches!(&t[pos + 1], Token::Identifier(_)) {
                let m = match &t[pos + 1] {
                    Token::Identifier(s) => s.clone(),
                    _ => {
                        return Err(perr_e(t, pos));
                    },
                };
                match p_args(t, pos + 2) {
                    Ok((args, p2)) => {
                        p_suffixes(
                            t,
                            Expression::FunctionCall(
                                FunctionCallExpression {
                                    callee: Box::new(
                                        Expression::Variable(
                                            Variable::TableMethod(
                                                TableMethod { base: Box::new(e), method: m },
                                            ),
                                        ),
                                    ),
                                    arguments: args,
                                },
                            ),
                            p2,
                        )
                    },
                    Err(err) => Err(err),
                }
            } else {
                Ok((e, pos))
            }
        },
        Token::LeftParen => {
            match p_args(t, pos) {
                Ok((args, p1)) => {
                    p_suffixes(
                        t,
                        Expression::FunctionCall(
                            FunctionCallExpression { callee: Box::new(e), arguments: args },
                        ),
                        p1,
                    )
                },
                Err(err) => Err(err),
            }
        },
        Token::LeftBracket => {
            match p_table(t, pos) {
                Ok((tc, p1)) => {
                    let mut args: Vec<Expression> = Vec::new();
                    let ghost gtc = crate::ast::view_expr(tc);
                    args.push(tc);
                    proof {
                        reveal_with_fuel(crate::ast::view_expr_seq, 2);
                        assert(crate::ast::view_expr_seq(args@) =~= seq![gtc]);
                    }
                    p_suffixes(
                        t,
                        Expression::FunctionCall(
                            FunctionCallExpression { callee: Box::new(e), arguments: args },
                        ),
                        p1,
                    )
                },
                Err(err) => Err(err),
            }
        },
        Token::String(s) => {
            let lit = Expression::LiteralString(s.clone());
            let mut args: Vec<Expression> = Vec::new();
            let ghost glit = crate::ast::view_expr(lit);
            args.push(lit);
            proof {
                reveal_with_fuel(crate::ast::view_expr_seq, 2);
                assert(crate::ast::view_expr_seq(args@) =~= seq![glit]);
            }
            p_suffixes(
                t,
                Expression::FunctionCall(
                    FunctionCallExpression { callee: Box::new(e), arguments: args },
                ),
                pos + 1,
            )
        },
        _ => Ok((e, pos)),
    }
}

#[verifier::rlimit(100)]
#[verifier::spinoff_prover]
fn p_args(t: &Vec<Token>, pos: usize) -> (r: Result<(Vec<Expression>, usize), ParseError>)
    requires
        pos <= t@.len(),
    ensures
        match r {
            Ok((v, p)) => sp_args(tview(t), pos as int) == Ok::<
                (Seq<SpecExpression>, int),
                SpecParseError,
            >((crate::ast::view_expr_seq(v@), p as int)) && pos < p <= t@.len(),
            Err(e) => sp_args(tview(t), pos as int) == Err::<
                (Seq<SpecExpression>, int),
                SpecParseError,
            >(e@),
        },
    decreases t@.len() - pos, 20int,
{
    proof { reveal(sp_args); }
    let n = t.len();
    if pos >= n {
        return Err(perr_e(t, pos));
    }
    match &t[pos] {
        Token::LeftParen => {
            if pos + 1 < n && matches!(&t[pos + 1], Token::RightParen) {
                proof {
                    assert(crate::ast::view_expr_seq(Seq::<Expression>::empty())
                        =~= Seq::<SpecExpression>::empty());
                }
                Ok((Vec::new(), pos + 2))
            } else {
                match p_explist(t, pos + 1) {
                    Ok((es, p1)) => {
                        if p1 < n && matches!(&t[p1], Token::RightParen) {
                            Ok((es, p1 + 1))
                        } else {
                            Err(perr_e(t, p1))
                        }
                    },
                    Err(e) => Err(e),
                }
            }
        },
        Token::LeftBracket => {
            match p_table(t, pos) {
                Ok((tc, p1)) => {
                    let mut v: Vec<Expression> = Vec::new();
                    let ghost gtc = crate::ast::view_expr(tc);
                    v.push(tc);
                    proof {
                        reveal_with_fuel(crate::ast::view_expr_seq, 2);
                        assert(crate::ast::view_expr_seq(v@) =~= seq![gtc]);
                    }
                    Ok((v, p1))
                },
                Err(e) => Err(e),
            }
        },
        Token::String(s) => {
            let lit = Expression::LiteralString(s.clone());
            let mut v: Vec<Expression> = Vec::new();
            let ghost glit = crate::ast::view_expr(lit);
            v.push(lit);
            proof {
                reveal_with_fuel(crate::ast::view_expr_seq, 2);
                assert(crate::ast::view_expr_seq(v@) =~= seq![glit]);
            }
            Ok((v, pos + 1))
        },
        _ => Err(perr_e(t, pos)),
    }
}

#[verifier::rlimit(100)]
#[verifier::spinoff_prover]
fn p_atom(t: &Vec<Token>, pos: usize) -> (r: Result<(Expression, usize), ParseError>)
    requires
        pos <= t@.len(),
    ensures
        match r {
            Ok((e, p)) => sp_atom(tview(t), pos as int) == Ok::<
                (SpecExpression, int),
                SpecParseError,
            >((e@, p as int)) && pos < p <= t@.len(),
            Err(e) => sp_atom(tview(t), pos as int) == Err::<
                (SpecExpression, int),
                SpecParseError,
            >(e@),
        },
    decreases t@.len() - pos, 22int,
{
    proof {
        reveal(sp_atom);
        reveal_with_fuel(crate::ast::view_expr, 2);
    }
    let n = t.len();
    if pos >= n {
        return Err(perr_e(t, pos));
    }
    match &t[pos] {
        Token::Number(x) => Ok((Expression::LiteralNumber(*x), pos + 1)),
        Token::String(s) => Ok((Expression::LiteralString(s.clone()), pos + 1)),
        Token::True => Ok((Expression::True, pos + 1)),
        Token::False => Ok((Expression::False, pos + 1)),
        Token::Nil => Ok((Expression::Nil, pos + 1)),
        Token::TriplePeriod => Ok((Expression::VariableArgument, pos + 1)),
        Token::Identifier(s) => Ok(
            (Expression::Variable(Variable::Identifier(s.clone())), pos + 1),
        ),
        Token::LeftBracket => p_table(t, pos),
        Token::Function => {
            match p_funcbody(t, pos + 1) {
                Ok((ps, b, p)) => Ok(
                    (
                        Expression::AnonFunctionDefinition(
                            AnonFunctionExpression { parameter_list: ps, block: b },
                        ),
                        p,
                    ),
                ),
                Err(e) => Err(e),
            }
        },
        Token::LeftParen => {
            match p_exp(t, pos + 1) {
                Ok((e, p1)) => {
                    if p1 < n && matches!(&t[p1], Token::RightParen) {
                        Ok((Expression::Parenthesized(Box::new(e)), p1 + 1))
                    } else {
                        Err(perr_e(t, p1))
                    }
                },
                Err(e) => Err(e),
            }
        },
        _ => Err(perr_e(t, pos)),
    }
}

#[verifier::rlimit(100)]
#[verifier::spinoff_prover]
fn p_table(t: &Vec<Token>, pos: usize) -> (r: Result<(Expression, usize), ParseError>)
    requires
        pos <= t@.len(),
    ensures
        match r {
            Ok((e, p)) => sp_table(tview(t), pos as int) == Ok::<
                (SpecExpression, int),
                SpecParseError,
            >((e@, p as int)) && pos < p <= t@.len(),
            Err(e) => sp_table(tview(t), pos as int) == Err::<
                (SpecExpression, int),
                SpecParseError,
            >(e@),
        },
    decreases t@.len() - pos, 12int,
{
    proof { reveal(sp_table); }
    let n = t.len();
    if pos < n && matches!(&t[pos], Token::LeftBracket) {
        match p_fields(t, pos + 1) {
            Ok((fs, p1)) => {
                if p1 < n && matches!(&t[p1], Token::RightBracket) {
                    Ok((Expression::TableConstructor(fs), p1 + 1))
                } else {
                    Err(perr_e(t, p1))
                }
            },
            Err(e) => Err(e),
        }
    } else {
        Err(perr_e(t, pos))
    }
}

#[verifier::rlimit(100)]
#[verifier::spinoff_prover]
fn p_fields(t: &Vec<Token>, pos: usize) -> (r: Result<(Vec<TableField>, usize), ParseError>)
    requires
        pos <= t@.len(),
    ensures
        match r {
            Ok((v, p)) => sp_fields(tview(t), pos as int) == Ok::<
                (Seq<SpecTableField>, int),
                SpecParseError,
            >((crate::ast::view_field_seq(v@), p as int)) && pos <= p <= t@.len(),
            Err(e) => sp_fields(tview(t), pos as int) == Err::<
                (Seq<SpecTableField>, int),
                SpecParseError,
            >(e@),
        },
    decreases t@.len() - pos, 44int,
{
    proof { reveal(sp_fields); }
    let n = t.len();
    if pos >= n {
        return Err(perr_e(t, pos));
    }
    if matches!(&t[pos], Token::RightBracket) {
        proof {
            assert(crate::ast::view_field_seq(Seq::<TableField>::empty())
                =~= Seq::<SpecTableField>::empty());
        }
        return Ok((Vec::new(), pos));
    }
    let (f, p1) = match p_field(t, pos) {
        Ok(x) => x,
        Err(e) => {
            return Err(e);
        },
    };
    if p1 < n && (matches!(&t[p1], Token::Comma) || matches!(&t[p1], Token::Semicolon)) {
        match p_fields(t, p1 + 1) {
            Ok((mut rest, p2)) => {
                if rest.len() == 0 {
                    Err(perr_e(t, p1 + 1))
                } else {
                    proof {
                        lemma_field_cons(f, rest@);
                        assert(rest@.insert(0, f) =~= seq![f] + rest@);
                    }
                    rest.insert(0, f);
                    Ok((rest, p2))
                }
            },
            Err(e) => Err(e),
        }
    } else {
        let ghost gf = crate::ast::view_field(f);
        let mut v: Vec<TableField> = Vec::new();
        v.push(f);
        proof {
            reveal_with_fuel(crate::ast::view_field_seq, 2);
            assert(crate::ast::view_field_seq(v@) =~= seq![gf]);
        }
        Ok((v, p1))
    }
}

#[verifier::rlimit(100)]
#[verifier::spinoff_prover]
fn p_field(t: &Vec<Token>, pos: usize) -> (r: Result<(TableField, usize), ParseError>)
    requires
        pos <= t@.len(),
    ensures
        match r {
            Ok((f, p)) => sp_field(tview(t), pos as int) == Ok::<
                (SpecTableField, int),
                SpecParseError,
            >((f@, p as int)) && pos < p <= t@.len(),
            Err(e) => sp_field(tview(t), pos as int) == Err::<
                (SpecTableField, int),
                SpecParseError,
            >(e@),
        },
    decreases t@.len() - pos, 43int,
{
    proof { reveal(sp_field); }
    let n = t.len();
    if pos >= n {
        return Err(perr_e(t, pos));
    }
    if matches!(&t[pos], Token::LeftSquareBracket) {
        let (k, p1) = match p_exp(t, pos + 1) {
            Ok(x) => x,
            Err(e) => {
                return Err(e);
            },
        };
        if p1 < n && p1 + 1 < n && matches!(&t[p1], Token::RightSquareBracket) && matches!(
            &t[p1 + 1],
            Token::Assignment,
        ) {
            match p_exp(t, p1 + 2) {
                Ok((v, p2)) => Ok((TableField::IndexValue(k, v), p2)),
                Err(e) => Err(e),
            }
        } else {
            Err(perr_e(t, p1))
        }
    } else if pos + 1 < n && matches!(&t[pos], Token::Identifier(_)) && matches!(
        &t[pos + 1],
        Token::Assignment,
    ) {
        let name = match &t[pos] {
            Token::Identifier(s) => s.clone(),
            _ => {
                return Err(perr_e(t, pos));
            },
        };
        match p_exp(t, pos + 2) {
            Ok((v, p2)) => Ok((TableField::KeyValue(name, v), p2)),
            Err(e) => Err(e),
        }
    } else {
        match p_exp(t, pos) {
            Ok((v, p2)) => {
                if pos < p2 {
                    Ok((TableField::Value(v), p2))
                } else {
                    Err(perr_e(t, pos))
                }
            },
            Err(e) => Err(e),
        }
    }
}

/// Parse a chunk covering the whole token stream; exactly `sp_chunk`.
#[verifier::rlimit(100)]
#[verifier::spinoff_prover]
fn p_chunk(t: &Vec<Token>) -> (r: Result<Chunk, ParseError>)
    ensures
        match r {
            Ok(c) => sp_chunk(tview(t)) == Ok::<SpecChunk, SpecParseError>(c@),
            Err(e) => sp_chunk(tview(t)) == Err::<SpecChunk, SpecParseError>(e@),
        },
{
    match p_block(t, 0) {
        Ok((b, p)) => {
            if p == t.len() {
                Ok(Chunk { block: b })
            } else {
                Err(ParseError { position: p, kind: ParseErrorKind::TrailingInput })
            }
        },
        Err(e) => Err(e),
    }
}

/// Drop comment tokens; exactly `filter_comments` on the views.
fn drop_comments(toks: Vec<Token>) -> (r: Vec<Token>)
    ensures
        crate::lexer::view_token_seq(r@) == filter_comments(crate::lexer::view_token_seq(toks@)),
{
    let ghost gall = toks@;
    let mut out: Vec<Token> = Vec::new();
    let mut i: usize = 0;
    proof {
        assert(crate::lexer::view_token_seq(gall.take(0)).filter(|x: SpecToken| !(x is Comment))
            =~= crate::lexer::view_token_seq(out@));
        assert(gall.take(0) =~= Seq::<Token>::empty());
    }
    while i < toks.len()
        invariant
            i <= gall.len(),
            toks@ == gall,
            crate::lexer::view_token_seq(out@) == crate::lexer::view_token_seq(
                gall.take(i as int),
            ).filter(|x: SpecToken| !(x is Comment)),
        decreases gall.len() - i,
    {
        let keep = !matches!(&toks[i], Token::Comment(_));
        proof {
            reveal(Seq::filter);
            let prefix = crate::lexer::view_token_seq(gall.take(i as int));
            let next = crate::lexer::view_token_seq(gall.take(i + 1));
            assert(gall.take(i + 1) =~= gall.take(i as int).push(gall[i as int]));
            assert(next =~= prefix.push(gall[i as int]@));
            assert(prefix.push(gall[i as int]@).drop_last() =~= prefix);
        }
        if keep {
            let tok = clone_token(&toks[i]);
            out.push(tok);
            proof {
                assert(crate::lexer::view_token_seq(out@)
                    =~= crate::lexer::view_token_seq(gall.take(i as int)).filter(
                    |x: SpecToken| !(x is Comment)).push(gall[i as int]@));
            }
        }
        i += 1;
    }
    proof {
        assert(gall.take(gall.len() as int) =~= gall);
    }
    out
}

/// A token equal in view to the given one.
fn clone_token(t: &Token) -> (r: Token)
    ensures
        r@ == t@,
{
    match t {
        Token::Invalid => Token::Invalid,
        Token::And => Token::And,
        Token::Break => Token::Break,
        Token::Do => Token::Do,
        Token::Else => Token::Else,
        Token::Elseif => Token::Elseif,
        Token::End => Token::End,
        Token::False => Token::False,
        Token::For => Token::For,
        Token::Function => Token::Function,
        Token::If => Token::If,
        Token::In => Token::In,
        Token::Local => Token::Local,
        Token::Nil => Token::Nil,
        Token::Not => Token::Not,
        Token::Or => Token::Or,
        Token::Repeat => Token::Repeat,
        Token::Return => Token::Return,
        Token::Then => Token::Then,
        Token::True => Token::True,
        Token::Until => Token::Until,
        Token::While => Token::While,
        Token::Assignment => Token::Assignment,
        Token::Tilde => Token::Tilde,
        Token::Equal => Token::Equal,
        Token::NotEq => Token::NotEq,
        Token::LessThanOrEqual => Token::LessThanOrEqual,
        Token::GreaterThanOrEqual => Token::GreaterThanOrEqual,
        Token::LessThan => Token::LessThan,
        Token::GreaterThan => Token::GreaterThan,
        Token::Plus => Token::Plus,
        Token::Minus => Token::Minus,
        Token::Multiply => Token::Multiply,
        Token::Divide => Token::Divide,
        Token::Modulo => Token::Modulo,
        Token::Xor => Token::Xor,
        Token::Length => Token::Length,
        Token::LeftParen => Token::LeftParen,
        Token::RightParen => Token::RightParen,
        Token::LeftBracket => Token::LeftBracket,
        Token::RightBracket => Token::RightBracket,
        Token::LeftSquareBracket => Token::LeftSquareBracket,
        Token::RightSquareBracket => Token::RightSquareBracket,
        Token::Semicolon => Token::Semicolon,
        Token::Colon => Token::Colon,
        Token::Comma => Token::Comma,
        Token::Period => Token::Period,
        Token::DoublePeriod => Token::DoublePeriod,
        Token::TriplePeriod => Token::TriplePeriod,
        Token::Number(x) => Token::Number(*x),
        Token::Identifier(s) => Token::Identifier(s.clone()),
        Token::String(s) => Token::String(s.clone()),
        Token::Comment(s) => Token::Comment(s.clone()),
    }
}

/// Parse a source text into a chunk: tokenize, drop comments, and parse one
/// block covering the whole stream; exactly `spec_parse`.
pub fn parse(code: &str) -> (r: Result<Chunk, ParseError>)
    ensures
        match r {
            Ok(c) => spec_parse(code@) == Ok::<SpecChunk, SpecParseError>(c@),
            Err(e) => spec_parse(code@) == Err::<SpecChunk, SpecParseError>(e@),
        },
{
    let toks = match crate::lexer::tokenize(code) {
        Ok(ts) => ts,
        Err(le) => {
            let kind = match le.character {
                Some(c) => ParseErrorKind::UnrecognizedCharacter(c),
                None => ParseErrorKind::MalformedLiteral,
            };
            return Err(ParseError { position: le.position, kind });
        },
    };
    let toks = drop_comments(toks);
    p_chunk(&toks)
}

} // verus!
