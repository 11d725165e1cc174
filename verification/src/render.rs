//! The canonical textual rendering of the tree: each node renders to a
//! fixed single-line form, so that re-tokenizing and re-parsing the text
//! reproduces a structurally equal tree. `spec_render_chunk` and its
//! companions define the exact text; each `render` method returns it.

use vstd::prelude::*;

use vstd::string::StringExecFns;

use crate::ast::{
    Block, Chunk, ElseIf, Expression, LastStatement, LuaNumber, Parameter, SpecBlock, SpecChunk,
    SpecElseIf, SpecExpression, SpecLastStatement, SpecParameter, SpecStatement, SpecTableField,
    SpecVariable, Statement, TableField, Variable,
};

verus! {

// ---------------------------------------------------------------------------
// The text, mathematically.
// ---------------------------------------------------------------------------

/// The decimal digit character of `d`.
pub open spec fn digit_char(d: int) -> char {
    if d == 0 {
        '0'
    } else if d == 1 {
        '1'
    } else if d == 2 {
        '2'
    } else if d == 3 {
        '3'
    } else if d == 4 {
        '4'
    } else if d == 5 {
        '5'
    } else if d == 6 {
        '6'
    } else if d == 7 {
        '7'
    } else if d == 8 {
        '8'
    } else {
        '9'
    }
}

/// The decimal digits of `n`, most significant first.
pub open spec fn spec_digits(n: nat) -> Seq<char>
    decreases n,
{
    if n < 10 {
        seq![digit_char(n as int)]
    } else {
        spec_digits(n / 10) + seq![digit_char((n % 10) as int)]
    }
}

/// A numeric literal: sign and mantissa, then `e` and the exponent when it
/// is not zero. Re-tokenizing this form gives back the same `LuaNumber`.
pub open spec fn spec_render_number(n: LuaNumber) -> Seq<char> {
    let mant = if n.negative {
        "-"@ + spec_digits(n.mantissa as nat)
    } else {
        spec_digits(n.mantissa as nat)
    };
    if n.exponent == 0 {
        mant
    } else if n.exponent < 0 {
        mant + "e-"@ + spec_digits((-(n.exponent as int)) as nat)
    } else {
        mant + "e"@ + spec_digits(n.exponent as nat)
    }
}

pub open spec fn spec_render_chunk(c: SpecChunk) -> Seq<char> {
    spec_render_block(c.block)
}

pub open spec fn spec_render_block(b: SpecBlock) -> Seq<char>
    decreases b,
{
    spec_render_stmts_from(b.statements, 0) + " "@ + (match b.last_statement {
        Some(l) => spec_render_last(l),
        None => Seq::<char>::empty(),
    })
}

/// The statements from index `i` on, separated by newlines.
pub open spec fn spec_render_stmts_from(ss: Seq<SpecStatement>, i: int) -> Seq<char>
    decreases ss, ss.len() - i,
{
    if i < 0 || i >= ss.len() {
        Seq::<char>::empty()
    } else if i == ss.len() - 1 {
        spec_render_stmt(ss[i])
    } else {
        spec_render_stmt(ss[i]) + "\n"@ + spec_render_stmts_from(ss, i + 1)
    }
}

pub open spec fn spec_render_last(l: SpecLastStatement) -> Seq<char>
    decreases l,
{
    match l {
        SpecLastStatement::Break => "break"@,
        SpecLastStatement::Return(r) => "return "@ + spec_render_exprs_from(r.expression_list, 0),
    }
}

pub open spec fn spec_render_stmt(s: SpecStatement) -> Seq<char>
    decreases s,
{
    match s {
        SpecStatement::Semicolon => ";"@,
        SpecStatement::LocalDeclaration(d) => "local "@ + spec_render_idents_from(
            d.identifier_list,
            0,
        ) + " = "@ + spec_render_exprs_from(d.expression_list, 0),
        SpecStatement::FunctionCall(c) => spec_render_expr(*c.callee) + "("@
            + spec_render_exprs_from(c.arguments, 0) + ")"@,
        SpecStatement::Assignment(a) => spec_render_vars_from(a.variable_list, 0) + " = "@
            + spec_render_exprs_from(a.expression_list, 0),
        SpecStatement::Label(l) => "::"@ + l + "::"@,
        SpecStatement::Break => "break"@,
        SpecStatement::Goto(l) => "goto "@ + l,
        SpecStatement::Scope(b) => "do "@ + spec_render_block(b) + " end"@,
        SpecStatement::While(w) => "while "@ + spec_render_expr(w.condition) + " do "@
            + spec_render_block(w.block) + " end"@,
        SpecStatement::Repeat(r) => "repeat "@ + spec_render_block(r.block) + " until "@
            + spec_render_expr(r.condition),
        SpecStatement::If(i) => "if "@ + spec_render_expr(i.condition) + " then "@
            + spec_render_block(i.block) + " "@ + spec_render_elseifs_from(i.elseif_blocks, 0)
            + " "@ + (match i.else_block {
            Some(eb) => "else "@ + spec_render_block(eb),
            None => Seq::<char>::empty(),
        }) + " end"@,
        SpecStatement::NumericFor(f) => "for "@ + f.identifier + " = "@ + spec_render_expr(f.start)
            + ", "@ + spec_render_expr(f.end) + (match f.step {
            Some(e) => ", "@ + spec_render_expr(e),
            None => Seq::<char>::empty(),
        }) + " do "@ + spec_render_block(f.block) + " end"@,
        SpecStatement::GenericFor(f) => "for "@ + spec_render_idents_from(f.identifier_list, 0)
            + " in "@ + spec_render_exprs_from(f.expression_list, 0) + " do "@ + spec_render_block(
            f.block,
        ) + " end"@,
        SpecStatement::FunctionDefinition(f) => "function "@ + spec_render_var(f.identifier) + "("@
            + spec_render_params_from(f.parameter_list, 0) + ") "@ + spec_render_block(f.block)
            + " end"@,
        SpecStatement::LocalFunctionDefinition(f) => "local function "@ + spec_render_var(
            f.identifier,
        ) + "("@ + spec_render_params_from(f.parameter_list, 0) + ") "@ + spec_render_block(f.block)
            + " end"@,
    }
}

pub open spec fn spec_render_elseif(e: SpecElseIf) -> Seq<char>
    decreases e,
{
    "elseif "@ + spec_render_expr(e.condition) + " then "@ + spec_render_block(e.block)
}

pub open spec fn spec_render_elseifs_from(es: Seq<SpecElseIf>, i: int) -> Seq<char>
    decreases es, es.len() - i,
{
    if i < 0 || i >= es.len() {
        Seq::<char>::empty()
    } else if i == es.len() - 1 {
        spec_render_elseif(es[i])
    } else {
        spec_render_elseif(es[i]) + "\n"@ + spec_render_elseifs_from(es, i + 1)
    }
}

pub open spec fn spec_render_idents_from(ids: Seq<Seq<char>>, i: int) -> Seq<char>
    decreases ids.len() - i,
{
    if i < 0 || i >= ids.len() {
        Seq::<char>::empty()
    } else if i == ids.len() - 1 {
        ids[i]
    } else {
        ids[i] + ","@ + spec_render_idents_from(ids, i + 1)
    }
}

pub open spec fn spec_render_params_from(ps: Seq<SpecParameter>, i: int) -> Seq<char>
    decreases ps.len() - i,
{
    if i < 0 || i >= ps.len() {
        Seq::<char>::empty()
    } else if i == ps.len() - 1 {
        spec_render_param(ps[i])
    } else {
        spec_render_param(ps[i]) + ","@ + spec_render_params_from(ps, i + 1)
    }
}

pub open spec fn spec_render_param(p: SpecParameter) -> Seq<char> {
    match p {
        SpecParameter::Identifier(s) => s,
        SpecParameter::VariableArg => "..."@,
    }
}

pub open spec fn spec_render_exprs_from(es: Seq<SpecExpression>, i: int) -> Seq<char>
    decreases es, es.len() - i,
{
    if i < 0 || i >= es.len() {
        Seq::<char>::empty()
    } else if i == es.len() - 1 {
        spec_render_expr(es[i])
    } else {
        spec_render_expr(es[i]) + ","@ + spec_render_exprs_from(es, i + 1)
    }
}

pub open spec fn spec_render_vars_from(vs: Seq<SpecVariable>, i: int) -> Seq<char>
    decreases vs, vs.len() - i,
{
    if i < 0 || i >= vs.len() {
        Seq::<char>::empty()
    } else if i == vs.len() - 1 {
        spec_render_var(vs[i])
    } else {
        spec_render_var(vs[i]) + ","@ + spec_render_vars_from(vs, i + 1)
    }
}

pub open spec fn spec_render_fields_from(fs: Seq<SpecTableField>, i: int) -> Seq<char>
    decreases fs, fs.len() - i,
{
    if i < 0 || i >= fs.len() {
        Seq::<char>::empty()
    } else if i == fs.len() - 1 {
        spec_render_field(fs[i])
    } else {
        spec_render_field(fs[i]) + ","@ + spec_render_fields_from(fs, i + 1)
    }
}

pub open spec fn spec_render_field(f: SpecTableField) -> Seq<char>
    decreases f,
{
    match f {
        SpecTableField::Value(e) => spec_render_expr(e),
        SpecTableField::IndexValue(k, v) => "["@ + spec_render_expr(k) + "] = "@
            + spec_render_expr(v),
        SpecTableField::KeyValue(k, v) => k + " = "@ + spec_render_expr(v),
    }
}

pub open spec fn spec_render_var(v: SpecVariable) -> Seq<char>
    decreases v,
{
    match v {
        SpecVariable::Identifier(s) => s,
        SpecVariable::TableIndex(t) => spec_render_expr(*t.base) + "["@ + spec_render_expr(
            *t.index,
        ) + "]"@,
        SpecVariable::TableMember(t) => spec_render_expr(*t.base) + "."@ + t.member,
        SpecVariable::TableMethod(t) => spec_render_expr(*t.base) + ":"@ + t.method,
    }
}

pub open spec fn spec_render_expr(e: SpecExpression) -> Seq<char>
    decreases e,
{
    match e {
        SpecExpression::LiteralNumber(n) => spec_render_number(n),
        SpecExpression::LiteralString(s) => "\""@ + s + "\""@,
        SpecExpression::True => "true"@,
        SpecExpression::False => "false"@,
        SpecExpression::Nil => "nil"@,
        SpecExpression::TableConstructor(fs) => "{"@ + spec_render_fields_from(fs, 0) + "}"@,
        SpecExpression::FunctionCall(c) => spec_render_expr(*c.callee) + "("@
            + spec_render_exprs_from(c.arguments, 0) + ")"@,
        SpecExpression::AnonFunctionDefinition(f) => "function("@ + spec_render_params_from(
            f.parameter_list,
            0,
        ) + ") "@ + spec_render_block(f.block) + " end"@,
        SpecExpression::Variable(v) => spec_render_var(v),
        SpecExpression::VariableArgument => "..."@,
        SpecExpression::Parenthesized(a) => "("@ + spec_render_expr(*a) + ")"@,
        SpecExpression::Exponentiation(a, b) => spec_render_expr(*a) + " ^ "@ + spec_render_expr(
            *b,
        ),
        SpecExpression::Not(a) => "~"@ + spec_render_expr(*a),
        SpecExpression::Negative(a) => "-"@ + spec_render_expr(*a),
        SpecExpression::Multiplication(a, b) => spec_render_expr(*a) + " * "@ + spec_render_expr(
            *b,
        ),
        SpecExpression::Division(a, b) => spec_render_expr(*a) + " / "@ + spec_render_expr(*b),
        SpecExpression::Modulo(a, b) => spec_render_expr(*a) + " % "@ + spec_render_expr(*b),
        SpecExpression::Addition(a, b) => spec_render_expr(*a) + " + "@ + spec_render_expr(*b),
        SpecExpression::Subtraction(a, b) => spec_render_expr(*a) + " - "@ + spec_render_expr(*b),
        SpecExpression::Concatenation(a, b) => spec_render_expr(*a) + " .. "@ + spec_render_expr(
            *b,
        ),
        SpecExpression::LessThan(a, b) => spec_render_expr(*a) + " < "@ + spec_render_expr(*b),
        SpecExpression::GreaterThan(a, b) => spec_render_expr(*a) + " > "@ + spec_render_expr(*b),
        SpecExpression::LessThanOrEqual(a, b) => spec_render_expr(*a) + " <= "@ + spec_render_expr(
            *b,
        ),
        SpecExpression::GreaterThanOrEqual(a, b) => spec_render_expr(*a) + " >= "@
            + spec_render_expr(*b),
        SpecExpression::NotEqual(a, b) => spec_render_expr(*a) + " ~= "@ + spec_render_expr(*b),
        SpecExpression::Equal(a, b) => spec_render_expr(*a) + " == "@ + spec_render_expr(*b),
        SpecExpression::And(a, b) => spec_render_expr(*a) + " and "@ + spec_render_expr(*b),
        SpecExpression::Or(a, b) => spec_render_expr(*a) + " or "@ + spec_render_expr(*b),
        SpecExpression::Length(a) => "#"@ + spec_render_expr(*a),
    }
}

// ---------------------------------------------------------------------------
// The executable renderers.
// ---------------------------------------------------------------------------

/// The decimal digit character of `d`.
fn digit_of(d: u64) -> (c: char)
    requires
        d < 10,
    ensures
        c == digit_char(d as int),
{
    match d {
        0 => '0',
        1 => '1',
        2 => '2',
        3 => '3',
        4 => '4',
        5 => '5',
        6 => '6',
        7 => '7',
        8 => '8',
        _ => '9',
    }
}

/// The decimal digits of `n`.
fn render_digits(n: u64) -> (r: String)
    ensures
        r@ == spec_digits(n as nat),
    decreases n,
{
    if n < 10 {
        let mut s = String::new();
        crate::lexer::string_push_char(&mut s, digit_of(n));
        proof {
            assert(s@ =~= seq![digit_char(n as int)]);
        }
        s
    } else {
        let mut s = render_digits(n / 10);
        crate::lexer::string_push_char(&mut s, digit_of(n % 10));
        proof {
            assert(s@ =~= spec_digits((n / 10) as nat) + seq![digit_char((n % 10) as int)]);
            assert((n / 10) as nat == (n as nat) / 10 && (n % 10) as nat == (n as nat) % 10);
        }
        s
    }
}

impl LuaNumber {
    /// The canonical text of this numeric literal.
    pub fn render(&self) -> (r: String)
        ensures
            r@ == spec_render_number(*self),
    {
        let mut s = if self.negative {
            "-".to_owned()
        } else {
            String::new()
        };
        let d = render_digits(self.mantissa);
        s.append(d.as_str());
        if self.exponent != 0 {
            if self.exponent < 0 {
                s.append("e-");
                let mag: u64 = ((-(self.exponent + 1)) as u64) + 1;
                proof {
                    assert(0 <= -((self.exponent as int) + 1) <= 0x7fff_ffff_ffff_ffffi64 as int);
                    assert(mag as int == -(self.exponent as int));
                }
                let d2 = render_digits(mag);
                s.append(d2.as_str());
            } else {
                s.append("e");
                let d2 = render_digits(self.exponent as u64);
                s.append(d2.as_str());
            }
        }
        proof {
            assert(s@ =~= spec_render_number(*self));
        }
        s
    }
}

impl Chunk {
    /// The canonical text of the whole program.
    pub fn render(&self) -> (r: String)
        ensures
            r@ == spec_render_chunk(self@),
    {
        self.block.render()
    }
}

impl Block {
    /// The canonical text of this block.
    pub fn render(&self) -> (r: String)
        ensures
            r@ == spec_render_block(self@),
        decreases self,
    {
        let mut s = render_stmts_of(&self.statements, 0);
        s.append(" ");
        match &self.last_statement {
            Some(l) => {
                let t = l.render();
                s.append(t.as_str());
            },
            None => {},
        }
        proof {
            assert(s@ =~= spec_render_block(self@));
        }
        s
    }
}

/// The statements of `v` from index `i` on, separated by newlines.
fn render_stmts_of(v: &Vec<Statement>, i: usize) -> (r: String)
    ensures
        r@ == spec_render_stmts_from(crate::ast::view_stmt_seq(v@), i as int),
    decreases v, v@.len() - i,
{
    proof {
        crate::ast::lemma_view_stmt_seq_len(v@);
    }
    if i >= v.len() {
        String::new()
    } else {
        proof {
            crate::ast::lemma_view_stmt_seq_index(v@, i as int);
        }
        let mut s = v[i].render();
        if i + 1 < v.len() {
            s.append("\n");
            let rest = render_stmts_of(v, i + 1);
            s.append(rest.as_str());
        }
        s
    }
}

impl LastStatement {
    /// The canonical text of this terminal statement.
    pub fn render(&self) -> (r: String)
        ensures
            r@ == spec_render_last(self@),
        decreases self,
    {
        match self {
            LastStatement::Break => "break".to_owned(),
            LastStatement::Return(rs) => {
                let mut s = "return ".to_owned();
                let t = render_exprs_of(&rs.expression_list, 0);
                s.append(t.as_str());
                s
            },
        }
    }
}

impl Statement {
    /// The canonical text of this statement.
    pub fn render(&self) -> (r: String)
        ensures
            r@ == spec_render_stmt(self@),
        decreases self,
    {
        let s = match self {
            Statement::Semicolon => ";".to_owned(),
            Statement::LocalDeclaration(d) => {
                let mut s = "local ".to_owned();
                let t = render_idents_of(&d.identifier_list, 0);
                s.append(t.as_str());
                s.append(" = ");
                let t = render_exprs_of(&d.expression_list, 0);
                s.append(t.as_str());
                s
            },
            Statement::FunctionCall(c) => {
                let mut s = (*c.callee).render();
                s.append("(");
                let t = render_exprs_of(&c.arguments, 0);
                s.append(t.as_str());
                s.append(")");
                s
            },
            Statement::Assignment(a) => {
                let mut s = render_vars_of(&a.variable_list, 0);
                s.append(" = ");
                let t = render_exprs_of(&a.expression_list, 0);
                s.append(t.as_str());
                s
            },
            Statement::Label(l) => {
                let mut s = "::".to_owned();
                s.append(l.as_str());
                s.append("::");
                s
            },
            Statement::Break => "break".to_owned(),
            Statement::Goto(l) => {
                let mut s = "goto ".to_owned();
                s.append(l.as_str());
                s
            },
            Statement::Scope(b) => {
                let mut s = "do ".to_owned();
                let t = b.render();
                s.append(t.as_str());
                s.append(" end");
                s
            },
            Statement::While(w) => {
                let mut s = "while ".to_owned();
                let t = w.condition.render();
                s.append(t.as_str());
                s.append(" do ");
                let t = w.block.render();
                s.append(t.as_str());
                s.append(" end");
                s
            },
            Statement::Repeat(rp) => {
                let mut s = "repeat ".to_owned();
                let t = rp.block.render();
                s.append(t.as_str());
                s.append(" until ");
                let t = rp.condition.render();
                s.append(t.as_str());
                s
            },
            Statement::If(i) => {
                let mut s = "if ".to_owned();
                let t = i.condition.render();
                s.append(t.as_str());
                s.append(" then ");
                let t = i.block.render();
                s.append(t.as_str());
                s.append(" ");
                let t = render_elseifs_of(&i.elseif_blocks, 0);
                s.append(t.as_str());
                s.append(" ");
                match &i.else_block {
                    Some(eb) => {
                        s.append("else ");
                        let t = eb.render();
                        s.append(t.as_str());
                    },
                    None => {},
                }
                s.append(" end");
                s
            },
            Statement::NumericFor(f) => {
                let mut s = "for ".to_owned();
                s.append(f.identifier.as_str());
                s.append(" = ");
                let t = f.start.render();
                s.append(t.as_str());
                s.append(", ");
                let t = f.end.render();
                s.append(t.as_str());
                match &f.step {
                    Some(e) => {
                        s.append(", ");
                        let t = e.render();
                        s.append(t.as_str());
                    },
                    None => {},
                }
                s.append(" do ");
                let t = f.block.render();
                s.append(t.as_str());
                s.append(" end");
                s
            },
            Statement::GenericFor(f) => {
                let mut s = "for ".to_owned();
                let t = render_idents_of(&f.identifier_list, 0);
                s.append(t.as_str());
                s.append(" in ");
                let t = render_exprs_of(&f.expression_list, 0);
                s.append(t.as_str());
                s.append(" do ");
                let t = f.block.render();
                s.append(t.as_str());
                s.append(" end");
                s
            },
            Statement::FunctionDefinition(f) => {
                let mut s = "function ".to_owned();
                let t = f.identifier.render();
                s.append(t.as_str());
                s.append("(");
                let t = render_params_of(&f.parameter_list, 0);
                s.append(t.as_str());
                s.append(") ");
                let t = f.block.render();
                s.append(t.as_str());
                s.append(" end");
                s
            },
            Statement::LocalFunctionDefinition(f) => {
                let mut s = "local function ".to_owned();
                let t = f.identifier.render();
                s.append(t.as_str());
                s.append("(");
                let t = render_params_of(&f.parameter_list, 0);
                s.append(t.as_str());
                s.append(") ");
                let t = f.block.render();
                s.append(t.as_str());
                s.append(" end");
                s
            },
        };
        proof {
            assert(s@ =~= spec_render_stmt(self@));
        }
        s
    }
}

impl ElseIf {
    /// The canonical text of one `elseif` clause.
    pub fn render(&self) -> (r: String)
        ensures
            r@ == spec_render_elseif(self@),
        decreases self,
    {
        let mut s = "elseif ".to_owned();
        let t = self.condition.render();
        s.append(t.as_str());
        s.append(" then ");
        let t = self.block.render();
        s.append(t.as_str());
        s
    }
}

/// The `elseif` clauses of `v` from index `i` on, separated by newlines.
fn render_elseifs_of(v: &Vec<ElseIf>, i: usize) -> (r: String)
    ensures
        r@ == spec_render_elseifs_from(crate::ast::view_elseif_seq(v@), i as int),
    decreases v, v@.len() - i,
{
    proof {
        crate::ast::lemma_view_elseif_seq_len(v@);
    }
    if i >= v.len() {
        String::new()
    } else {
        proof {
            crate::ast::lemma_view_elseif_seq_index(v@, i as int);
        }
        let mut s = v[i].render();
        if i + 1 < v.len() {
            s.append("\n");
            let rest = render_elseifs_of(v, i + 1);
            s.append(rest.as_str());
        }
        s
    }
}

/// The identifiers of `v` from index `i` on, separated by commas.
fn render_idents_of(v: &Vec<String>, i: usize) -> (r: String)
    ensures
        r@ == spec_render_idents_from(crate::ast::view_ident_seq(v@), i as int),
    decreases v@.len() - i,
{
    if i >= v.len() {
        String::new()
    } else {
        let mut s = v[i].clone();
        if i + 1 < v.len() {
            s.append(",");
            let rest = render_idents_of(v, i + 1);
            s.append(rest.as_str());
        }
        s
    }
}

impl Parameter {
    /// The canonical text of one parameter.
    pub fn render(&self) -> (r: String)
        ensures
            r@ == spec_render_param(self@),
    {
        match self {
            Parameter::Identifier(s) => s.clone(),
            Parameter::VariableArg => "...".to_owned(),
        }
    }
}

/// The parameters of `v` from index `i` on, separated by commas.
fn render_params_of(v: &Vec<Parameter>, i: usize) -> (r: String)
    ensures
        r@ == spec_render_params_from(crate::ast::view_param_seq(v@), i as int),
    decreases v@.len() - i,
{
    if i >= v.len() {
        String::new()
    } else {
        let mut s = v[i].render();
        if i + 1 < v.len() {
            s.append(",");
            let rest = render_params_of(v, i + 1);
            s.append(rest.as_str());
        }
        s
    }
}

/// The expressions of `v` from index `i` on, separated by commas.
fn render_exprs_of(v: &Vec<Expression>, i: usize) -> (r: String)
    ensures
        r@ == spec_render_exprs_from(crate::ast::view_expr_seq(v@), i as int),
    decreases v, v@.len() - i,
{
    proof {
        crate::ast::lemma_view_expr_seq_len(v@);
    }
    if i >= v.len() {
        String::new()
    } else {
        proof {
            crate::ast::lemma_view_expr_seq_index(v@, i as int);
        }
        let mut s = v[i].render();
        if i + 1 < v.len() {
            s.append(",");
            let rest = render_exprs_of(v, i + 1);
            s.append(rest.as_str());
        }
        s
    }
}

/// The assignment targets of `v` from index `i` on, separated by commas.
fn render_vars_of(v: &Vec<Variable>, i: usize) -> (r: String)
    ensures
        r@ == spec_render_vars_from(crate::ast::view_var_seq(v@), i as int),
    decreases v, v@.len() - i,
{
    proof {
        crate::ast::lemma_view_var_seq_len(v@);
    }
    if i >= v.len() {
        String::new()
    } else {
        proof {
            crate::ast::lemma_view_var_seq_index(v@, i as int);
        }
        let mut s = v[i].render();
        if i + 1 < v.len() {
            s.append(",");
            let rest = render_vars_of(v, i + 1);
            s.append(rest.as_str());
        }
        s
    }
}

/// The table fields of `v` from index `i` on, separated by commas.
fn render_fields_of(v: &Vec<TableField>, i: usize) -> (r: String)
    ensures
        r@ == spec_render_fields_from(crate::ast::view_field_seq(v@), i as int),
    decreases v, v@.len() - i,
{
    proof {
        crate::ast::lemma_view_field_seq_len(v@);
    }
    if i >= v.len() {
        String::new()
    } else {
        proof {
            crate::ast::lemma_view_field_seq_index(v@, i as int);
        }
        let mut s = v[i].render();
        if i + 1 < v.len() {
            s.append(",");
            let rest = render_fields_of(v, i + 1);
            s.append(rest.as_str());
        }
        s
    }
}

impl TableField {
    /// The canonical text of one table field.
    pub fn render(&self) -> (r: String)
        ensures
            r@ == spec_render_field(self@),
        decreases self,
    {
        match self {
            TableField::Value(e) => e.render(),
            TableField::IndexValue(k, v) => {
                let mut s = "[".to_owned();
                let t = k.render();
                s.append(t.as_str());
                s.append("] = ");
                let t = v.render();
                s.append(t.as_str());
                s
            },
            TableField::KeyValue(k, v) => {
                let mut s = k.clone();
                s.append(" = ");
                let t = v.render();
                s.append(t.as_str());
                s
            },
        }
    }
}

impl Variable {
    /// The canonical text of one assignable place.
    pub fn render(&self) -> (r: String)
        ensures
            r@ == spec_render_var(self@),
        decreases self,
    {
        match self {
            Variable::Identifier(s) => s.clone(),
            Variable::TableIndex(t) => {
                let mut s = (*t.base).render();
                s.append("[");
                let u = (*t.index).render();
                s.append(u.as_str());
                s.append("]");
                s
            },
            Variable::TableMember(t) => {
                let mut s = (*t.base).render();
                s.append(".");
                s.append(t.member.as_str());
                s
            },
            Variable::TableMethod(t) => {
                let mut s = (*t.base).render();
                s.append(":");
                s.append(t.method.as_str());
                s
            },
        }
    }
}

impl Expression {
    /// The canonical text of this expression.
    pub fn render(&self) -> (r: String)
        ensures
            r@ == spec_render_expr(self@),
        decreases self,
    {
        let s = match self {
            Expression::LiteralNumber(n) => n.render(),
            Expression::LiteralString(ls) => {
                let mut s = "\"".to_owned();
                s.append(ls.as_str());
                s.append("\"");
                s
            },
            Expression::True => "true".to_owned(),
            Expression::False => "false".to_owned(),
            Expression::Nil => "nil".to_owned(),
            Expression::TableConstructor(fs) => {
                let mut s = "{".to_owned();
                let t = render_fields_of(fs, 0);
                s.append(t.as_str());
                s.append("}");
                s
            },
            Expression::FunctionCall(c) => {
                let mut s = (*c.callee).render();
                s.append("(");
                let t = render_exprs_of(&c.arguments, 0);
                s.append(t.as_str());
                s.append(")");
                s
            },
            Expression::AnonFunctionDefinition(f) => {
                let mut s = "function(".to_owned();
                let t = render_params_of(&f.parameter_list, 0);
                s.append(t.as_str());
                s.append(") ");
                let t = f.block.render();
                s.append(t.as_str());
                s.append(" end");
                s
            },
            Expression::Variable(v) => v.render(),
            Expression::VariableArgument => "...".to_owned(),
            Expression::Parenthesized(a) => {
                let mut s = "(".to_owned();
                let t = (**a).render();
                s.append(t.as_str());
                s.append(")");
                s
            },
            Expression::Exponentiation(a, b) => render_binary_parts(
                (**a).render(),
                " ^ ",
                (**b).render(),
            ),
            Expression::Not(a) => {
                let mut s = "~".to_owned();
                let t = (**a).render();
                s.append(t.as_str());
                s
            },
            Expression::Negative(a) => {
                let mut s = "-".to_owned();
                let t = (**a).render();
                s.append(t.as_str());
                s
            },
            Expression::Multiplication(a, b) => render_binary_parts(
                (**a).render(),
                " * ",
                (**b).render(),
            ),
            Expression::Division(a, b) => render_binary_parts(
                (**a).render(),
                " / ",
                (**b).render(),
            ),
            Expression::Modulo(a, b) => render_binary_parts(
                (**a).render(),
                " % ",
                (**b).render(),
            ),
            Expression::Addition(a, b) => render_binary_parts(
                (**a).render(),
                " + ",
                (**b).render(),
            ),
            Expression::Subtraction(a, b) => render_binary_parts(
                (**a).render(),
                " - ",
                (**b).render(),
            ),
            Expression::Concatenation(a, b) => render_binary_parts(
                (**a).render(),
                " .. ",
                (**b).render(),
            ),
            Expression::LessThan(a, b) => render_binary_parts(
                (**a).render(),
                " < ",
                (**b).render(),
            ),
            Expression::GreaterThan(a, b) => render_binary_parts(
                (**a).render(),
                " > ",
                (**b).render(),
            ),
            Expression::LessThanOrEqual(a, b) => render_binary_parts(
                (**a).render(),
                " <= ",
                (**b).render(),
            ),
            Expression::GreaterThanOrEqual(a, b) => render_binary_parts(
                (**a).render(),
                " >= ",
                (**b).render(),
            ),
            Expression::NotEqual(a, b) => render_binary_parts(
                (**a).render(),
                " ~= ",
                (**b).render(),
            ),
            Expression::Equal(a, b) => render_binary_parts(
                (**a).render(),
                " == ",
                (**b).render(),
            ),
            Expression::And(a, b) => render_binary_parts(
                (**a).render(),
                " and ",
                (**b).render(),
            ),
            Expression::Or(a, b) => render_binary_parts(
                (**a).render(),
                " or ",
                (**b).render(),
            ),
            Expression::Length(a) => {
                let mut s = "#".to_owned();
                let t = (**a).render();
                s.append(t.as_str());
                s
            },
        };
        proof {
            assert(s@ =~= spec_render_expr(self@));
        }
        s
    }
}

/// Joins two already-rendered operands around an operator.
fn render_binary_parts(a: String, op: &str, b: String) -> (r: String)
    ensures
        r@ == a@ + op@ + b@,
{
    let mut s = a;
    s.append(op);
    s.append(b.as_str());
    s
}

} // verus!
