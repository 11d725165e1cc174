//! The abstract syntax tree of the Lua front end: the shapes a parsed
//! program is made of, their mathematical views, and value-preserving clones.

use vstd::prelude::*;

verus! {

/// A Lua identifier: the raw text of a name.
pub type Identifier = String;

/// The numeric value of a Lua literal, kept exactly as written:
/// `(-1 if negative) * mantissa * 10 ^ exponent`.
/// Hexadecimal and binary literals have exponent `0`; a decimal literal
/// such as `11.01e1` has mantissa `1101` and exponent `-1`.
#[derive(Debug, Clone, Copy, PartialEq, Eq, Structural)]
pub struct LuaNumber {
    pub negative: bool,
    pub mantissa: u64,
    pub exponent: i64,
}

/// The root of a parsed program; owns exactly one block.
#[derive(Debug, PartialEq)]
pub struct Chunk {
    pub block: Block,
}

/// An ordered sequence of statements with an optional terminal statement.
#[derive(Debug, PartialEq)]
pub struct Block {
    pub statements: Vec<Statement>,
    pub last_statement: Option<LastStatement>,
}

#[derive(Debug, PartialEq)]
pub struct LocalDeclarationStatement {
    pub identifier_list: Vec<Identifier>,
    pub expression_list: Vec<Expression>,
}

#[derive(Debug, PartialEq)]
pub struct FunctionCallStatement {
    pub callee: Box<Expression>,
    pub arguments: Vec<Expression>,
}

#[derive(Debug, PartialEq)]
pub struct AssignmentStatement {
    pub variable_list: Vec<Variable>,
    pub expression_list: Vec<Expression>,
}

/// A label statement on its own: `::name::`.
#[derive(Debug, PartialEq)]
pub struct LabelStatement {
    pub identifier: Identifier,
}

/// A goto statement on its own: `goto name`.
#[derive(Debug, PartialEq)]
pub struct GotoStatement {
    pub label: Identifier,
}

#[derive(Debug, PartialEq)]
pub struct WhileStatement {
    pub condition: Expression,
    pub block: Block,
}

#[derive(Debug, PartialEq)]
pub struct RepeatStatement {
    pub block: Block,
    pub condition: Expression,
}

#[derive(Debug, PartialEq)]
pub struct IfStatement {
    pub condition: Expression,
    pub block: Block,
    pub elseif_blocks: Vec<ElseIf>,
    pub else_block: Option<Block>,
}

#[derive(Debug, PartialEq)]
pub struct ElseIf {
    pub condition: Expression,
    pub block: Block,
}

#[derive(Debug, PartialEq)]
pub struct NumericForStatement {
    pub identifier: Identifier,
    pub start: Expression,
    pub end: Expression,
    pub step: Option<Expression>,
    pub block: Block,
}

#[derive(Debug, PartialEq)]
pub struct GenericForStatement {
    pub identifier_list: Vec<Identifier>,
    pub expression_list: Vec<Expression>,
    pub block: Block,
}

#[derive(Debug, PartialEq)]
pub struct FunctionDefinitionStatement {
    pub identifier: Variable,
    pub parameter_list: Vec<Parameter>,
    pub block: Block,
}

#[derive(Debug, PartialEq)]
pub struct LocalFunctionDefinitionStatement {
    pub identifier: Variable,
    pub parameter_list: Vec<Parameter>,
    pub block: Block,
}

#[derive(Debug, PartialEq)]
pub struct ReturnStatement {
    pub expression_list: Vec<Expression>,
}

#[derive(Debug, PartialEq)]
pub enum LastStatement {
    Break,
    Return(ReturnStatement),
}

#[derive(Debug, PartialEq)]
pub enum Statement {
    Semicolon,
    LocalDeclaration(LocalDeclarationStatement),
    FunctionCall(FunctionCallStatement),
    Assignment(AssignmentStatement),
    Label(Identifier),
    Break,
    Goto(Identifier),
    Scope(Block),
    While(WhileStatement),
    Repeat(RepeatStatement),
    If(IfStatement),
    NumericFor(NumericForStatement),
    GenericFor(GenericForStatement),
    FunctionDefinition(FunctionDefinitionStatement),
    LocalFunctionDefinition(LocalFunctionDefinitionStatement),
}

#[derive(Debug, PartialEq)]
pub enum TableField {
    Value(Expression),
    IndexValue(Expression, Expression),
    KeyValue(Identifier, Expression),
}

#[derive(Debug, PartialEq)]
pub enum Parameter {
    Identifier(Identifier),
    VariableArg,
}

#[derive(Debug, PartialEq)]
pub struct TableIndex {
    pub base: Box<Expression>,
    pub index: Box<Expression>,
}

#[derive(Debug, PartialEq)]
pub struct TableMember {
    pub base: Box<Expression>,
    pub member: Identifier,
}

#[derive(Debug, PartialEq)]
pub struct TableMethod {
    pub base: Box<Expression>,
    pub method: Identifier,
}

/// An assignable place or a postfix access chain rooted at an expression.
#[derive(Debug, PartialEq)]
pub enum Variable {
    Identifier(Identifier),
    TableIndex(TableIndex),
    TableMember(TableMember),
    TableMethod(TableMethod),
}

#[derive(Debug, PartialEq)]
pub struct FunctionCallExpression {
    pub callee: Box<Expression>,
    pub arguments: Vec<Expression>,
}

#[derive(Debug, PartialEq)]
pub struct AnonFunctionExpression {
    pub parameter_list: Vec<Parameter>,
    pub block: Block,
}

#[derive(Debug, PartialEq)]
pub enum Expression {
    LiteralNumber(LuaNumber),
    LiteralString(String),
    True,
    False,
    Nil,
    TableConstructor(Vec<TableField>),
    FunctionCall(FunctionCallExpression),
    AnonFunctionDefinition(AnonFunctionExpression),
    Variable(Variable),
    VariableArgument,
    Parenthesized(Box<Expression>),
    Exponentiation(Box<Expression>, Box<Expression>),
    Not(Box<Expression>),
    Negative(Box<Expression>),
    Multiplication(Box<Expression>, Box<Expression>),
    Division(Box<Expression>, Box<Expression>),
    Modulo(Box<Expression>, Box<Expression>),
    Addition(Box<Expression>, Box<Expression>),
    Subtraction(Box<Expression>, Box<Expression>),
    Concatenation(Box<Expression>, Box<Expression>),
    LessThan(Box<Expression>, Box<Expression>),
    GreaterThan(Box<Expression>, Box<Expression>),
    LessThanOrEqual(Box<Expression>, Box<Expression>),
    GreaterThanOrEqual(Box<Expression>, Box<Expression>),
    NotEqual(Box<Expression>, Box<Expression>),
    Equal(Box<Expression>, Box<Expression>),
    And(Box<Expression>, Box<Expression>),
    Or(Box<Expression>, Box<Expression>),
    Length(Box<Expression>),
}

// ---------------------------------------------------------------------------
// The mathematical view of the tree: the same shapes over `Seq` instead of
// `Vec` and `Seq<char>` instead of `String`, so contracts can state exact
// structural equality.
// ---------------------------------------------------------------------------

pub struct SpecChunk {
    pub block: SpecBlock,
}

pub struct SpecBlock {
    pub statements: Seq<SpecStatement>,
    pub last_statement: Option<SpecLastStatement>,
}

pub struct SpecLocalDeclarationStatement {
    pub identifier_list: Seq<Seq<char>>,
    pub expression_list: Seq<SpecExpression>,
}

pub struct SpecFunctionCallStatement {
    pub callee: Box<SpecExpression>,
    pub arguments: Seq<SpecExpression>,
}

pub struct SpecAssignmentStatement {
    pub variable_list: Seq<SpecVariable>,
    pub expression_list: Seq<SpecExpression>,
}

pub struct SpecWhileStatement {
    pub condition: SpecExpression,
    pub block: SpecBlock,
}

pub struct SpecRepeatStatement {
    pub block: SpecBlock,
    pub condition: SpecExpression,
}

pub struct SpecIfStatement {
    pub condition: SpecExpression,
    pub block: SpecBlock,
    pub elseif_blocks: Seq<SpecElseIf>,
    pub else_block: Option<SpecBlock>,
}

pub struct SpecElseIf {
    pub condition: SpecExpression,
    pub block: SpecBlock,
}

pub struct SpecNumericForStatement {
    pub identifier: Seq<char>,
    pub start: SpecExpression,
    pub end: SpecExpression,
    pub step: Option<SpecExpression>,
    pub block: SpecBlock,
}

pub struct SpecGenericForStatement {
    pub identifier_list: Seq<Seq<char>>,
    pub expression_list: Seq<SpecExpression>,
    pub block: SpecBlock,
}

pub struct SpecFunctionDefinitionStatement {
    pub identifier: SpecVariable,
    pub parameter_list: Seq<SpecParameter>,
    pub block: SpecBlock,
}

pub struct SpecReturnStatement {
    pub expression_list: Seq<SpecExpression>,
}

pub enum SpecLastStatement {
    Break,
    Return(SpecReturnStatement),
}

pub enum SpecStatement {
    Semicolon,
    LocalDeclaration(SpecLocalDeclarationStatement),
    FunctionCall(SpecFunctionCallStatement),
    Assignment(SpecAssignmentStatement),
    Label(Seq<char>),
    Break,
    Goto(Seq<char>),
    Scope(SpecBlock),
    While(SpecWhileStatement),
    Repeat(SpecRepeatStatement),
    If(SpecIfStatement),
    NumericFor(SpecNumericForStatement),
    GenericFor(SpecGenericForStatement),
    FunctionDefinition(SpecFunctionDefinitionStatement),
    LocalFunctionDefinition(SpecFunctionDefinitionStatement),
}

pub enum SpecTableField {
    Value(SpecExpression),
    IndexValue(SpecExpression, SpecExpression),
    KeyValue(Seq<char>, SpecExpression),
}

pub enum SpecParameter {
    Identifier(Seq<char>),
    VariableArg,
}

pub struct SpecTableIndex {
    pub base: Box<SpecExpression>,
    pub index: Box<SpecExpression>,
}

pub struct SpecTableMember {
    pub base: Box<SpecExpression>,
    pub member: Seq<char>,
}

pub struct SpecTableMethod {
    pub base: Box<SpecExpression>,
    pub method: Seq<char>,
}

pub enum SpecVariable {
    Identifier(Seq<char>),
    TableIndex(SpecTableIndex),
    TableMember(SpecTableMember),
    TableMethod(SpecTableMethod),
}

pub struct SpecFunctionCallExpression {
    pub callee: Box<SpecExpression>,
    pub arguments: Seq<SpecExpression>,
}

pub struct SpecAnonFunctionExpression {
    pub parameter_list: Seq<SpecParameter>,
    pub block: SpecBlock,
}

pub enum SpecExpression {
    LiteralNumber(LuaNumber),
    LiteralString(Seq<char>),
    True,
    False,
    Nil,
    TableConstructor(Seq<SpecTableField>),
    FunctionCall(SpecFunctionCallExpression),
    AnonFunctionDefinition(SpecAnonFunctionExpression),
    Variable(SpecVariable),
    VariableArgument,
    Parenthesized(Box<SpecExpression>),
    Exponentiation(Box<SpecExpression>, Box<SpecExpression>),
    Not(Box<SpecExpression>),
    Negative(Box<SpecExpression>),
    Multiplication(Box<SpecExpression>, Box<SpecExpression>),
    Division(Box<SpecExpression>, Box<SpecExpression>),
    Modulo(Box<SpecExpression>, Box<SpecExpression>),
    Addition(Box<SpecExpression>, Box<SpecExpression>),
    Subtraction(Box<SpecExpression>, Box<SpecExpression>),
    Concatenation(Box<SpecExpression>, Box<SpecExpression>),
    LessThan(Box<SpecExpression>, Box<SpecExpression>),
    GreaterThan(Box<SpecExpression>, Box<SpecExpression>),
    LessThanOrEqual(Box<SpecExpression>, Box<SpecExpression>),
    GreaterThanOrEqual(Box<SpecExpression>, Box<SpecExpression>),
    NotEqual(Box<SpecExpression>, Box<SpecExpression>),
    Equal(Box<SpecExpression>, Box<SpecExpression>),
    And(Box<SpecExpression>, Box<SpecExpression>),
    Or(Box<SpecExpression>, Box<SpecExpression>),
    Length(Box<SpecExpression>),
}

// ---------------------------------------------------------------------------
// View functions, mutually recursive over the tree.
// ---------------------------------------------------------------------------

pub open spec fn view_ident_seq(s: Seq<String>) -> Seq<Seq<char>> {
    s.map_values(|x: String| x@)
}

pub open spec fn view_param(p: Parameter) -> SpecParameter {
    match p {
        Parameter::Identifier(i) => SpecParameter::Identifier(i@),
        Parameter::VariableArg => SpecParameter::VariableArg,
    }
}

pub open spec fn view_param_seq(s: Seq<Parameter>) -> Seq<SpecParameter> {
    s.map_values(|p: Parameter| view_param(p))
}

pub open spec fn view_block(b: Block) -> SpecBlock
    decreases b,
{
    SpecBlock {
        statements: view_stmt_seq(b.statements@),
        last_statement: match b.last_statement {
            Some(l) => Some(view_last(l)),
            None => None,
        },
    }
}

pub open spec fn view_last(l: LastStatement) -> SpecLastStatement
    decreases l,
{
    match l {
        LastStatement::Break => SpecLastStatement::Break,
        LastStatement::Return(r) => SpecLastStatement::Return(
            SpecReturnStatement { expression_list: view_expr_seq(r.expression_list@) },
        ),
    }
}

pub open spec fn view_stmt_seq(s: Seq<Statement>) -> Seq<SpecStatement>
    decreases s,
{
    if s.len() == 0 {
        Seq::empty()
    } else {
        seq![view_stmt(s[0])] + view_stmt_seq(s.drop_first())
    }
}

pub open spec fn view_stmt(s: Statement) -> SpecStatement
    decreases s,
{
    match s {
        Statement::Semicolon => SpecStatement::Semicolon,
        Statement::LocalDeclaration(d) => SpecStatement::LocalDeclaration(
            SpecLocalDeclarationStatement {
                identifier_list: view_ident_seq(d.identifier_list@),
                expression_list: view_expr_seq(d.expression_list@),
            },
        ),
        Statement::FunctionCall(c) => SpecStatement::FunctionCall(
            SpecFunctionCallStatement {
                callee: Box::new(view_expr(*c.callee)),
                arguments: view_expr_seq(c.arguments@),
            },
        ),
        Statement::Assignment(a) => SpecStatement::Assignment(
            SpecAssignmentStatement {
                variable_list: view_var_seq(a.variable_list@),
                expression_list: view_expr_seq(a.expression_list@),
            },
        ),
        Statement::Label(i) => SpecStatement::Label(i@),
        Statement::Break => SpecStatement::Break,
        Statement::Goto(i) => SpecStatement::Goto(i@),
        Statement::Scope(b) => SpecStatement::Scope(view_block(b)),
        Statement::While(w) => SpecStatement::While(
            SpecWhileStatement { condition: view_expr(w.condition), block: view_block(w.block) },
        ),
        Statement::Repeat(r) => SpecStatement::Repeat(
            SpecRepeatStatement { block: view_block(r.block), condition: view_expr(r.condition) },
        ),
        Statement::If(i) => SpecStatement::If(
            SpecIfStatement {
                condition: view_expr(i.condition),
                block: view_block(i.block),
                elseif_blocks: view_elseif_seq(i.elseif_blocks@),
                else_block: match i.else_block {
                    Some(b) => Some(view_block(b)),
                    None => None,
                },
            },
        ),
        Statement::NumericFor(f) => SpecStatement::NumericFor(
            SpecNumericForStatement {
                identifier: f.identifier@,
                start: view_expr(f.start),
                end: view_expr(f.end),
                step: match f.step {
                    Some(e) => Some(view_expr(e)),
                    None => None,
                },
                block: view_block(f.block),
            },
        ),
        Statement::GenericFor(f) => SpecStatement::GenericFor(
            SpecGenericForStatement {
                identifier_list: view_ident_seq(f.identifier_list@),
                expression_list: view_expr_seq(f.expression_list@),
                block: view_block(f.block),
            },
        ),
        Statement::FunctionDefinition(d) => SpecStatement::FunctionDefinition(
            SpecFunctionDefinitionStatement {
                identifier: view_var(d.identifier),
                parameter_list: view_param_seq(d.parameter_list@),
                block: view_block(d.block),
            },
        ),
        Statement::LocalFunctionDefinition(d) => SpecStatement::LocalFunctionDefinition(
            SpecFunctionDefinitionStatement {
                identifier: view_var(d.identifier),
                parameter_list: view_param_seq(d.parameter_list@),
                block: view_block(d.block),
            },
        ),
    }
}

pub open spec fn view_elseif_seq(s: Seq<ElseIf>) -> Seq<SpecElseIf>
    decreases s,
{
    if s.len() == 0 {
        Seq::empty()
    } else {
        seq![view_elseif(s[0])] + view_elseif_seq(s.drop_first())
    }
}

pub open spec fn view_elseif(e: ElseIf) -> SpecElseIf
    decreases e,
{
    SpecElseIf { condition: view_expr(e.condition), block: view_block(e.block) }
}

pub open spec fn view_var_seq(s: Seq<Variable>) -> Seq<SpecVariable>
    decreases s,
{
    if s.len() == 0 {
        Seq::empty()
    } else {
        seq![view_var(s[0])] + view_var_seq(s.drop_first())
    }
}

pub open spec fn view_var(v: Variable) -> SpecVariable
    decreases v,
{
    match v {
        Variable::Identifier(i) => SpecVariable::Identifier(i@),
        Variable::TableIndex(t) => SpecVariable::TableIndex(
            SpecTableIndex {
                base: Box::new(view_expr(*t.base)),
                index: Box::new(view_expr(*t.index)),
            },
        ),
        Variable::TableMember(t) => SpecVariable::TableMember(
            SpecTableMember { base: Box::new(view_expr(*t.base)), member: t.member@ },
        ),
        Variable::TableMethod(t) => SpecVariable::TableMethod(
            SpecTableMethod { base: Box::new(view_expr(*t.base)), method: t.method@ },
        ),
    }
}

pub open spec fn view_field_seq(s: Seq<TableField>) -> Seq<SpecTableField>
    decreases s,
{
    if s.len() == 0 {
        Seq::empty()
    } else {
        seq![view_field(s[0])] + view_field_seq(s.drop_first())
    }
}

pub open spec fn view_field(f: TableField) -> SpecTableField
    decreases f,
{
    match f {
        TableField::Value(e) => SpecTableField::Value(view_expr(e)),
        TableField::IndexValue(k, v) => SpecTableField::IndexValue(view_expr(k), view_expr(v)),
        TableField::KeyValue(k, v) => SpecTableField::KeyValue(k@, view_expr(v)),
    }
}

pub open spec fn view_expr_seq(s: Seq<Expression>) -> Seq<SpecExpression>
    decreases s,
{
    if s.len() == 0 {
        Seq::empty()
    } else {
        seq![view_expr(s[0])] + view_expr_seq(s.drop_first())
    }
}

pub open spec fn view_expr(e: Expression) -> SpecExpression
    decreases e,
{
    match e {
        Expression::LiteralNumber(n) => SpecExpression::LiteralNumber(n),
        Expression::LiteralString(s) => SpecExpression::LiteralString(s@),
        Expression::True => SpecExpression::True,
        Expression::False => SpecExpression::False,
        Expression::Nil => SpecExpression::Nil,
        Expression::TableConstructor(fs) => SpecExpression::TableConstructor(
            view_field_seq(fs@),
        ),
        Expression::FunctionCall(c) => SpecExpression::FunctionCall(
            SpecFunctionCallExpression {
                callee: Box::new(view_expr(*c.callee)),
                arguments: view_expr_seq(c.arguments@),
            },
        ),
        Expression::AnonFunctionDefinition(f) => SpecExpression::AnonFunctionDefinition(
            SpecAnonFunctionExpression {
                parameter_list: view_param_seq(f.parameter_list@),
                block: view_block(f.block),
            },
        ),
        Expression::Variable(v) => SpecExpression::Variable(view_var(v)),
        Expression::VariableArgument => SpecExpression::VariableArgument,
        Expression::Parenthesized(a) => SpecExpression::Parenthesized(Box::new(view_expr(*a))),
        Expression::Exponentiation(a, b) => SpecExpression::Exponentiation(
            Box::new(view_expr(*a)),
            Box::new(view_expr(*b)),
        ),
        Expression::Not(a) => SpecExpression::Not(Box::new(view_expr(*a))),
        Expression::Negative(a) => SpecExpression::Negative(Box::new(view_expr(*a))),
        Expression::Multiplication(a, b) => SpecExpression::Multiplication(
            Box::new(view_expr(*a)),
            Box::new(view_expr(*b)),
        ),
        Expression::Division(a, b) => SpecExpression::Division(
            Box::new(view_expr(*a)),
            Box::new(view_expr(*b)),
        ),
        Expression::Modulo(a, b) => SpecExpression::Modulo(
            Box::new(view_expr(*a)),
            Box::new(view_expr(*b)),
        ),
        Expression::Addition(a, b) => SpecExpression::Addition(
            Box::new(view_expr(*a)),
            Box::new(view_expr(*b)),
        ),
        Expression::Subtraction(a, b) => SpecExpression::Subtraction(
            Box::new(view_expr(*a)),
            Box::new(view_expr(*b)),
        ),
        Expression::Concatenation(a, b) => SpecExpression::Concatenation(
            Box::new(view_expr(*a)),
            Box::new(view_expr(*b)),
        ),
        Expression::LessThan(a, b) => SpecExpression::LessThan(
            Box::new(view_expr(*a)),
            Box::new(view_expr(*b)),
        ),
        Expression::GreaterThan(a, b) => SpecExpression::GreaterThan(
            Box::new(view_expr(*a)),
            Box::new(view_expr(*b)),
        ),
        Expression::LessThanOrEqual(a, b) => SpecExpression::LessThanOrEqual(
            Box::new(view_expr(*a)),
            Box::new(view_expr(*b)),
        ),
        Expression::GreaterThanOrEqual(a, b) => SpecExpression::GreaterThanOrEqual(
            Box::new(view_expr(*a)),
            Box::new(view_expr(*b)),
        ),
        Expression::NotEqual(a, b) => SpecExpression::NotEqual(
            Box::new(view_expr(*a)),
            Box::new(view_expr(*b)),
        ),
        Expression::Equal(a, b) => SpecExpression::Equal(
            Box::new(view_expr(*a)),
            Box::new(view_expr(*b)),
        ),
        Expression::And(a, b) => SpecExpression::And(
            Box::new(view_expr(*a)),
            Box::new(view_expr(*b)),
        ),
        Expression::Or(a, b) => SpecExpression::Or(
            Box::new(view_expr(*a)),
            Box::new(view_expr(*b)),
        ),
        Expression::Length(a) => SpecExpression::Length(Box::new(view_expr(*a))),
    }
}

impl View for Chunk {
    type V = SpecChunk;

    open spec fn view(&self) -> SpecChunk {
        SpecChunk { block: view_block(self.block) }
    }
}

impl View for Block {
    type V = SpecBlock;

    open spec fn view(&self) -> SpecBlock {
        view_block(*self)
    }
}

impl View for Statement {
    type V = SpecStatement;

    open spec fn view(&self) -> SpecStatement {
        view_stmt(*self)
    }
}

impl View for LastStatement {
    type V = SpecLastStatement;

    open spec fn view(&self) -> SpecLastStatement {
        view_last(*self)
    }
}

impl View for Expression {
    type V = SpecExpression;

    open spec fn view(&self) -> SpecExpression {
        view_expr(*self)
    }
}

impl View for Variable {
    type V = SpecVariable;

    open spec fn view(&self) -> SpecVariable {
        view_var(*self)
    }
}

impl View for TableField {
    type V = SpecTableField;

    open spec fn view(&self) -> SpecTableField {
        view_field(*self)
    }
}

impl View for Parameter {
    type V = SpecParameter;

    open spec fn view(&self) -> SpecParameter {
        view_param(*self)
    }
}

impl View for ElseIf {
    type V = SpecElseIf;

    open spec fn view(&self) -> SpecElseIf {
        view_elseif(*self)
    }
}

// ---------------------------------------------------------------------------
// Facts about the sequence views: how they interact with element pushes,
// used when code grows a vector one element at a time.
// ---------------------------------------------------------------------------

pub broadcast proof fn lemma_view_stmt_seq_push(s: Seq<Statement>, x: Statement)
    ensures
        #[trigger] view_stmt_seq(s.push(x)) == view_stmt_seq(s).push(view_stmt(x)),
    decreases s.len(),
{
    if s.len() == 0 {
        assert(s.push(x).drop_first() =~= s);
        assert(view_stmt_seq(s.push(x)) =~= view_stmt_seq(s).push(view_stmt(x)));
    } else {
        assert(s.push(x).drop_first() =~= s.drop_first().push(x));
        lemma_view_stmt_seq_push(s.drop_first(), x);
        assert(view_stmt_seq(s.push(x)) =~= view_stmt_seq(s).push(view_stmt(x)));
    }
}

pub broadcast proof fn lemma_view_expr_seq_push(s: Seq<Expression>, x: Expression)
    ensures
        #[trigger] view_expr_seq(s.push(x)) == view_expr_seq(s).push(view_expr(x)),
    decreases s.len(),
{
    if s.len() == 0 {
        assert(s.push(x).drop_first() =~= s);
        assert(view_expr_seq(s.push(x)) =~= view_expr_seq(s).push(view_expr(x)));
    } else {
        assert(s.push(x).drop_first() =~= s.drop_first().push(x));
        lemma_view_expr_seq_push(s.drop_first(), x);
        assert(view_expr_seq(s.push(x)) =~= view_expr_seq(s).push(view_expr(x)));
    }
}

pub broadcast proof fn lemma_view_var_seq_push(s: Seq<Variable>, x: Variable)
    ensures
        #[trigger] view_var_seq(s.push(x)) == view_var_seq(s).push(view_var(x)),
    decreases s.len(),
{
    if s.len() == 0 {
        assert(s.push(x).drop_first() =~= s);
        assert(view_var_seq(s.push(x)) =~= view_var_seq(s).push(view_var(x)));
    } else {
        assert(s.push(x).drop_first() =~= s.drop_first().push(x));
        lemma_view_var_seq_push(s.drop_first(), x);
        assert(view_var_seq(s.push(x)) =~= view_var_seq(s).push(view_var(x)));
    }
}

pub broadcast proof fn lemma_view_field_seq_push(s: Seq<TableField>, x: TableField)
    ensures
        #[trigger] view_field_seq(s.push(x)) == view_field_seq(s).push(view_field(x)),
    decreases s.len(),
{
    if s.len() == 0 {
        assert(s.push(x).drop_first() =~= s);
        assert(view_field_seq(s.push(x)) =~= view_field_seq(s).push(view_field(x)));
    } else {
        assert(s.push(x).drop_first() =~= s.drop_first().push(x));
        lemma_view_field_seq_push(s.drop_first(), x);
        assert(view_field_seq(s.push(x)) =~= view_field_seq(s).push(view_field(x)));
    }
}

pub broadcast proof fn lemma_view_elseif_seq_push(s: Seq<ElseIf>, x: ElseIf)
    ensures
        #[trigger] view_elseif_seq(s.push(x)) == view_elseif_seq(s).push(view_elseif(x)),
    decreases s.len(),
{
    if s.len() == 0 {
        assert(s.push(x).drop_first() =~= s);
        assert(view_elseif_seq(s.push(x)) =~= view_elseif_seq(s).push(view_elseif(x)));
    } else {
        assert(s.push(x).drop_first() =~= s.drop_first().push(x));
        lemma_view_elseif_seq_push(s.drop_first(), x);
        assert(view_elseif_seq(s.push(x)) =~= view_elseif_seq(s).push(view_elseif(x)));
    }
}

pub proof fn lemma_view_stmt_seq_len(s: Seq<Statement>)
    ensures
        view_stmt_seq(s).len() == s.len(),
    decreases s.len(),
{
    if s.len() > 0 {
        lemma_view_stmt_seq_len(s.drop_first());
    }
}

pub proof fn lemma_view_stmt_seq_index(s: Seq<Statement>, i: int)
    requires
        0 <= i < s.len(),
    ensures
        view_stmt_seq(s)[i] == view_stmt(s[i]),
    decreases i,
{
    lemma_view_stmt_seq_len(s);
    lemma_view_stmt_seq_len(s.drop_first());
    if i > 0 {
        lemma_view_stmt_seq_index(s.drop_first(), i - 1);
        assert(s.drop_first()[i - 1] == s[i]);
    } else {
        assert(view_stmt_seq(s)[0] == view_stmt(s[0]));
    }
}

pub proof fn lemma_view_expr_seq_len(s: Seq<Expression>)
    ensures
        view_expr_seq(s).len() == s.len(),
    decreases s.len(),
{
    if s.len() > 0 {
        lemma_view_expr_seq_len(s.drop_first());
    }
}

pub proof fn lemma_view_expr_seq_index(s: Seq<Expression>, i: int)
    requires
        0 <= i < s.len(),
    ensures
        view_expr_seq(s)[i] == view_expr(s[i]),
    decreases i,
{
    lemma_view_expr_seq_len(s);
    lemma_view_expr_seq_len(s.drop_first());
    if i > 0 {
        lemma_view_expr_seq_index(s.drop_first(), i - 1);
        assert(s.drop_first()[i - 1] == s[i]);
    } else {
        assert(view_expr_seq(s)[0] == view_expr(s[0]));
    }
}

pub proof fn lemma_view_var_seq_len(s: Seq<Variable>)
    ensures
        view_var_seq(s).len() == s.len(),
    decreases s.len(),
{
    if s.len() > 0 {
        lemma_view_var_seq_len(s.drop_first());
    }
}

pub proof fn lemma_view_var_seq_index(s: Seq<Variable>, i: int)
    requires
        0 <= i < s.len(),
    ensures
        view_var_seq(s)[i] == view_var(s[i]),
    decreases i,
{
    lemma_view_var_seq_len(s);
    lemma_view_var_seq_len(s.drop_first());
    if i > 0 {
        lemma_view_var_seq_index(s.drop_first(), i - 1);
        assert(s.drop_first()[i - 1] == s[i]);
    } else {
        assert(view_var_seq(s)[0] == view_var(s[0]));
    }
}



pub proof fn lemma_view_field_seq_len(s: Seq<TableField>)
    ensures
        view_field_seq(s).len() == s.len(),
    decreases s.len(),
{
    if s.len() > 0 {
        lemma_view_field_seq_len(s.drop_first());
    }
}

pub proof fn lemma_view_field_seq_index(s: Seq<TableField>, i: int)
    requires
        0 <= i < s.len(),
    ensures
        view_field_seq(s)[i] == view_field(s[i]),
    decreases i,
{
    lemma_view_field_seq_len(s);
    lemma_view_field_seq_len(s.drop_first());
    if i > 0 {
        lemma_view_field_seq_index(s.drop_first(), i - 1);
        assert(s.drop_first()[i - 1] == s[i]);
    } else {
        assert(view_field_seq(s)[0] == view_field(s[0]));
    }
}

pub proof fn lemma_view_elseif_seq_len(s: Seq<ElseIf>)
    ensures
        view_elseif_seq(s).len() == s.len(),
    decreases s.len(),
{
    if s.len() > 0 {
        lemma_view_elseif_seq_len(s.drop_first());
    }
}

pub proof fn lemma_view_elseif_seq_index(s: Seq<ElseIf>, i: int)
    requires
        0 <= i < s.len(),
    ensures
        view_elseif_seq(s)[i] == view_elseif(s[i]),
    decreases i,
{
    lemma_view_elseif_seq_len(s);
    lemma_view_elseif_seq_len(s.drop_first());
    if i > 0 {
        lemma_view_elseif_seq_index(s.drop_first(), i - 1);
        assert(s.drop_first()[i - 1] == s[i]);
    } else {
        assert(view_elseif_seq(s)[0] == view_elseif(s[0]));
    }
}

// ---------------------------------------------------------------------------
// Value-preserving clones: each clone has exactly the view of its source.
// ---------------------------------------------------------------------------

impl Clone for Block {
    fn clone(&self) -> (r: Block)
        ensures
            r@ == self@,
        decreases self,
    {
        let statements = clone_stmt_vec(&self.statements);
        let last_statement = match &self.last_statement {
            Some(l) => Some(l.clone()),
            None => None,
        };
        Block { statements, last_statement }
    }
}

impl Clone for LastStatement {
    fn clone(&self) -> (r: LastStatement)
        ensures
            r@ == self@,
        decreases self,
    {
        match self {
            LastStatement::Break => LastStatement::Break,
            LastStatement::Return(r) => LastStatement::Return(
                ReturnStatement { expression_list: clone_expr_vec(&r.expression_list) },
            ),
        }
    }
}

fn clone_ident_vec(v: &Vec<Identifier>) -> (r: Vec<Identifier>)
    ensures
        view_ident_seq(r@) == view_ident_seq(v@),
{
    let mut r: Vec<Identifier> = Vec::new();
    let mut i: usize = 0;
    while i < v.len()
        invariant
            i <= v.len(),
            r@.len() == i,
            forall|j: int| 0 <= j < i ==> r@[j]@ == v@[j]@,
        decreases v.len() - i,
    {
        r.push(v[i].clone());
        i += 1;
    }
    proof {
        assert(view_ident_seq(r@) =~= view_ident_seq(v@));
    }
    r
}

fn clone_param_vec(v: &Vec<Parameter>) -> (r: Vec<Parameter>)
    ensures
        view_param_seq(r@) == view_param_seq(v@),
{
    let mut r: Vec<Parameter> = Vec::new();
    let mut i: usize = 0;
    while i < v.len()
        invariant
            i <= v.len(),
            r@.len() == i,
            forall|j: int| 0 <= j < i ==> view_param(r@[j]) == view_param(v@[j]),
        decreases v.len() - i,
    {
        let p = match &v[i] {
            Parameter::Identifier(s) => Parameter::Identifier(s.clone()),
            Parameter::VariableArg => Parameter::VariableArg,
        };
        r.push(p);
        i += 1;
    }
    proof {
        assert(view_param_seq(r@) =~= view_param_seq(v@));
    }
    r
}

fn clone_expr_vec(v: &Vec<Expression>) -> (r: Vec<Expression>)
    ensures
        view_expr_seq(r@) == view_expr_seq(v@),
    decreases v,
{
    let mut r: Vec<Expression> = Vec::new();
    let mut i: usize = 0;
    while i < v.len()
        invariant
            i <= v.len(),
            view_expr_seq(r@) == view_expr_seq(v@.take(i as int)),
        decreases v.len() - i,
    {
        let e = v[i].clone();
        proof {
            lemma_view_expr_seq_push(r@, e);
            lemma_view_expr_seq_push(v@.take(i as int), v@[i as int]);
            assert(v@.take(i as int).push(v@[i as int]) =~= v@.take(i + 1));
        }
        r.push(e);
        i += 1;
    }
    proof {
        assert(v@.take(v@.len() as int) =~= v@);
    }
    r
}

fn clone_stmt_vec(v: &Vec<Statement>) -> (r: Vec<Statement>)
    ensures
        view_stmt_seq(r@) == view_stmt_seq(v@),
    decreases v,
{
    let mut r: Vec<Statement> = Vec::new();
    let mut i: usize = 0;
    while i < v.len()
        invariant
            i <= v.len(),
            view_stmt_seq(r@) == view_stmt_seq(v@.take(i as int)),
        decreases v.len() - i,
    {
        let e = v[i].clone();
        proof {
            lemma_view_stmt_seq_push(r@, e);
            lemma_view_stmt_seq_push(v@.take(i as int), v@[i as int]);
            assert(v@.take(i as int).push(v@[i as int]) =~= v@.take(i + 1));
        }
        r.push(e);
        i += 1;
    }
    proof {
        assert(v@.take(v@.len() as int) =~= v@);
    }
    r
}

fn clone_field_vec(v: &Vec<TableField>) -> (r: Vec<TableField>)
    ensures
        view_field_seq(r@) == view_field_seq(v@),
    decreases v,
{
    let mut r: Vec<TableField> = Vec::new();
    let mut i: usize = 0;
    while i < v.len()
        invariant
            i <= v.len(),
            view_field_seq(r@) == view_field_seq(v@.take(i as int)),
        decreases v.len() - i,
    {
        let e = v[i].clone();
        proof {
            lemma_view_field_seq_push(r@, e);
            lemma_view_field_seq_push(v@.take(i as int), v@[i as int]);
            assert(v@.take(i as int).push(v@[i as int]) =~= v@.take(i + 1));
        }
        r.push(e);
        i += 1;
    }
    proof {
        assert(v@.take(v@.len() as int) =~= v@);
    }
    r
}

fn clone_var_vec(v: &Vec<Variable>) -> (r: Vec<Variable>)
    ensures
        view_var_seq(r@) == view_var_seq(v@),
    decreases v,
{
    let mut r: Vec<Variable> = Vec::new();
    let mut i: usize = 0;
    while i < v.len()
        invariant
            i <= v.len(),
            view_var_seq(r@) == view_var_seq(v@.take(i as int)),
        decreases v.len() - i,
    {
        let e = v[i].clone();
        proof {
            lemma_view_var_seq_push(r@, e);
            lemma_view_var_seq_push(v@.take(i as int), v@[i as int]);
            assert(v@.take(i as int).push(v@[i as int]) =~= v@.take(i + 1));
        }
        r.push(e);
        i += 1;
    }
    proof {
        assert(v@.take(v@.len() as int) =~= v@);
    }
    r
}

fn clone_elseif_vec(v: &Vec<ElseIf>) -> (r: Vec<ElseIf>)
    ensures
        view_elseif_seq(r@) == view_elseif_seq(v@),
    decreases v,
{
    let mut r: Vec<ElseIf> = Vec::new();
    let mut i: usize = 0;
    while i < v.len()
        invariant
            i <= v.len(),
            view_elseif_seq(r@) == view_elseif_seq(v@.take(i as int)),
        decreases v.len() - i,
    {
        let cur = &v[i];
        let e = ElseIf { condition: cur.condition.clone(), block: cur.block.clone() };
        proof {
            lemma_view_elseif_seq_push(r@, e);
            lemma_view_elseif_seq_push(v@.take(i as int), v@[i as int]);
            assert(v@.take(i as int).push(v@[i as int]) =~= v@.take(i + 1));
        }
        r.push(e);
        i += 1;
    }
    proof {
        assert(v@.take(v@.len() as int) =~= v@);
    }
    r
}

impl Clone for Variable {
    fn clone(&self) -> (r: Variable)
        ensures
            r@ == self@,
        decreases self,
    {
        match self {
            Variable::Identifier(i) => Variable::Identifier(i.clone()),
            Variable::TableIndex(t) => Variable::TableIndex(
                TableIndex {
                    base: Box::new((*t.base).clone()),
                    index: Box::new((*t.index).clone()),
                },
            ),
            Variable::TableMember(t) => Variable::TableMember(
                TableMember { base: Box::new((*t.base).clone()), member: t.member.clone() },
            ),
            Variable::TableMethod(t) => Variable::TableMethod(
                TableMethod { base: Box::new((*t.base).clone()), method: t.method.clone() },
            ),
        }
    }
}

impl Clone for TableField {
    fn clone(&self) -> (r: TableField)
        ensures
            r@ == self@,
        decreases self,
    {
        match self {
            TableField::Value(e) => TableField::Value(e.clone()),
            TableField::IndexValue(k, v) => TableField::IndexValue(k.clone(), v.clone()),
            TableField::KeyValue(k, v) => TableField::KeyValue(k.clone(), v.clone()),
        }
    }
}

impl Clone for Statement {
    fn clone(&self) -> (r: Statement)
        ensures
            r@ == self@,
        decreases self,
    {
        match self {
            Statement::Semicolon => Statement::Semicolon,
            Statement::LocalDeclaration(d) => Statement::LocalDeclaration(
                LocalDeclarationStatement {
                    identifier_list: clone_ident_vec(&d.identifier_list),
                    expression_list: clone_expr_vec(&d.expression_list),
                },
            ),
            Statement::FunctionCall(c) => Statement::FunctionCall(
                FunctionCallStatement {
                    callee: Box::new((*c.callee).clone()),
                    arguments: clone_expr_vec(&c.arguments),
                },
            ),
            Statement::Assignment(a) => Statement::Assignment(
                AssignmentStatement {
                    variable_list: clone_var_vec(&a.variable_list),
                    expression_list: clone_expr_vec(&a.expression_list),
                },
            ),
            Statement::Label(i) => Statement::Label(i.clone()),
            Statement::Break => Statement::Break,
            Statement::Goto(i) => Statement::Goto(i.clone()),
            Statement::Scope(b) => Statement::Scope(b.clone()),
            Statement::While(w) => Statement::While(
                WhileStatement { condition: w.condition.clone(), block: w.block.clone() },
            ),
            Statement::Repeat(r) => Statement::Repeat(
                RepeatStatement { block: r.block.clone(), condition: r.condition.clone() },
            ),
            Statement::If(i) => Statement::If(
                IfStatement {
                    condition: i.condition.clone(),
                    block: i.block.clone(),
                    elseif_blocks: clone_elseif_vec(&i.elseif_blocks),
                    else_block: match &i.else_block {
                        Some(b) => Some(b.clone()),
                        None => None,
                    },
                },
            ),
            Statement::NumericFor(f) => Statement::NumericFor(
                NumericForStatement {
                    identifier: f.identifier.clone(),
                    start: f.start.clone(),
                    end: f.end.clone(),
                    step: match &f.step {
                        Some(e) => Some(e.clone()),
                        None => None,
                    },
                    block: f.block.clone(),
                },
            ),
            Statement::GenericFor(f) => Statement::GenericFor(
                GenericForStatement {
                    identifier_list: clone_ident_vec(&f.identifier_list),
                    expression_list: clone_expr_vec(&f.expression_list),
                    block: f.block.clone(),
                },
            ),
            Statement::FunctionDefinition(d) => Statement::FunctionDefinition(
                FunctionDefinitionStatement {
                    identifier: d.identifier.clone(),
                    parameter_list: clone_param_vec(&d.parameter_list),
                    block: d.block.clone(),
                },
            ),
            Statement::LocalFunctionDefinition(d) => Statement::LocalFunctionDefinition(
                LocalFunctionDefinitionStatement {
                    identifier: d.identifier.clone(),
                    parameter_list: clone_param_vec(&d.parameter_list),
                    block: d.block.clone(),
                },
            ),
        }
    }
}

impl Clone for Expression {
    fn clone(&self) -> (r: Expression)
        ensures
            r@ == self@,
        decreases self,
    {
        match self {
            Expression::LiteralNumber(n) => Expression::LiteralNumber(*n),
            Expression::LiteralString(s) => Expression::LiteralString(s.clone()),
            Expression::True => Expression::True,
            Expression::False => Expression::False,
            Expression::Nil => Expression::Nil,
            Expression::TableConstructor(fs) => Expression::TableConstructor(
                clone_field_vec(fs),
            ),
            Expression::FunctionCall(c) => Expression::FunctionCall(
                FunctionCallExpression {
                    callee: Box::new((*c.callee).clone()),
                    arguments: clone_expr_vec(&c.arguments),
                },
            ),
            Expression::AnonFunctionDefinition(f) => Expression::AnonFunctionDefinition(
                AnonFunctionExpression {
                    parameter_list: clone_param_vec(&f.parameter_list),
                    block: f.block.clone(),
                },
            ),
            Expression::Variable(v) => Expression::Variable(v.clone()),
            Expression::VariableArgument => Expression::VariableArgument,
            Expression::Parenthesized(a) => Expression::Parenthesized(
                Box::new((**a).clone()),
            ),
            Expression::Exponentiation(a, b) => Expression::Exponentiation(
                Box::new((**a).clone()),
                Box::new((**b).clone()),
            ),
            Expression::Not(a) => Expression::Not(Box::new((**a).clone())),
            Expression::Negative(a) => Expression::Negative(Box::new((**a).clone())),
            Expression::Multiplication(a, b) => Expression::Multiplication(
                Box::new((**a).clone()),
                Box::new((**b).clone()),
            ),
            Expression::Division(a, b) => Expression::Division(
                Box::new((**a).clone()),
                Box::new((**b).clone()),
            ),
            Expression::Modulo(a, b) => Expression::Modulo(
                Box::new((**a).clone()),
                Box::new((**b).clone()),
            ),
            Expression::Addition(a, b) => Expression::Addition(
                Box::new((**a).clone()),
                Box::new((**b).clone()),
            ),
            Expression::Subtraction(a, b) => Expression::Subtraction(
                Box::new((**a).clone()),
                Box::new((**b).clone()),
            ),
            Expression::Concatenation(a, b) => Expression::Concatenation(
                Box::new((**a).clone()),
                Box::new((**b).clone()),
            ),
            Expression::LessThan(a, b) => Expression::LessThan(
                Box::new((**a).clone()),
                Box::new((**b).clone()),
            ),
            Expression::GreaterThan(a, b) => Expression::GreaterThan(
                Box::new((**a).clone()),
                Box::new((**b).clone()),
            ),
            Expression::LessThanOrEqual(a, b) => Expression::LessThanOrEqual(
                Box::new((**a).clone()),
                Box::new((**b).clone()),
            ),
            Expression::GreaterThanOrEqual(a, b) => Expression::GreaterThanOrEqual(
                Box::new((**a).clone()),
                Box::new((**b).clone()),
            ),
            Expression::NotEqual(a, b) => Expression::NotEqual(
                Box::new((**a).clone()),
                Box::new((**b).clone()),
            ),
            Expression::Equal(a, b) => Expression::Equal(
                Box::new((**a).clone()),
                Box::new((**b).clone()),
            ),
            Expression::And(a, b) => Expression::And(
                Box::new((**a).clone()),
                Box::new((**b).clone()),
            ),
            Expression::Or(a, b) => Expression::Or(
                Box::new((**a).clone()),
                Box::new((**b).clone()),
            ),
            Expression::Length(a) => Expression::Length(Box::new((**a).clone())),
        }
    }
}

} // verus!
