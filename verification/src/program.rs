//! The syntax tree of whole programs: declarations, statements and the
//! expression grammar with assignment, logic operators and calls.
//!
//! Every name and literal is a slice of the source text that the tree was
//! read from.

use vstd::prelude::*;

verus! {

/// A program: its declarations, in order.
#[derive(Debug, PartialEq)]
pub struct Program<'input>(pub Vec<Declaration<'input>>);

/// A declaration, or a statement where a declaration may stand.
#[derive(Debug, PartialEq)]
pub enum Declaration<'input> {
    Class(ClassDeclaration<'input>),
    Function(FunctionDeclaration<'input>),
    Variable(VariableDeclaration<'input>),
    Statement(Statement<'input>),
}

/// `class name < base { members }`.
#[derive(Debug, PartialEq)]
pub struct ClassDeclaration<'input> {
    pub class_name: &'input str,
    pub base: Option<&'input str>,
    pub members: Vec<Function<'input>>,
}

/// `fun function`.
#[derive(Debug, PartialEq)]
pub struct FunctionDeclaration<'input>(pub Function<'input>);

/// `var name = initializer;`.
#[derive(Debug, PartialEq)]
pub struct VariableDeclaration<'input> {
    pub name: &'input str,
    pub initializer: Option<Expression<'input>>,
}

/// A statement.
#[derive(Debug, PartialEq)]
pub enum Statement<'input> {
    Expression(ExprStatement<'input>),
    For(ForStatement<'input>),
    If(IfStatement<'input>),
    Print(PrintStatement<'input>),
    Return(ReturnStatement<'input>),
    While(WhileStatement<'input>),
    Block(Block<'input>),
}

/// `expression;`.
#[derive(Debug, PartialEq)]
pub struct ExprStatement<'input>(pub Expression<'input>);

/// `for (initializer condition; increment) body`.
#[derive(Debug, PartialEq)]
pub struct ForStatement<'input> {
    pub initializer: ForInitializer<'input>,
    pub condition: Option<Expression<'input>>,
    pub increment: Option<Expression<'input>>,
    pub body: Box<Statement<'input>>,
}

/// What stands first in the head of a `for`.
#[derive(Debug, PartialEq)]
pub enum ForInitializer<'input> {
    Declaration(VariableDeclaration<'input>),
    Expression(Box<ExprStatement<'input>>),
    Semicolon,
}

/// `if (condition) body`.
#[derive(Debug, PartialEq)]
pub struct IfStatement<'input> {
    pub condition: Expression<'input>,
    pub body: Box<Statement<'input>>,
}

/// `print expression;`.
#[derive(Debug, PartialEq)]
pub struct PrintStatement<'input>(pub Expression<'input>);

/// `return expression;`.
#[derive(Debug, PartialEq)]
pub struct ReturnStatement<'input>(pub Option<Expression<'input>>);

/// `while (condition) body`.
#[derive(Debug, PartialEq)]
pub struct WhileStatement<'input> {
    pub condition: Expression<'input>,
    pub body: Box<Statement<'input>>,
}

/// `{ declarations }`.
#[derive(Debug, PartialEq)]
pub struct Block<'input>(pub Vec<Declaration<'input>>);

/// An expression.
#[derive(Debug, PartialEq)]
pub enum Expression<'input> {
    Assignment(Assignment<'input>),
}

/// `object.target = value`, or what binds tighter.
#[derive(Debug, PartialEq)]
pub enum Assignment<'input> {
    Assignment { object: Option<Call<'input>>, target: &'input str, value: Box<Assignment<'input>> },
    LogicOr(LogicOr<'input>),
}

/// `left or ...`.
#[derive(Debug, PartialEq)]
pub struct LogicOr<'input> {
    pub left: LogicAnd<'input>,
    pub rest: Vec<LogicAnd<'input>>,
}

/// `left and ...`.
#[derive(Debug, PartialEq)]
pub struct LogicAnd<'input> {
    pub left: Equality<'input>,
    pub rest: Vec<Equality<'input>>,
}

/// `left == ...` and `left != ...`.
#[derive(Debug, PartialEq)]
pub struct Equality<'input> {
    pub left: Comparison<'input>,
    pub rest: Vec<(EqualityOperator, Comparison<'input>)>,
}

/// `!=` and `==`.
#[derive(Debug, PartialEq, Eq, Clone, Copy, Structural)]
pub enum EqualityOperator {
    Neq,
    Eq,
}

/// `left > ...`, `left >= ...`, `left < ...` and `left <= ...`.
#[derive(Debug, PartialEq)]
pub struct Comparison<'input> {
    pub left: Term<'input>,
    pub rest: Vec<(ComparisonOperator, Term<'input>)>,
}

/// `>`, `>=`, `<` and `<=`.
#[derive(Debug, PartialEq, Eq, Clone, Copy, Structural)]
pub enum ComparisonOperator {
    Gt,
    Ge,
    Lt,
    Le,
}

/// `left - ...` and `left + ...`.
#[derive(Debug, PartialEq)]
pub struct Term<'input> {
    pub left: Factor<'input>,
    pub rest: Vec<(TermOperator, Factor<'input>)>,
}

/// `-` and `+`.
#[derive(Debug, PartialEq, Eq, Clone, Copy, Structural)]
pub enum TermOperator {
    Minus,
    Plus,
}

/// `left / ...` and `left * ...`.
#[derive(Debug, PartialEq)]
pub struct Factor<'input> {
    pub left: Unary<'input>,
    pub rest: Vec<(FactorOperator, Unary<'input>)>,
}

/// `/` and `*`.
#[derive(Debug, PartialEq, Eq, Clone, Copy, Structural)]
pub enum FactorOperator {
    Slash,
    Star,
}

/// `!right`, `-right`, or a call.
#[derive(Debug, PartialEq)]
pub enum Unary<'input> {
    Unary { operator: UnaryOperator, right: Box<Unary<'input>> },
    Call(Call<'input>),
}

/// `!` and `-`.
#[derive(Debug, PartialEq, Eq, Clone, Copy, Structural)]
pub enum UnaryOperator {
    LogicNot,
    Neg,
}

/// A primary expression with the calls and member accesses behind it.
#[derive(Debug, PartialEq)]
pub struct Call<'input> {
    pub target: Primary<'input>,
    pub rhs: Vec<CallRhs<'input>>,
}

/// `(arguments)` or `.member`.
#[derive(Debug, PartialEq)]
pub enum CallRhs<'input> {
    Call(Arguments<'input>),
    Member(&'input str),
}

/// What an expression is made of at the bottom.
#[derive(Debug, PartialEq)]
pub enum Primary<'input> {
    True,
    False,
    Nil,
    This,
    Number(&'input str),
    String(&'input str),
    Identifier(&'input str),
    Parenthesized(Box<Expression<'input>>),
    SuperMember(&'input str),
}

impl<'input> Primary<'input> {
    /// A copy of a primary expression that holds no other expression.
    pub fn clone(&self) -> (copy: Primary<'input>)
        requires
            !(self is Parenthesized),
        ensures
            copy == *self,
    {
        match self {
            Primary::True => Primary::True,
            Primary::False => Primary::False,
            Primary::Nil => Primary::Nil,
            Primary::This => Primary::This,
            Primary::Number(n) => Primary::Number(n),
            Primary::String(s) => Primary::String(s),
            Primary::Identifier(i) => Primary::Identifier(i),
            Primary::Parenthesized(_) => unreached(),
            Primary::SuperMember(m) => Primary::SuperMember(m),
        }
    }
}

/// A function: its name, its parameters and its body.
#[derive(Debug, PartialEq)]
pub struct Function<'input> {
    pub name: &'input str,
    pub parameters: Option<Parameters<'input>>,
    pub body: Block<'input>,
}

/// The parameters of a function, of which there is at least one.
#[derive(Debug, PartialEq)]
pub struct Parameters<'input> {
    pub first: &'input str,
    pub rest: Vec<&'input str>,
}

/// The arguments of a call, of which there is at least one.
#[derive(Debug, PartialEq)]
pub struct Arguments<'input> {
    pub first: Box<Expression<'input>>,
    pub rest: Vec<Expression<'input>>,
}

} // verus!
