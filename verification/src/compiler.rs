//! The evaluator of whole programs.
//!
//! A `Compiler` holds a program with the stack and the symbols of its run,
//! and evaluates the expressions of the program over 32-bit integers,
//! strings, booleans and nil.

use crate::program::{
    Call, Comparison, ComparisonOperator, Declaration, Equality, EqualityOperator, Factor,
    FactorOperator, LogicAnd, LogicOr, Primary, Program, Term, TermOperator, Unary,
    UnaryOperator,
};
use vstd::prelude::*;
use vstd::string::*;

pub mod errors;
pub mod evaluation;
pub mod literal;
pub mod types;

use self::errors::{ErrorView, RuntimeError};
use self::evaluation::{
    boolean_of, call_value, comparison_prefix, comparison_value, equality_prefix, equality_value,
    factor_prefix, factor_value, integer_of, lemma_comparison_prefix_is_final,
    lemma_equality_prefix_is_final, lemma_factor_prefix_is_final,
    lemma_logic_and_prefix_is_final, lemma_logic_or_prefix_is_final, lemma_term_prefix_is_final,
    logic_and_prefix, logic_and_value, logic_or_prefix, logic_or_value, lookup, lookup_from,
    primary_value, quotient, term_prefix, term_value, unary_value, Evaluated,
};
use self::literal::parse_integer;
use self::types::{Type, TypeView};

verus! {

/// A name with the value that it stands for.
#[derive(Debug)]
pub struct Symbol {
    pub name: String,
    pub value: Type,
}

/// What a symbol is.
pub struct SymbolView {
    pub name: Seq<char>,
    pub value: TypeView,
}

impl View for Symbol {
    type V = SymbolView;

    open spec fn view(&self) -> SymbolView {
        SymbolView { name: self.name@, value: self.value@ }
    }
}

impl Clone for Symbol {
    fn clone(&self) -> (copy: Symbol)
        ensures
            copy == *self,
    {
        Symbol { name: self.name.clone(), value: self.value.clone() }
    }
}

/// How an evaluation that came to an end ended.
pub open spec fn evaluated(result: Result<Type, RuntimeError>) -> Evaluated {
    match result {
        Ok(value) => Evaluated::Value(value@),
        Err(error) => Evaluated::Failed(error@),
    }
}

/// What the result of a test for an integer is.
pub open spec fn integer_view(result: Result<i32, RuntimeError>) -> Result<i32, ErrorView> {
    match result {
        Ok(i) => Ok(i),
        Err(error) => Err(error@),
    }
}

/// What the result of a test for a boolean is.
pub open spec fn boolean_view(result: Result<bool, RuntimeError>) -> Result<bool, ErrorView> {
    match result {
        Ok(b) => Ok(b),
        Err(error) => Err(error@),
    }
}

/// The quotient of `i` by `j`, rounded towards zero.
fn divide(i: i32, j: i32) -> (q: i32)
    requires
        j != 0,
        i32::MIN <= quotient(i as int, j as int) <= i32::MAX,
    ensures
        q == quotient(i as int, j as int),
{
    let a: i64 = if i < 0 {
        0 - (i as i64)
    } else {
        i as i64
    };
    let b: i64 = if j < 0 {
        0 - (j as i64)
    } else {
        j as i64
    };
    let magnitude: i64 = a / b;
    assert(0 <= magnitude <= a) by (nonlinear_arith)
        requires
            0 <= a,
            0 < b,
            magnitude == a / b,
    ;
    if (i < 0) != (j < 0) {
        (0 - magnitude) as i32
    } else {
        magnitude as i32
    }
}

/// The declarations that a run takes: those of variables, and statements.
/// Declarations of classes and of functions are not taken.
pub open spec fn takes(declaration: Declaration) -> bool {
    declaration is Variable || declaration is Statement
}

/// Whether a run takes every one of `declarations`.
pub open spec fn takes_all(declarations: Seq<Declaration>) -> bool {
    forall|i: int| 0 <= i < declarations.len() ==> takes(#[trigger] declarations[i])
}

/// A program that is ready to run, with the state of its run.
pub struct Compiler<'input> {
    /// The program.
    pub program: Program<'input>,
    /// The values that are being worked on.
    pub stack: Vec<Type>,
    /// The symbols that are defined. Where two have one name, the name
    /// stands for the first.
    pub symbols: Vec<Symbol>,
}

impl<'input> Compiler<'input> {
    /// The symbols that are defined.
    pub open spec fn symbols_view(&self) -> Seq<SymbolView> {
        self.symbols@.map_values(|symbol: Symbol| symbol@)
    }

    /// A compiler for `program`, with nothing on its stack and no symbol
    /// defined.
    pub fn new(program: Program<'input>) -> (compiler: Self)
        ensures
            compiler.program == program,
            compiler.stack@.len() == 0,
            compiler.symbols@.len() == 0,
    {
        Compiler { program, stack: Vec::new(), symbols: Vec::new() }
    }

    /// Whether every declaration of the program is one that `execute`
    /// takes.
    pub open spec fn executable(&self) -> bool {
        takes_all(self.program.0@)
    }

    /// Whether every declaration of the program is one that `execute`
    /// takes.
    pub fn is_executable(&self) -> (r: bool)
        ensures
            r == self.executable(),
    {
        let mut k: usize = 0;
        while k < self.program.0.len()
            invariant
                k <= self.program.0.len(),
                forall|i: int| 0 <= i < k ==> takes(#[trigger] self.program.0@[i]),
            decreases self.program.0.len() - k,
        {
            match &self.program.0[k] {
                Declaration::Variable(_) => {},
                Declaration::Statement(_) => {},
                _ => {
                    return false;
                },
            }
            k += 1;
        }
        true
    }

    /// Runs the program: its declarations, in their order, up to the first
    /// error. The declaration of a variable and a statement leave the stack
    /// and the symbols as they are and raise no error, so the run succeeds.
    pub fn execute(&mut self) -> (result: Result<(), RuntimeError>)
        requires
            old(self).executable(),
        ensures
            *final(self) == *old(self),
            result is Ok,
    {
        Self::execute_program(&self.program)
    }

    fn execute_program(program: &Program<'input>) -> (result: Result<(), RuntimeError>)
        requires
            takes_all(program.0@),
        ensures
            result is Ok,
    {
        Self::execute_declarations(program.0.as_slice())
    }

    fn execute_declarations(decls: &[Declaration<'input>]) -> (result: Result<(), RuntimeError>)
        requires
            takes_all(decls@),
        ensures
            result is Ok,
    {
        let mut k: usize = 0;
        while k < decls.len()
            invariant
                k <= decls.len(),
                takes_all(decls@),
            decreases decls.len() - k,
        {
            match Self::execute_declaration(&decls[k]) {
                Ok(_) => {},
                Err(e) => {
                    return Err(e);
                },
            }
            k += 1;
        }
        Ok(())
    }

    fn execute_declaration(decl: &Declaration<'input>) -> (result: Result<(), RuntimeError>)
        requires
            takes(*decl),
        ensures
            result is Ok,
    {
        match decl {
            Declaration::Variable(_) => Ok(()),
            Declaration::Statement(_) => Ok(()),
            _ => unreached(),
        }
    }

    /// The integer that `value` is; if it is none, the error that says so.
    pub fn check_integer_value(value: Type) -> (result: Result<i32, RuntimeError>)
        ensures
            integer_view(result) == integer_of(value@),
    {
        match value {
            Type::Integer(i) => Ok(i),
            _ => Err(RuntimeError::InvalidType(value)),
        }
    }

    /// The boolean that `value` is; if it is none, the error that says so.
    pub fn check_boolean_value(value: Type) -> (result: Result<bool, RuntimeError>)
        ensures
            boolean_view(result) == boolean_of(value@),
    {
        match value {
            Type::Boolean(b) => Ok(b),
            _ => Err(RuntimeError::InvalidType(value)),
        }
    }

    /// The first symbol of the given name.
    fn find_symbol(&self, name: &str) -> (found: Option<&Symbol>)
        ensures
            match lookup(self.symbols_view(), name@) {
                Some(symbol) => found is Some && found->0@ == symbol,
                None => found is None,
            },
    {
        let key = String::from_str(name);
        let mut k: usize = 0;
        while k < self.symbols.len()
            invariant
                k <= self.symbols.len(),
                key@ == name@,
                lookup(self.symbols_view(), name@) == lookup_from(
                    self.symbols_view(),
                    name@,
                    k as int,
                ),
            decreases self.symbols.len() - k,
        {
            if self.symbols[k].name.eq(&key) {
                return Some(&self.symbols[k]);
            }
            k += 1;
        }
        None
    }

    /// The value of an `or`, or the error that ended its evaluation.
    pub fn evaluate_logic_or(
        &mut self,
        logic_or: &LogicOr<'input>,
    ) -> (result: Result<Type, RuntimeError>)
        requires
            !(logic_or_value(old(self).symbols_view(), *logic_or) is Undefined),
        ensures
            *final(self) == *old(self),
            evaluated(result) == logic_or_value(old(self).symbols_view(), *logic_or),
    {
        let ghost symbols = self.symbols_view();
        let n: usize = logic_or.rest.len();
        proof {
            if !(logic_or_prefix(symbols, *logic_or, 0) is Value) {
                lemma_logic_or_prefix_is_final(symbols, *logic_or, 0, n as nat);
            }
        }
        let mut result = match self.evaluate_logic_and(&logic_or.left) {
            Ok(value) => value,
            Err(e) => {
                return Err(e);
            },
        };
        let mut k: usize = 0;
        while k < n
            invariant
                *self == *old(self),
                symbols == self.symbols_view(),
                n == logic_or.rest@.len(),
                k <= n,
                !(logic_or_value(symbols, *logic_or) is Undefined),
                logic_or_prefix(symbols, *logic_or, k as nat) == Evaluated::Value(result@),
            decreases n - k,
        {
            let ghost next = logic_or_prefix(symbols, *logic_or, (k + 1) as nat);
            proof {
                if !(next is Value) {
                    lemma_logic_or_prefix_is_final(symbols, *logic_or, (k + 1) as nat, n as nat);
                }
            }
            let right = match self.evaluate_logic_and(&logic_or.rest[k]) {
                Ok(value) => value,
                Err(e) => {
                    return Err(e);
                },
            };
            let b = match Self::check_boolean_value(result) {
                Ok(b) => b,
                Err(e) => {
                    return Err(e);
                },
            };
            let c = match Self::check_boolean_value(right) {
                Ok(c) => c,
                Err(_) => {
                    proof {
                        assert(next is Undefined);
                    }
                    unreached()
                },
            };
            result = Type::Boolean(b || c);
            k += 1;
        }
        Ok(result)
    }

    /// The value of an `and`, or the error that ended its evaluation.
    pub fn evaluate_logic_and(
        &mut self,
        logic_and: &LogicAnd<'input>,
    ) -> (result: Result<Type, RuntimeError>)
        requires
            !(logic_and_value(old(self).symbols_view(), *logic_and) is Undefined),
        ensures
            *final(self) == *old(self),
            evaluated(result) == logic_and_value(old(self).symbols_view(), *logic_and),
    {
        let ghost symbols = self.symbols_view();
        let n: usize = logic_and.rest.len();
        proof {
            if !(logic_and_prefix(symbols, *logic_and, 0) is Value) {
                lemma_logic_and_prefix_is_final(symbols, *logic_and, 0, n as nat);
            }
        }
        let mut result = match self.evaluate_equality(&logic_and.left) {
            Ok(value) => value,
            Err(e) => {
                return Err(e);
            },
        };
        let mut k: usize = 0;
        while k < n
            invariant
                *self == *old(self),
                symbols == self.symbols_view(),
                n == logic_and.rest@.len(),
                k <= n,
                !(logic_and_value(symbols, *logic_and) is Undefined),
                logic_and_prefix(symbols, *logic_and, k as nat) == Evaluated::Value(result@),
            decreases n - k,
        {
            let ghost next = logic_and_prefix(symbols, *logic_and, (k + 1) as nat);
            proof {
                if !(next is Value) {
                    lemma_logic_and_prefix_is_final(symbols, *logic_and, (k + 1) as nat, n as nat);
                }
            }
            let right = match self.evaluate_equality(&logic_and.rest[k]) {
                Ok(value) => value,
                Err(e) => {
                    return Err(e);
                },
            };
            let b = match Self::check_boolean_value(result) {
                Ok(b) => b,
                Err(e) => {
                    return Err(e);
                },
            };
            let c = match Self::check_boolean_value(right) {
                Ok(c) => c,
                Err(e) => {
                    return Err(e);
                },
            };
            result = Type::Boolean(b && c);
            k += 1;
        }
        Ok(result)
    }

    /// The value of an equality, or the error that ended its evaluation.
    pub fn evaluate_equality(
        &mut self,
        equality: &Equality<'input>,
    ) -> (result: Result<Type, RuntimeError>)
        requires
            !(equality_value(old(self).symbols_view(), *equality) is Undefined),
        ensures
            *final(self) == *old(self),
            evaluated(result) == equality_value(old(self).symbols_view(), *equality),
    {
        let ghost symbols = self.symbols_view();
        let n: usize = equality.rest.len();
        proof {
            if !(equality_prefix(symbols, *equality, 0) is Value) {
                lemma_equality_prefix_is_final(symbols, *equality, 0, n as nat);
            }
        }
        let mut result = match self.evaluate_comparison(&equality.left) {
            Ok(value) => value,
            Err(e) => {
                return Err(e);
            },
        };
        let mut k: usize = 0;
        while k < n
            invariant
                *self == *old(self),
                symbols == self.symbols_view(),
                n == equality.rest@.len(),
                k <= n,
                !(equality_value(symbols, *equality) is Undefined),
                equality_prefix(symbols, *equality, k as nat) == Evaluated::Value(result@),
            decreases n - k,
        {
            let ghost next = equality_prefix(symbols, *equality, (k + 1) as nat);
            proof {
                if !(next is Value) {
                    lemma_equality_prefix_is_final(symbols, *equality, (k + 1) as nat, n as nat);
                }
            }
            let operator = equality.rest[k].0;
            let right = match self.evaluate_comparison(&equality.rest[k].1) {
                Ok(value) => value,
                Err(e) => {
                    return Err(e);
                },
            };
            result = match operator {
                EqualityOperator::Neq => Type::Boolean(!result.eq(&right)),
                EqualityOperator::Eq => Type::Boolean(result.eq(&right)),
            };
            k += 1;
        }
        Ok(result)
    }

    /// The value of a comparison, or the error that ended its evaluation.
    pub fn evaluate_comparison(
        &mut self,
        comparison: &Comparison<'input>,
    ) -> (result: Result<Type, RuntimeError>)
        requires
            !(comparison_value(old(self).symbols_view(), *comparison) is Undefined),
        ensures
            *final(self) == *old(self),
            evaluated(result) == comparison_value(old(self).symbols_view(), *comparison),
    {
        let ghost symbols = self.symbols_view();
        let n: usize = comparison.rest.len();
        proof {
            if !(comparison_prefix(symbols, *comparison, 0) is Value) {
                lemma_comparison_prefix_is_final(symbols, *comparison, 0, n as nat);
            }
        }
        let mut result = match self.evaluate_term(&comparison.left) {
            Ok(value) => value,
            Err(e) => {
                return Err(e);
            },
        };
        let mut k: usize = 0;
        while k < n
            invariant
                *self == *old(self),
                symbols == self.symbols_view(),
                n == comparison.rest@.len(),
                k <= n,
                !(comparison_value(symbols, *comparison) is Undefined),
                comparison_prefix(symbols, *comparison, k as nat) == Evaluated::Value(result@),
            decreases n - k,
        {
            let ghost next = comparison_prefix(symbols, *comparison, (k + 1) as nat);
            proof {
                if !(next is Value) {
                    lemma_comparison_prefix_is_final(symbols, *comparison, (k + 1) as nat, n as nat);
                }
            }
            let operator = comparison.rest[k].0;
            let right = match self.evaluate_term(&comparison.rest[k].1) {
                Ok(value) => value,
                Err(e) => {
                    return Err(e);
                },
            };
            let i = match Self::check_integer_value(result) {
                Ok(i) => i,
                Err(e) => {
                    return Err(e);
                },
            };
            let j = match Self::check_integer_value(right) {
                Ok(j) => j,
                Err(e) => {
                    return Err(e);
                },
            };
            result = match operator {
                ComparisonOperator::Gt => Type::Boolean(i > j),
                ComparisonOperator::Ge => Type::Boolean(i >= j),
                ComparisonOperator::Lt => Type::Boolean(i < j),
                ComparisonOperator::Le => Type::Boolean(i <= j),
            };
            k += 1;
        }
        Ok(result)
    }

    /// The value of a term, or the error that ended its evaluation.
    pub fn evaluate_term(&mut self, term: &Term<'input>) -> (result: Result<Type, RuntimeError>)
        requires
            !(term_value(old(self).symbols_view(), *term) is Undefined),
        ensures
            *final(self) == *old(self),
            evaluated(result) == term_value(old(self).symbols_view(), *term),
    {
        let ghost symbols = self.symbols_view();
        let n: usize = term.rest.len();
        proof {
            if !(term_prefix(symbols, *term, 0) is Value) {
                lemma_term_prefix_is_final(symbols, *term, 0, n as nat);
            }
        }
        let mut result = match self.evaluate_factor(&term.left) {
            Ok(value) => value,
            Err(e) => {
                return Err(e);
            },
        };
        let mut k: usize = 0;
        while k < n
            invariant
                *self == *old(self),
                symbols == self.symbols_view(),
                n == term.rest@.len(),
                k <= n,
                !(term_value(symbols, *term) is Undefined),
                term_prefix(symbols, *term, k as nat) == Evaluated::Value(result@),
            decreases n - k,
        {
            let ghost next = term_prefix(symbols, *term, (k + 1) as nat);
            proof {
                if !(next is Value) {
                    lemma_term_prefix_is_final(symbols, *term, (k + 1) as nat, n as nat);
                }
            }
            let operator = term.rest[k].0;
            let right = match self.evaluate_factor(&term.rest[k].1) {
                Ok(value) => value,
                Err(e) => {
                    return Err(e);
                },
            };
            let i = match Self::check_integer_value(result) {
                Ok(i) => i,
                Err(e) => {
                    return Err(e);
                },
            };
            let j = match Self::check_integer_value(right) {
                Ok(j) => j,
                Err(e) => {
                    return Err(e);
                },
            };
            result = match operator {
                TermOperator::Minus => Type::Integer(i - j),
                TermOperator::Plus => Type::Integer(i + j),
            };
            k += 1;
        }
        Ok(result)
    }

    /// The value of a factor, or the error that ended its evaluation.
    pub fn evaluate_factor(
        &mut self,
        factor: &Factor<'input>,
    ) -> (result: Result<Type, RuntimeError>)
        requires
            !(factor_value(old(self).symbols_view(), *factor) is Undefined),
        ensures
            *final(self) == *old(self),
            evaluated(result) == factor_value(old(self).symbols_view(), *factor),
    {
        let ghost symbols = self.symbols_view();
        let n: usize = factor.rest.len();
        proof {
            if !(factor_prefix(symbols, *factor, 0) is Value) {
                lemma_factor_prefix_is_final(symbols, *factor, 0, n as nat);
            }
        }
        let mut result = match self.evaluate_unary(&factor.left) {
            Ok(value) => value,
            Err(e) => {
                return Err(e);
            },
        };
        let mut k: usize = 0;
        while k < n
            invariant
                *self == *old(self),
                symbols == self.symbols_view(),
                n == factor.rest@.len(),
                k <= n,
                !(factor_value(symbols, *factor) is Undefined),
                factor_prefix(symbols, *factor, k as nat) == Evaluated::Value(result@),
            decreases n - k,
        {
            let ghost next = factor_prefix(symbols, *factor, (k + 1) as nat);
            proof {
                if !(next is Value) {
                    lemma_factor_prefix_is_final(symbols, *factor, (k + 1) as nat, n as nat);
                }
            }
            let operator = factor.rest[k].0;
            let right = match self.evaluate_unary(&factor.rest[k].1) {
                Ok(value) => value,
                Err(e) => {
                    return Err(e);
                },
            };
            let i = match Self::check_integer_value(result) {
                Ok(i) => i,
                Err(e) => {
                    return Err(e);
                },
            };
            let j = match Self::check_integer_value(right) {
                Ok(j) => j,
                Err(e) => {
                    return Err(e);
                },
            };
            result = match operator {
                FactorOperator::Slash => Type::Integer(divide(i, j)),
                FactorOperator::Star => {
                    assert(i32::MIN <= i * j <= i32::MAX);
                    Type::Integer(i * j)
                },
            };
            k += 1;
        }
        Ok(result)
    }

    /// The value of a unary expression, or the error that ended its
    /// evaluation.
    pub fn evaluate_unary(&mut self, unary: &Unary<'input>) -> (result: Result<Type, RuntimeError>)
        requires
            !(unary_value(old(self).symbols_view(), *unary) is Undefined),
        ensures
            *final(self) == *old(self),
            evaluated(result) == unary_value(old(self).symbols_view(), *unary),
        decreases *unary,
    {
        match unary {
            Unary::Unary { operator, right } => {
                let right = match self.evaluate_unary(right) {
                    Ok(value) => value,
                    Err(e) => {
                        return Err(e);
                    },
                };
                let t = match operator {
                    UnaryOperator::LogicNot => match right {
                        Type::Boolean(b) => Type::Boolean(!b),
                        _ => {
                            return Err(RuntimeError::MismatchedUnaryOperator(*operator, right));
                        },
                    },
                    UnaryOperator::Neg => match right {
                        Type::Integer(i) => Type::Integer(-i),
                        _ => {
                            return Err(RuntimeError::MismatchedUnaryOperator(*operator, right));
                        },
                    },
                };
                Ok(t)
            },
            Unary::Call(c) => self.evaluate_call(c),
        }
    }

    /// The value of a call, or the error that ended its evaluation.
    pub fn evaluate_call(&mut self, call: &Call<'input>) -> (result: Result<Type, RuntimeError>)
        requires
            !(call_value(old(self).symbols_view(), *call) is Undefined),
        ensures
            *final(self) == *old(self),
            evaluated(result) == call_value(old(self).symbols_view(), *call),
    {
        match &call.target {
            Primary::Identifier(i) => {
                match self.find_symbol(i) {
                    None => Err(RuntimeError::UndefinedSymbol(String::from_str(i))),
                    Some(symbol) => Err(RuntimeError::BadCallTarget(symbol.clone())),
                }
            },
            p => {
                self.evaluate_primary(p)
            },
        }
    }

    /// The value of a primary expression, or the error that ended its
    /// evaluation.
    pub fn evaluate_primary(&mut self, primary: &Primary<'input>) -> (result: Result<
        Type,
        RuntimeError,
    >)
        requires
            !(primary_value(*primary) is Undefined),
        ensures
            *final(self) == *old(self),
            evaluated(result) == primary_value(*primary),
    {
        let t = match primary {
            Primary::True => Type::Boolean(true),
            Primary::False => Type::Boolean(false),
            Primary::Nil => Type::Nil,
            Primary::Number(n) => match parse_integer(n) {
                Some(i) => Type::Integer(i),
                None => {
                    return Err(RuntimeError::BadIntegerLiteral(String::from_str(n)));
                },
            },
            Primary::String(s) => Type::String(String::from_str(s)),
            _ => unreached(),
        };
        Ok(t)
    }
}

} // verus!
