use lox::compiler::errors::RuntimeError;
use lox::compiler::literal::parse_integer;
use lox::compiler::types::Type;
use lox::compiler::Compiler;
use lox::program::{
    Assignment, Block, Call, CallRhs, ClassDeclaration, Comparison, ComparisonOperator,
    Declaration, Equality, EqualityOperator, ExprStatement, Expression, Factor, FactorOperator,
    Function, FunctionDeclaration, LogicAnd, LogicOr, Primary, Program, Statement, Term,
    TermOperator, Unary, UnaryOperator, VariableDeclaration,
};

fn c_compiler() -> Compiler<'static> {
    Compiler::new(Program(vec![]))
}

fn c_unary(primary: Primary<'static>) -> Unary<'static> {
    Unary::Call(Call {
        target: primary,
        rhs: vec![],
    })
}

fn c_number(text: &'static str) -> Unary<'static> {
    c_unary(Primary::Number(text))
}

fn c_factor(left: Unary<'static>, rest: Vec<(FactorOperator, Unary<'static>)>) -> Factor<'static> {
    Factor { left, rest }
}

fn c_term(left: Factor<'static>, rest: Vec<(TermOperator, Factor<'static>)>) -> Term<'static> {
    Term { left, rest }
}

fn c_comparison(
    left: Term<'static>,
    rest: Vec<(ComparisonOperator, Term<'static>)>,
) -> Comparison<'static> {
    Comparison { left, rest }
}

fn c_equality(
    left: Comparison<'static>,
    rest: Vec<(EqualityOperator, Comparison<'static>)>,
) -> Equality<'static> {
    Equality { left, rest }
}

fn c_simple_factor(primary: Primary<'static>) -> Factor<'static> {
    c_factor(c_unary(primary), vec![])
}

fn c_simple_term(primary: Primary<'static>) -> Term<'static> {
    c_term(c_simple_factor(primary), vec![])
}

fn c_simple_comparison(primary: Primary<'static>) -> Comparison<'static> {
    c_comparison(c_simple_term(primary), vec![])
}

fn c_simple_equality(primary: Primary<'static>) -> Equality<'static> {
    c_equality(c_simple_comparison(primary), vec![])
}

fn c_simple_and(primary: Primary<'static>) -> LogicAnd<'static> {
    LogicAnd {
        left: c_simple_equality(primary),
        rest: vec![],
    }
}

fn c_expression(primary: Primary<'static>) -> Expression<'static> {
    Expression::Assignment(Assignment::LogicOr(LogicOr {
        left: c_simple_and(primary),
        rest: vec![],
    }))
}

fn c_value(result: Result<Type, RuntimeError>) -> Type {
    match result {
        Ok(value) => value,
        Err(error) => panic!("a value, not {:?}", error),
    }
}

fn c_error(result: Result<Type, RuntimeError>) -> RuntimeError {
    match result {
        Ok(value) => panic!("an error, not {:?}", value),
        Err(error) => error,
    }
}

#[test]
fn integer_literals() {
    assert_eq!(parse_integer("0"), Some(0));
    assert_eq!(parse_integer("3"), Some(3));
    assert_eq!(parse_integer("0042"), Some(42));
    assert_eq!(parse_integer("+7"), Some(7));
    assert_eq!(parse_integer("-7"), Some(-7));
    assert_eq!(parse_integer("-0"), Some(0));
    assert_eq!(parse_integer("2147483647"), Some(i32::MAX));
    assert_eq!(parse_integer("-2147483648"), Some(i32::MIN));
    assert_eq!(parse_integer("2147483648"), None);
    assert_eq!(parse_integer("-2147483649"), None);
    assert_eq!(parse_integer("99999999999999999999999999"), None);
    assert_eq!(parse_integer(""), None);
    assert_eq!(parse_integer("-"), None);
    assert_eq!(parse_integer("+"), None);
    assert_eq!(parse_integer("1.5"), None);
    assert_eq!(parse_integer(" 1"), None);
    assert_eq!(parse_integer("1 "), None);
    assert_eq!(parse_integer("1_000"), None);
    assert_eq!(parse_integer("--1"), None);
    assert_eq!(parse_integer("12a"), None);
    assert_eq!(parse_integer("٣"), None);
}

#[test]
fn integer_literals_are_read_as_the_standard_library_reads_them() {
    for text in [
        "0", "1", "-1", "+1", "007", "2147483647", "2147483648", "-2147483648", "-2147483649",
        "", "+", "-", "+-1", "1+", "x", "0x10", "1e3", "4294967296", "00000000000000000001",
    ] {
        assert_eq!(parse_integer(text), text.parse::<i32>().ok(), "{:?}", text);
    }
}

#[test]
fn primaries_evaluate_to_their_values() {
    let mut compiler = c_compiler();
    assert_eq!(c_value(compiler.evaluate_primary(&Primary::True)), Type::Boolean(true));
    assert_eq!(c_value(compiler.evaluate_primary(&Primary::False)), Type::Boolean(false));
    assert_eq!(c_value(compiler.evaluate_primary(&Primary::Nil)), Type::Nil);
    assert_eq!(c_value(compiler.evaluate_primary(&Primary::Number("12"))), Type::Integer(12));
    assert_eq!(
        c_value(compiler.evaluate_primary(&Primary::String("text"))),
        Type::String(String::from("text"))
    );
    match c_error(compiler.evaluate_primary(&Primary::Number("12345678901"))) {
        RuntimeError::BadIntegerLiteral(text) => assert_eq!(text, "12345678901"),
        other => panic!("{:?}", other),
    }
}

#[test]
fn a_name_is_undefined_without_symbols() {
    let mut compiler = c_compiler();
    let call = Call {
        target: Primary::Identifier("f"),
        rhs: vec![CallRhs::Member("g")],
    };
    match c_error(compiler.evaluate_call(&call)) {
        RuntimeError::UndefinedSymbol(name) => assert_eq!(name, "f"),
        other => panic!("{:?}", other),
    }
}

#[test]
fn a_symbol_is_no_call_target() {
    let mut compiler = c_compiler();
    compiler.symbols.push(lox::compiler::Symbol {
        name: String::from("g"),
        value: Type::Integer(1),
    });
    compiler.symbols.push(lox::compiler::Symbol {
        name: String::from("f"),
        value: Type::Integer(2),
    });
    compiler.symbols.push(lox::compiler::Symbol {
        name: String::from("f"),
        value: Type::Integer(3),
    });
    let call = Call {
        target: Primary::Identifier("f"),
        rhs: vec![],
    };
    match c_error(compiler.evaluate_unary(&Unary::Call(call))) {
        RuntimeError::BadCallTarget(symbol) => {
            assert_eq!(symbol.name, "f");
            assert_eq!(symbol.value, Type::Integer(2));
        }
        other => panic!("{:?}", other),
    }
    assert_eq!(compiler.symbols.len(), 3);
}

#[test]
fn unary_operators() {
    let mut compiler = c_compiler();
    let negate = |right: Unary<'static>| Unary::Unary {
        operator: UnaryOperator::Neg,
        right: Box::new(right),
    };
    let not = |right: Unary<'static>| Unary::Unary {
        operator: UnaryOperator::LogicNot,
        right: Box::new(right),
    };
    assert_eq!(c_value(compiler.evaluate_unary(&negate(c_number("5")))), Type::Integer(-5));
    assert_eq!(
        c_value(compiler.evaluate_unary(&negate(negate(c_number("5"))))),
        Type::Integer(5)
    );
    assert_eq!(
        c_value(compiler.evaluate_unary(&not(c_unary(Primary::True)))),
        Type::Boolean(false)
    );
    assert_eq!(
        c_value(compiler.evaluate_unary(&not(not(c_unary(Primary::False))))),
        Type::Boolean(false)
    );
    match c_error(compiler.evaluate_unary(&negate(c_unary(Primary::True)))) {
        RuntimeError::MismatchedUnaryOperator(operator, value) => {
            assert_eq!(operator, UnaryOperator::Neg);
            assert_eq!(value, Type::Boolean(true));
        }
        other => panic!("{:?}", other),
    }
    match c_error(compiler.evaluate_unary(&not(c_number("1")))) {
        RuntimeError::MismatchedUnaryOperator(operator, value) => {
            assert_eq!(operator, UnaryOperator::LogicNot);
            assert_eq!(value, Type::Integer(1));
        }
        other => panic!("{:?}", other),
    }
    match c_error(compiler.evaluate_unary(&not(negate(c_unary(Primary::Nil))))) {
        RuntimeError::MismatchedUnaryOperator(operator, value) => {
            assert_eq!(operator, UnaryOperator::Neg);
            assert_eq!(value, Type::Nil);
        }
        other => panic!("{:?}", other),
    }
}

#[test]
fn factors_fold_to_the_left_and_divide_towards_zero() {
    let mut compiler = c_compiler();
    let negative = |text: &'static str| Unary::Unary {
        operator: UnaryOperator::Neg,
        right: Box::new(c_number(text)),
    };
    let factor = c_factor(
        c_number("100"),
        vec![
            (FactorOperator::Slash, c_number("7")),
            (FactorOperator::Star, c_number("3")),
            (FactorOperator::Slash, c_number("4")),
        ],
    );
    assert_eq!(c_value(compiler.evaluate_factor(&factor)), Type::Integer(10));
    let factor = c_factor(negative("7"), vec![(FactorOperator::Slash, c_number("2"))]);
    assert_eq!(c_value(compiler.evaluate_factor(&factor)), Type::Integer(-3));
    let factor = c_factor(c_number("7"), vec![(FactorOperator::Slash, negative("2"))]);
    assert_eq!(c_value(compiler.evaluate_factor(&factor)), Type::Integer(-3));
    let factor = c_factor(negative("7"), vec![(FactorOperator::Slash, negative("2"))]);
    assert_eq!(c_value(compiler.evaluate_factor(&factor)), Type::Integer(3));
    let factor = c_factor(negative("2147483647"), vec![(FactorOperator::Slash, negative("1"))]);
    assert_eq!(c_value(compiler.evaluate_factor(&factor)), Type::Integer(i32::MAX));
    for (i, j) in [(7, 2), (-7, 2), (7, -2), (-7, -2), (0, 5), (6, 3), (-6, 3), (1, 2147483647)] {
        let lit = |n: i32| -> Unary<'static> {
            let text: &'static str = Box::leak(n.abs().to_string().into_boxed_str());
            if n < 0 {
                Unary::Unary {
                    operator: UnaryOperator::Neg,
                    right: Box::new(c_number(text)),
                }
            } else {
                c_number(text)
            }
        };
        let factor = c_factor(lit(i), vec![(FactorOperator::Slash, lit(j))]);
        assert_eq!(c_value(compiler.evaluate_factor(&factor)), Type::Integer(i / j));
        let factor = c_factor(lit(i), vec![(FactorOperator::Star, lit(j))]);
        assert_eq!(
            c_value(compiler.evaluate_factor(&factor)),
            Type::Integer(i.wrapping_mul(j))
        );
    }
}

#[test]
fn terms_fold_to_the_left() {
    let mut compiler = c_compiler();
    let term = c_term(
        c_simple_factor(Primary::Number("10")),
        vec![
            (TermOperator::Minus, c_simple_factor(Primary::Number("4"))),
            (TermOperator::Minus, c_simple_factor(Primary::Number("3"))),
            (TermOperator::Plus, c_factor(c_number("2"), vec![(FactorOperator::Star, c_number("5"))])),
        ],
    );
    assert_eq!(c_value(compiler.evaluate_term(&term)), Type::Integer(13));
    let term = c_term(
        c_simple_factor(Primary::Number("1")),
        vec![(TermOperator::Plus, c_simple_factor(Primary::String("a")))],
    );
    match c_error(compiler.evaluate_term(&term)) {
        RuntimeError::InvalidType(value) => assert_eq!(value, Type::String(String::from("a"))),
        other => panic!("{:?}", other),
    }
    let term = c_term(
        c_simple_factor(Primary::Nil),
        vec![(TermOperator::Plus, c_simple_factor(Primary::String("a")))],
    );
    match c_error(compiler.evaluate_term(&term)) {
        RuntimeError::InvalidType(value) => assert_eq!(value, Type::Nil),
        other => panic!("{:?}", other),
    }
    // The right operand is evaluated before the kind of the left one is
    // tested.
    let term = c_term(
        c_simple_factor(Primary::Nil),
        vec![(TermOperator::Plus, c_simple_factor(Primary::Number("99999999999")))],
    );
    match c_error(compiler.evaluate_term(&term)) {
        RuntimeError::BadIntegerLiteral(text) => assert_eq!(text, "99999999999"),
        other => panic!("{:?}", other),
    }
}

#[test]
fn comparisons_take_integers() {
    let mut compiler = c_compiler();
    let compare = |operator: ComparisonOperator, a: &'static str, b: &'static str| {
        c_comparison(
            c_simple_term(Primary::Number(a)),
            vec![(operator, c_simple_term(Primary::Number(b)))],
        )
    };
    for (operator, a, b, expected) in [
        (ComparisonOperator::Gt, "2", "1", true),
        (ComparisonOperator::Gt, "1", "1", false),
        (ComparisonOperator::Ge, "1", "1", true),
        (ComparisonOperator::Ge, "0", "1", false),
        (ComparisonOperator::Lt, "0", "1", true),
        (ComparisonOperator::Lt, "1", "1", false),
        (ComparisonOperator::Le, "1", "1", true),
        (ComparisonOperator::Le, "2", "1", false),
    ] {
        assert_eq!(
            c_value(compiler.evaluate_comparison(&compare(operator, a, b))),
            Type::Boolean(expected)
        );
    }
    // `1 < 2 < 3` compares a boolean with an integer.
    let chained = c_comparison(
        c_simple_term(Primary::Number("1")),
        vec![
            (ComparisonOperator::Lt, c_simple_term(Primary::Number("2"))),
            (ComparisonOperator::Lt, c_simple_term(Primary::Number("3"))),
        ],
    );
    match c_error(compiler.evaluate_comparison(&chained)) {
        RuntimeError::InvalidType(value) => assert_eq!(value, Type::Boolean(true)),
        other => panic!("{:?}", other),
    }
}

#[test]
fn equality_is_strict_about_kinds() {
    let mut compiler = c_compiler();
    let equal = |operator: EqualityOperator, a: Primary<'static>, b: Primary<'static>| {
        c_equality(c_simple_comparison(a), vec![(operator, c_simple_comparison(b))])
    };
    for (a, b, expected) in [
        (Primary::Number("1"), Primary::Number("1"), true),
        (Primary::Number("1"), Primary::Number("01"), true),
        (Primary::Number("1"), Primary::Number("2"), false),
        (Primary::Number("1"), Primary::String("1"), false),
        (Primary::Number("1"), Primary::True, false),
        (Primary::Number("0"), Primary::Nil, false),
        (Primary::Nil, Primary::Nil, true),
        (Primary::Nil, Primary::False, false),
        (Primary::True, Primary::True, true),
        (Primary::True, Primary::False, false),
        (Primary::String("a"), Primary::String("a"), true),
        (Primary::String("a"), Primary::String("b"), false),
    ] {
        assert_eq!(
            c_value(compiler.evaluate_equality(&equal(
                EqualityOperator::Eq,
                a.clone(),
                b.clone()
            ))),
            Type::Boolean(expected)
        );
        assert_eq!(
            c_value(compiler.evaluate_equality(&equal(EqualityOperator::Neq, a, b))),
            Type::Boolean(!expected)
        );
    }
}

#[test]
fn logic_operators_evaluate_every_operand() {
    let mut compiler = c_compiler();
    let and = |operands: Vec<Primary<'static>>| {
        let mut operands = operands.into_iter().map(c_simple_equality);
        LogicAnd {
            left: operands.next().unwrap(),
            rest: operands.collect(),
        }
    };
    assert_eq!(
        c_value(compiler.evaluate_logic_and(&and(vec![Primary::True, Primary::True]))),
        Type::Boolean(true)
    );
    assert_eq!(
        c_value(compiler.evaluate_logic_and(&and(vec![
            Primary::True,
            Primary::False,
            Primary::True
        ]))),
        Type::Boolean(false)
    );
    assert_eq!(
        c_value(compiler.evaluate_logic_and(&and(vec![Primary::Number("1")]))),
        Type::Integer(1)
    );
    match c_error(compiler.evaluate_logic_and(&and(vec![Primary::False, Primary::Number("1")]))) {
        RuntimeError::InvalidType(value) => assert_eq!(value, Type::Integer(1)),
        other => panic!("{:?}", other),
    }
    match c_error(compiler.evaluate_logic_and(&and(vec![Primary::Nil, Primary::Number("1")]))) {
        RuntimeError::InvalidType(value) => assert_eq!(value, Type::Nil),
        other => panic!("{:?}", other),
    }
    let or = |operands: Vec<Primary<'static>>| {
        let mut operands = operands.into_iter().map(c_simple_and);
        LogicOr {
            left: operands.next().unwrap(),
            rest: operands.collect(),
        }
    };
    assert_eq!(
        c_value(compiler.evaluate_logic_or(&or(vec![Primary::False, Primary::False]))),
        Type::Boolean(false)
    );
    assert_eq!(
        c_value(compiler.evaluate_logic_or(&or(vec![
            Primary::False,
            Primary::True,
            Primary::False
        ]))),
        Type::Boolean(true)
    );
    match c_error(compiler.evaluate_logic_or(&or(vec![Primary::Number("3"), Primary::True]))) {
        RuntimeError::InvalidType(value) => assert_eq!(value, Type::Integer(3)),
        other => panic!("{:?}", other),
    }
    match c_error(compiler.evaluate_logic_or(&or(vec![
        Primary::True,
        Primary::Identifier("x")
    ]))) {
        RuntimeError::UndefinedSymbol(name) => assert_eq!(name, "x"),
        other => panic!("{:?}", other),
    }
}

#[test]
fn check_values() {
    assert_eq!(Compiler::check_integer_value(Type::Integer(-4)).unwrap(), -4);
    assert!(Compiler::check_boolean_value(Type::Boolean(true)).unwrap());
    match Compiler::check_integer_value(Type::Boolean(true)) {
        Err(RuntimeError::InvalidType(value)) => assert_eq!(value, Type::Boolean(true)),
        other => panic!("{:?}", other),
    }
    match Compiler::check_boolean_value(Type::Nil) {
        Err(RuntimeError::InvalidType(value)) => assert_eq!(value, Type::Nil),
        other => panic!("{:?}", other),
    }
}

#[test]
fn types_of_different_kinds_are_never_equal() {
    let values = [
        Type::Integer(0),
        Type::Integer(1),
        Type::String(String::from("0")),
        Type::String(String::new()),
        Type::Boolean(false),
        Type::Boolean(true),
        Type::Nil,
    ];
    for (i, a) in values.iter().enumerate() {
        for (j, b) in values.iter().enumerate() {
            assert_eq!(a == b, i == j);
        }
        assert_eq!(a.clone(), *a);
    }
}

#[test]
fn execute_takes_variables_and_statements() {
    let program = Program(vec![
        Declaration::Variable(VariableDeclaration {
            name: "x",
            initializer: Some(c_expression(Primary::Number("3"))),
        }),
        Declaration::Statement(Statement::Expression(ExprStatement(c_expression(
            Primary::Identifier("x"),
        )))),
    ]);
    let mut compiler = Compiler::new(program);
    assert!(compiler.is_executable());
    assert!(compiler.execute().is_ok());
    assert!(compiler.stack.is_empty());
    assert!(compiler.symbols.is_empty());
    assert_eq!(compiler.program.0.len(), 2);
    let mut empty = Compiler::new(Program(vec![]));
    assert!(empty.is_executable());
    assert!(empty.execute().is_ok());
}

#[test]
fn classes_and_functions_are_not_executable() {
    let function = || Function {
        name: "test",
        parameters: None,
        body: Block(vec![]),
    };
    let with_function = Compiler::new(Program(vec![
        Declaration::Variable(VariableDeclaration {
            name: "x",
            initializer: None,
        }),
        Declaration::Function(FunctionDeclaration(function())),
    ]));
    assert!(!with_function.is_executable());
    let with_class = Compiler::new(Program(vec![Declaration::Class(ClassDeclaration {
        class_name: "Test",
        base: Some("Base"),
        members: vec![function()],
    })]));
    assert!(!with_class.is_executable());
}

#[test]
fn primary_clone_copies_what_holds_no_expression() {
    for primary in [
        Primary::True,
        Primary::False,
        Primary::Nil,
        Primary::This,
        Primary::Number("1"),
        Primary::String("s"),
        Primary::Identifier("i"),
        Primary::SuperMember("m"),
    ] {
        assert_eq!(primary.clone(), primary);
    }
}

#[test]
fn trees_compare_by_their_parts() {
    let a = Program(vec![Declaration::Variable(VariableDeclaration {
        name: "x",
        initializer: Some(c_expression(Primary::Number("3"))),
    })]);
    let b = Program(vec![Declaration::Variable(VariableDeclaration {
        name: "x",
        initializer: Some(c_expression(Primary::Number("3"))),
    })]);
    let c = Program(vec![Declaration::Variable(VariableDeclaration {
        name: "x",
        initializer: Some(c_expression(Primary::Number("4"))),
    })]);
    assert_eq!(a, b);
    assert_ne!(a, c);
}
