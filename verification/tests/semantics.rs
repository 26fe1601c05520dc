use nix_jit::ast::{BinOpKind, Error, Expr, LiteralKind, StrPart};
use nix_jit::compiler::Compiler;
use nix_jit::interp::run_function;

fn ilit(text: &str) -> Expr {
    Expr::Literal(LiteralKind::Integer(text.to_string()))
}

fn binop(op: BinOpKind, l: Expr, r: Expr) -> Expr {
    Expr::BinOp(op, Box::new(l), Box::new(r))
}

fn run(expr: Expr) -> u64 {
    let mut c = Compiler::new();
    let mainf = c.compile(&expr).expect("compilation failed");
    let addrs: Vec<u64> = (0..c.module.data.len() as u64).map(|i| 0x1000 + i * 64).collect();
    run_function(&mainf, c.env.len(), &addrs)
}

fn err_of(expr: Expr) -> Error {
    let mut c = Compiler::new();
    c.compile(&expr).expect_err("compilation unexpectedly succeeded")
}

#[test]
fn integer_literal_yields_itself() {
    assert_eq!(run(ilit("0")), 0);
    assert_eq!(run(ilit("42")), 42);
    assert_eq!(run(ilit("9223372036854775807")), 9223372036854775807);
}

#[test]
fn arithmetic_matches_unsigned_64_bit() {
    assert_eq!(run(binop(BinOpKind::Add, ilit("7"), ilit("5"))), 12);
    assert_eq!(run(binop(BinOpKind::Sub, ilit("7"), ilit("5"))), 2);
    assert_eq!(run(binop(BinOpKind::Mul, ilit("7"), ilit("5"))), 35);
    assert_eq!(run(binop(BinOpKind::Div, ilit("7"), ilit("2"))), 3);
    assert_eq!(
        run(binop(BinOpKind::Sub, ilit("0"), ilit("1"))),
        u64::MAX,
        "subtraction wraps at 64 bits"
    );
}

#[test]
fn comparisons_yield_one_or_zero() {
    assert_eq!(run(binop(BinOpKind::Less, ilit("1"), ilit("2"))), 1);
    assert_eq!(run(binop(BinOpKind::Less, ilit("2"), ilit("1"))), 0);
    assert_eq!(run(binop(BinOpKind::LessOrEq, ilit("2"), ilit("2"))), 1);
    assert_eq!(run(binop(BinOpKind::More, ilit("3"), ilit("2"))), 1);
    assert_eq!(run(binop(BinOpKind::MoreOrEq, ilit("2"), ilit("3"))), 0);
    assert_eq!(run(binop(BinOpKind::Equal, ilit("2"), ilit("2"))), 1);
    assert_eq!(run(binop(BinOpKind::NotEqual, ilit("2"), ilit("2"))), 0);
    assert_eq!(run(binop(BinOpKind::NotEqual, ilit("2"), ilit("3"))), 1);
}

#[test]
fn logical_operators_are_bitwise() {
    assert_eq!(run(binop(BinOpKind::And, ilit("6"), ilit("3"))), 2);
    assert_eq!(run(binop(BinOpKind::Or, ilit("6"), ilit("3"))), 7);
}

#[test]
fn redeclaration_reuses_the_slot() {
    // let x = 1; let x = 2; x  =>  2, and one binding only.
    let e = Expr::LetIn(
        "x".to_string(),
        Box::new(ilit("1")),
        Box::new(Expr::LetIn("x".to_string(), Box::new(ilit("2")), Box::new(Expr::Ident("x".to_string())))),
    );
    let mut c = Compiler::new();
    let mainf = c.compile(&e).expect("compilation failed");
    assert_eq!(c.env.len(), 1, "re-declaration must not create a second binding");
    let addrs: Vec<u64> = Vec::new();
    assert_eq!(run_function(&mainf, c.env.len(), &addrs), 2);
}

#[test]
fn let_binding_is_visible_in_the_body() {
    // let a = 5; a + 1  =>  6
    let e = Expr::LetIn(
        "a".to_string(),
        Box::new(ilit("5")),
        Box::new(binop(BinOpKind::Add, Expr::Ident("a".to_string()), ilit("1"))),
    );
    assert_eq!(run(e), 6);
}

#[test]
fn unbound_identifier_fails_without_emitting_code() {
    let mut c = Compiler::new();
    let r = c.compile(&Expr::Ident("nope".to_string()));
    assert_eq!(r.unwrap_err(), Error::UnboundIdentifier);
    assert_eq!(c.module.data.len(), 0, "no data object may be emitted");
    assert_eq!(c.module.funcs.len(), 0, "no function may be finished");
}

#[test]
fn plain_string_literal_becomes_a_data_object() {
    let e = Expr::Str(Box::new(StrPart::Literal(
        "hello".to_string(),
        Box::new(StrPart::End),
    )));
    let mut c = Compiler::new();
    let mainf = c.compile(&e).expect("compilation failed");
    assert_eq!(c.module.data.len(), 1);
    assert_eq!(c.module.data[0], "hello");
    let addrs = vec![0xdead_beefu64];
    assert_eq!(run_function(&mainf, c.env.len(), &addrs), 0xdead_beef);
}

#[test]
fn interpolation_discards_text_and_yields_its_value() {
    // "a${1+1}b" evaluates to 2 and emits no data object.
    let e = Expr::Str(Box::new(StrPart::Literal(
        "a".to_string(),
        Box::new(StrPart::Interpolation(
            Box::new(binop(BinOpKind::Add, ilit("1"), ilit("1"))),
            Box::new(StrPart::Literal("b".to_string(), Box::new(StrPart::End))),
        )),
    )));
    let mut c = Compiler::new();
    let mainf = c.compile(&e).expect("compilation failed");
    assert_eq!(c.module.data.len(), 0, "accumulated text must be discarded");
    let addrs: Vec<u64> = Vec::new();
    assert_eq!(run_function(&mainf, c.env.len(), &addrs), 2);
}

#[test]
fn integer_literal_out_of_range_is_rejected() {
    assert_eq!(err_of(ilit("9223372036854775808")), Error::LiteralOutOfRange);
    assert_eq!(err_of(ilit("99999999999999999999999")), Error::LiteralOutOfRange);
    assert_eq!(err_of(ilit("")), Error::LiteralOutOfRange);
    assert_eq!(err_of(ilit("12x")), Error::LiteralOutOfRange);
}

#[test]
fn unsupported_forms_are_rejected() {
    assert_eq!(err_of(Expr::Unsupported), Error::UnsupportedConstruct);
    assert_eq!(
        err_of(Expr::Literal(LiteralKind::Unsupported)),
        Error::UnsupportedConstruct
    );
    assert_eq!(
        err_of(binop(BinOpKind::Unsupported, ilit("1"), ilit("2"))),
        Error::UnsupportedOperator
    );
}

#[test]
fn lambda_produces_no_value_at_its_use_site() {
    // A lambda alone has no value: the driver reports NoReturnValue, but the
    // lambda's own function was finished into the module.
    let lambda = Expr::Lambda("y".to_string(), Box::new(ilit("3")));
    let mut c = Compiler::new();
    let r = c.compile(&lambda);
    assert_eq!(r.unwrap_err(), Error::NoReturnValue);
    assert_eq!(c.module.funcs.len(), 1);
}

#[test]
fn binding_a_lambda_is_a_missing_value() {
    let e = Expr::LetIn(
        "f".to_string(),
        Box::new(Expr::Lambda("y".to_string(), Box::new(ilit("3")))),
        Box::new(ilit("1")),
    );
    assert_eq!(err_of(e), Error::MissingValue);
}

#[test]
fn empty_lambda_body_is_rejected() {
    // A lambda whose body is itself a lambda has no body value.
    let e = Expr::Lambda(
        "y".to_string(),
        Box::new(Expr::Lambda("z".to_string(), Box::new(ilit("1")))),
    );
    assert_eq!(err_of(e), Error::EmptyLambdaBody);
}

#[test]
fn float_literal_carries_its_bits() {
    let bits = (2.5f64).to_bits();
    let e = Expr::Literal(LiteralKind::Float(bits));
    assert_eq!(run(e), bits);
}
